//! The per-connection protocol: negotiation of the wire protocol from the
//! first line, the post-handshake session state machine, and the typed
//! messages a session sends to the coordinator.
//!
//! Both state machines are pure: they read a received line and say what to
//! write back, what to send to the coordinator, and whether the connection
//! is done. The process edge performs the socket reads and writes and owns
//! the reply channels, which pass through these types as an opaque handle
//! type `H`.
use vstd::prelude::*;
use vstd::string::*;
use super::error::{Error, ErrorKind};
use super::text;
use super::version;
use super::version::SemVer;

pub mod coordinator;

pub mod http;

verus! {

/// Identification of a client: the id it supplied and the reply handle its
/// session registered with.
#[derive(Debug)]
pub struct Ident<H> {
    /// id of the client
    pub id: String,

    /// reply handle of the client's session
    pub tx: H,
}

impl<H> Ident<H> {
    /// Creates a new instance of Ident.
    pub fn new(id: String, tx: H) -> (r: Ident<H>)
        ensures
            r.id == id,
            r.tx == tx,
    {
        Ident { id, tx }
    }
}

/// One message from a session loop to the coordinator: the sending
/// client's id and the operation asked for.
pub struct Message<H> {
    /// id of the client sending the message
    pub id: String,

    /// operation to process
    pub message: MessageBody<H>,
}

/// The operations a session can ask of the coordinator.
pub enum MessageBody<H> {
    /// deregister the sending client
    CLOSE,

    /// register the sending client under its id, with its reply handle
    IDENTIFY(Ident<H>),

    /// attach the sending client to the named room
    AttachToGroup(String),
}

impl<H> Message<H> {
    /// Creates a new instance of Message.
    pub fn new(id: String, message: MessageBody<H>) -> (r: Message<H>)
        ensures
            r.id == id,
            r.message == message,
    {
        Message { id, message }
    }

    /// Creates a new message with this message's id prefilled.
    pub fn new_message(&self, message: MessageBody<H>) -> (r: Message<H>)
        ensures
            r.id == self.id,
            r.message == message,
    {
        Message { message, id: self.id.clone() }
    }

    /// Creates a new instance carrying the given id and `CLOSE`, keeping
    /// the id at hand for later use in `new_message`.
    pub fn new_id(id: String) -> (r: Message<H>)
        ensures
            r.id == id,
            r.message is CLOSE,
    {
        Message { id, message: MessageBody::CLOSE }
    }

    /// Creates a placeholder message: the id every session starts under,
    /// with `CLOSE` as the operation.
    pub fn empty() -> (r: Message<H>)
        ensures
            r.id@ == "00001"@,
            r.message is CLOSE,
    {
        Message { id: String::from_str("00001"), message: MessageBody::CLOSE }
    }
}

/// Whether a first line opens the game protocol.
pub open spec fn spec_is_game_line(l: Seq<char>) -> bool {
    "POKE-ESCAPE_"@.is_prefix_of(l)
}

/// The version text a game first line carries: everything after the
/// protocol marker, with the line ending removed.
pub open spec fn spec_client_version_text(l: Seq<char>) -> Seq<char> {
    text::spec_trim_end(l.subrange(12, l.len() as int))
}

/// The banner the server answers a game client with: its own version,
/// framed by the server marker.
pub open spec fn spec_banner() -> Seq<char> {
    "POKE-ESCAPE-SERVER_"@ + "0.1.0"@ + "\n"@
}

/// The only thing an incompatible or unrecognized client is told.
pub open spec fn spec_mismatch() -> Seq<char> {
    "Protocol mismatch.\n"@
}

/// How a game handshake comes out once the banner is written.
pub enum GameOutcome {
    /// the client version parsed and is admitted: hand off to the session
    Accepted {
        /// the client's version
        version: SemVer,
    },
    /// the client version parsed but is not admitted: answer the mismatch
    /// line and close
    Incompatible {
        /// the exact reply to write before closing
        reply: String,
    },
    /// the client version did not parse: abort the job with a typed error
    Unparsable {
        /// the error that aborts this connection's job
        error: Error,
    },
}

/// What the negotiator decides from the first line of a connection.
pub enum Negotiation {
    /// a game client: write the banner, then follow the outcome
    GameHandshake {
        /// the version banner to write first
        banner: String,
        /// how the handshake came out
        outcome: GameOutcome,
    },
    /// an HTTP client: answer with the fixed HTTP response
    HttpStub,
    /// neither protocol: write the reply and close
    Mismatch {
        /// the exact reply to write before closing
        reply: String,
    },
}

/// Decides, from the first received line, which protocol the client speaks
/// and how the connection proceeds.
///
/// A line opening with the game marker is a game handshake: the reply
/// banner carries the server's own version, and the client's version text
/// is parsed and held to the fixed compatibility predicate. Any other line
/// containing the HTTP request-line marker goes to the HTTP stub.
/// Everything else is answered with exactly the mismatch line.
pub fn negotiate_line(line: &str) -> (r: Negotiation)
    ensures
        spec_is_game_line(line@) ==> (r matches Negotiation::GameHandshake { banner, outcome }
            && banner@ == spec_banner() && "POKE-ESCAPE-SERVER_"@.is_prefix_of(banner@) && (
        match version::spec_parse_version(spec_client_version_text(line@)) {
            Option::None => outcome matches GameOutcome::Unparsable { error }
                && (error.spec_kind() matches ErrorKind::VersionNotParsable(d) && d@
                == spec_client_version_text(line@)),
            Option::Some(t) => if version::spec_compatible(version::spec_semver_of(t)) {
                outcome matches GameOutcome::Accepted { version: v } && v
                    == version::spec_semver_of(t)
            } else {
                outcome matches GameOutcome::Incompatible { reply } && reply@ == spec_mismatch()
            },
        })),
        !spec_is_game_line(line@) && text::spec_contains(line@, "HTTP/1.1"@) ==> r is HttpStub,
        !spec_is_game_line(line@) && !text::spec_contains(line@, "HTTP/1.1"@) ==> (r
            matches Negotiation::Mismatch { reply } && reply@ == spec_mismatch()),
    {
        if text::str_starts_with(line, "POKE-ESCAPE_") {
            proof {
                reveal_strlit("POKE-ESCAPE_");
            }
            let banner = String::from_str("POKE-ESCAPE-SERVER_").concat("0.1.0").concat("\n");
            proof {
                reveal_strlit("POKE-ESCAPE-SERVER_");
                assert(banner@.subrange(0, 19) =~= "POKE-ESCAPE-SERVER_"@);
            }
            let rest = text::str_suffix(line, 12);
            let vtext = text::trim_line_end(rest);
            let outcome = match version::parse_version(vtext) {
                Option::None => GameOutcome::Unparsable {
                    error: Error::new(
                        ErrorKind::VersionNotParsable(String::from_str(vtext)),
                    ),
                },
                Option::Some(v) => if v.compatible() {
                    GameOutcome::Accepted { version: v }
                } else {
                    GameOutcome::Incompatible { reply: String::from_str("Protocol mismatch.\n") }
                },
            };
            Negotiation::GameHandshake { banner, outcome }
        } else if text::str_contains(line, "HTTP/1.1") {
            Negotiation::HttpStub
        } else {
            Negotiation::Mismatch { reply: String::from_str("Protocol mismatch.\n") }
        }
    }

/// Whether a received line is the quit command.
pub open spec fn spec_is_quit(l: Seq<char>) -> bool {
    text::spec_prefix_ci("quit"@, l)
}

/// Whether a received line is the identify command.
pub open spec fn spec_is_identify(l: Seq<char>) -> bool {
    text::spec_prefix_ci("identify"@, l)
}

/// Whether a received line is the attach-to-group command.
pub open spec fn spec_is_attach(l: Seq<char>) -> bool {
    text::spec_prefix_ci("attach-to-group "@, l)
}

/// The id an identify line supplies: everything after `identify `, with
/// the line ending removed; empty when the command carries no id.
pub open spec fn spec_identify_payload(l: Seq<char>) -> Seq<char> {
    let t = text::spec_trim_end(l);
    if t.len() >= 9 {
        t.subrange(9, t.len() as int)
    } else {
        Seq::empty()
    }
}

/// The room name an attach-to-group line supplies: everything after
/// `attach-to-group `, with the line ending removed.
pub open spec fn spec_attach_payload(l: Seq<char>) -> Seq<char> {
    let t = text::spec_trim_end(l);
    if t.len() >= 16 {
        t.subrange(16, t.len() as int)
    } else {
        Seq::empty()
    }
}

/// What one step of the session loop asks the process edge to do, in
/// order: write each reply to the client, send each message to the
/// coordinator, and stop the loop when `done`.
pub struct SessionStep<H> {
    /// lines to write back to the client, first the echo of what was read
    pub replies: Vec<String>,

    /// messages to send to the coordinator
    pub outbound: Vec<Message<H>>,

    /// whether the session has reached its terminal state
    pub done: bool,
}

/// The per-connection session state machine run after a successful game
/// handshake.
///
/// It holds the single-use reply handle until the session identifies, and
/// the id under which the session speaks to the coordinator — the
/// placeholder id until `identify` supplies one.
pub struct Session<H> {
    reply: Option<H>,
    id: String,
}

impl<H> Session<H> {
    /// The reply handle, while the session still holds it: `identify`
    /// consumes it, which is what makes a second `identify` fail.
    pub closed spec fn spec_reply(&self) -> Option<H> {
        self.reply
    }

    /// The id the session currently speaks under.
    pub closed spec fn spec_id(&self) -> Seq<char> {
        self.id@
    }

    /// Creates the session state for a fresh connection, owning its
    /// single-use reply handle.
    pub fn new(reply: H) -> (s: Session<H>)
        ensures
            s.spec_reply() == Some(reply),
            s.spec_id() == "00001"@,
    {
        Session { reply: Some(reply), id: String::from_str("00001") }
    }

    /// Interprets one received line.
    ///
    /// Every line is echoed back verbatim before interpretation. `quit`
    /// answers `Bye`, deregisters the session and ends the loop.
    /// `identify <id>` registers the session once, handing the coordinator
    /// its reply handle; a second `identify` answers `Error`. `attach-to-group
    /// <name>` asks the coordinator to attach this session's id to the
    /// room. All three commands are recognized regardless of ASCII case;
    /// any other line is echoed and otherwise ignored.
    pub fn step(&mut self, line: &str) -> (r: SessionStep<H>)
        ensures
            r.replies@.len() >= 1 && r.replies@[0]@ == line@,
            spec_is_quit(line@) ==> r.replies@.len() == 2 && r.replies@[1]@ == "Bye"@ && r.done
                && r.outbound@.len() == 1 && r.outbound@[0].id@ == old(self).spec_id()
                && r.outbound@[0].message is CLOSE && final(self).spec_reply() == old(self).spec_reply() && final(self).spec_id() == old(self).spec_id(),
            !spec_is_quit(line@) && spec_is_identify(line@) ==> (match old(self).spec_reply() {
                Option::Some(tx) => r.replies@.len() == 1 && !r.done && r.outbound@.len() == 1
                    && r.outbound@[0].id@ == spec_identify_payload(line@) && (
                r.outbound@[0].message matches MessageBody::IDENTIFY(ident) && ident.id@
                    == spec_identify_payload(line@) && ident.tx == tx) && final(self).spec_reply() is None && final(self).spec_id() == spec_identify_payload(line@),
                Option::None => r.replies@.len() == 2 && r.replies@[1]@ == "Error"@ && !r.done
                    && r.outbound@.len() == 0 && final(self).spec_reply() is None && final(self).spec_id() == old(self).spec_id(),
            }),
            !spec_is_quit(line@) && !spec_is_identify(line@) && spec_is_attach(line@)
                ==> r.replies@.len() == 1 && !r.done && r.outbound@.len() == 1
                && r.outbound@[0].id@ == old(self).spec_id() && (
            r.outbound@[0].message matches MessageBody::AttachToGroup(g) && g@
                == spec_attach_payload(line@)) && final(self).spec_reply() == old(self).spec_reply() && final(self).spec_id() == old(self).spec_id(),
            !spec_is_quit(line@) && !spec_is_identify(line@) && !spec_is_attach(line@)
                ==> r.replies@.len() == 1 && !r.done && r.outbound@.len() == 0 && final(self).spec_reply() == old(self).spec_reply() && final(self).spec_id() == old(self).spec_id(),
    {
        let mut replies: Vec<String> = Vec::new();
        replies.push(String::from_str(line));
        if text::str_starts_with_ci(line, "quit") {
            replies.push(String::from_str("Bye"));
            let close = Message::new(self.id.clone(), MessageBody::CLOSE);
            let mut outbound: Vec<Message<H>> = Vec::new();
            outbound.push(close);
            SessionStep { replies, outbound, done: true }
        } else if text::str_starts_with_ci(line, "identify") {
            let prev = self.reply.take();
            match prev {
                Option::Some(tx) => {
                    let trimmed = text::trim_line_end(line);
                    let id = if trimmed.unicode_len() >= 9 {
                        String::from_str(text::str_suffix(trimmed, 9))
                    } else {
                        String::new()
                    };
                    self.id = id.clone();
                    let msg = Message::new(
                        id.clone(),
                        MessageBody::IDENTIFY(Ident::new(id, tx)),
                    );
                    let mut outbound: Vec<Message<H>> = Vec::new();
                    outbound.push(msg);
                    SessionStep { replies, outbound, done: false }
                },
                Option::None => {
                    replies.push(String::from_str("Error"));
                    SessionStep { replies, outbound: Vec::new(), done: false }
                },
            }
        } else if text::str_starts_with_ci(line, "attach-to-group ") {
            let trimmed = text::trim_line_end(line);
            let name = if trimmed.unicode_len() >= 16 {
                String::from_str(text::str_suffix(trimmed, 16))
            } else {
                String::new()
            };
            let msg = Message::new(self.id.clone(), MessageBody::AttachToGroup(name));
            let mut outbound: Vec<Message<H>> = Vec::new();
            outbound.push(msg);
            SessionStep { replies, outbound, done: false }
        } else {
            SessionStep { replies, outbound: Vec::new(), done: false }
        }
    }
}

} // verus!
