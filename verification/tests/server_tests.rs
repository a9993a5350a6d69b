use poke_escape_server::error::ErrorKind;
use poke_escape_server::server::coordinator::Coordinator;
use poke_escape_server::server::http;
use poke_escape_server::server::{
    GameOutcome, Ident, Message, MessageBody, Negotiation, Session, negotiate_line,
};
use poke_escape_server::version::{SemVer, parse_version};

// version handling

#[test]
fn parses_a_plain_release() {
    let v = parse_version("1.2.3").unwrap();
    assert_eq!(v, SemVer { major: 1, minor: 2, patch: 3, pre: false });
}

#[test]
fn parses_a_prerelease() {
    let v = parse_version("0.1.0-alpha.1").unwrap();
    assert_eq!(v.major, 0);
    assert_eq!(v.minor, 1);
    assert_eq!(v.patch, 0);
    assert!(v.pre);
}

#[test]
fn rejects_a_non_version() {
    assert!(parse_version("not a version").is_none());
    assert!(parse_version("1.0").is_none());
}

#[test]
fn compatibility_is_at_most_0_1_0_without_prerelease() {
    assert!(SemVer::new(0, 1, 0).compatible());
    assert!(SemVer::new(0, 0, 9).compatible());
    assert!(!SemVer::new(0, 1, 1).compatible());
    assert!(!SemVer::new(1, 0, 0).compatible());
    assert!(!SemVer::new(9, 9, 9).compatible());
    assert!(!SemVer { major: 0, minor: 1, patch: 0, pre: true }.compatible());
}

#[test]
fn precedence_orders_components_left_to_right() {
    assert!(SemVer::new(1, 9, 9).precedes(&SemVer::new(2, 0, 0)));
    assert!(SemVer::new(1, 0, 9).precedes(&SemVer::new(1, 1, 0)));
    assert!(SemVer::new(1, 0, 0).precedes(&SemVer::new(1, 0, 1)));
    assert!(!SemVer::new(1, 0, 0).precedes(&SemVer::new(1, 0, 0)));
    assert!(
        SemVer { major: 1, minor: 0, patch: 0, pre: true }.precedes(&SemVer::new(1, 0, 0))
    );
}

// negotiation

#[test]
fn compatible_handshake_is_answered_with_the_server_banner() {
    match negotiate_line("POKE-ESCAPE_0.1.0\n") {
        Negotiation::GameHandshake { banner, outcome } => {
            assert!(banner.starts_with("POKE-ESCAPE-SERVER_"));
            assert_eq!(banner, "POKE-ESCAPE-SERVER_0.1.0\n");
            match outcome {
                GameOutcome::Accepted { version } => {
                    assert_eq!(version, SemVer::new(0, 1, 0));
                },
                _ => panic!("a 0.1.0 client must be admitted"),
            }
        },
        _ => panic!("a game marker must open the game handshake"),
    }
}

#[test]
fn too_new_client_gets_exactly_the_mismatch_line() {
    match negotiate_line("POKE-ESCAPE_9.9.9\n") {
        Negotiation::GameHandshake { banner, outcome } => {
            assert!(banner.starts_with("POKE-ESCAPE-SERVER_"));
            match outcome {
                GameOutcome::Incompatible { reply } => {
                    assert_eq!(reply, "Protocol mismatch.\n");
                },
                _ => panic!("a 9.9.9 client must not be admitted"),
            }
        },
        _ => panic!("a game marker must open the game handshake"),
    }
}

#[test]
fn unparsable_client_version_aborts_with_a_typed_error() {
    match negotiate_line("POKE-ESCAPE_banana\n") {
        Negotiation::GameHandshake { outcome, .. } => match outcome {
            GameOutcome::Unparsable { error } => {
                assert_eq!(
                    error.kind(),
                    ErrorKind::VersionNotParsable("banana".to_string())
                );
            },
            _ => panic!("a bad version must abort the job"),
        },
        _ => panic!("a game marker must open the game handshake"),
    }
}

#[test]
fn http_request_line_goes_to_the_http_stub() {
    match negotiate_line("GET / HTTP/1.1\r\n") {
        Negotiation::HttpStub => {},
        _ => panic!("an HTTP request line must go to the HTTP stub"),
    }
}

#[test]
fn unknown_protocol_gets_exactly_the_mismatch_line() {
    match negotiate_line("EHLO example.com\n") {
        Negotiation::Mismatch { reply } => assert_eq!(reply, "Protocol mismatch.\n"),
        _ => panic!("an unknown first line is a mismatch"),
    }
}

#[test]
fn http_stub_response_is_the_frozen_one() {
    let html = "\n<!DOCTYPE html>\n<html>\n    <head>\n        <meta charset=\"utf-8\" lang=\"en\"/>\n        <title>Pok\u{e9}mon Escape server</title>\n    </head>\n    <body>\n        <h1>Please provide html content</h1>\n    </body>\n</html>";
    let expected = format!(
        "HTTP/1.1 418 I'M A Pokemon\nServer: Pok\u{e9}monEscape server\nContent-Type: text/html; charset=utf-8\nContent-Length: {}\n\n{}",
        html.len(),
        html
    );
    assert_eq!(http::response_text(), expected);
}

// session loop

#[test]
fn every_line_is_echoed_verbatim_first() {
    let mut s: Session<u32> = Session::new(1);
    let step = s.step("hello there\n");
    assert_eq!(step.replies.len(), 1);
    assert_eq!(step.replies[0], "hello there\n");
    assert!(step.outbound.is_empty());
    assert!(!step.done);
}

#[test]
fn quit_answers_bye_and_closes() {
    let mut s: Session<u32> = Session::new(1);
    let step = s.step("quit\n");
    assert_eq!(step.replies, vec!["quit\n".to_string(), "Bye".to_string()]);
    assert!(step.done);
    assert_eq!(step.outbound.len(), 1);
    assert_eq!(step.outbound[0].id, "00001");
    assert!(matches!(step.outbound[0].message, MessageBody::CLOSE));
}

#[test]
fn quit_is_case_insensitive() {
    let mut s: Session<u32> = Session::new(1);
    let step = s.step("QUIT\n");
    assert!(step.done);
    assert_eq!(step.replies[1], "Bye");
}

#[test]
fn identify_registers_once_and_hands_over_the_reply_handle() {
    let mut s: Session<u32> = Session::new(77);
    let step = s.step("identify alice\n");
    assert_eq!(step.replies, vec!["identify alice\n".to_string()]);
    assert!(!step.done);
    assert_eq!(step.outbound.len(), 1);
    assert_eq!(step.outbound[0].id, "alice");
    match &step.outbound[0].message {
        MessageBody::IDENTIFY(ident) => {
            assert_eq!(ident.id, "alice");
            assert_eq!(ident.tx, 77);
        },
        _ => panic!("identify must send IDENTIFY"),
    }
}

#[test]
fn second_identify_is_answered_with_error() {
    let mut s: Session<u32> = Session::new(77);
    let _ = s.step("identify alice\n");
    let step = s.step("identify bob\n");
    assert_eq!(
        step.replies,
        vec!["identify bob\n".to_string(), "Error".to_string()]
    );
    assert!(step.outbound.is_empty());
    assert!(!step.done);
}

#[test]
fn attach_to_group_sends_the_room_to_the_coordinator() {
    let mut s: Session<u32> = Session::new(5);
    let _ = s.step("identify a\n");
    let step = s.step("attach-to-group room1\n");
    assert_eq!(step.outbound.len(), 1);
    assert_eq!(step.outbound[0].id, "a");
    match &step.outbound[0].message {
        MessageBody::AttachToGroup(room) => assert_eq!(room, "room1"),
        _ => panic!("attach-to-group must send AttachToGroup"),
    }
}

// messages

#[test]
fn message_helpers_carry_the_id() {
    let m: Message<u32> = Message::new_id("a".to_string());
    assert_eq!(m.id, "a");
    assert!(matches!(m.message, MessageBody::CLOSE));
    let m2 = m.new_message(MessageBody::AttachToGroup("r".to_string()));
    assert_eq!(m2.id, "a");
    let e: Message<u32> = Message::empty();
    assert_eq!(e.id, "00001");
    let i: Ident<u32> = Ident::new("x".to_string(), 3);
    assert_eq!(i.id, "x");
    assert_eq!(i.tx, 3);
}

// coordinator

#[test]
fn close_for_a_never_registered_id_is_harmless() {
    let mut c: Coordinator<u32> = Coordinator::new();
    c.handle_message(Message::new("ghost".to_string(), MessageBody::CLOSE));
    assert!(!c.is_registered("ghost"));
    assert!(c.room_members("anywhere").is_none());
}

#[test]
fn identify_then_attach_fills_the_room_table() {
    let mut c: Coordinator<u32> = Coordinator::new();
    c.handle_message(Message::new(
        "a".to_string(),
        MessageBody::IDENTIFY(Ident::new("a".to_string(), 1)),
    ));
    assert!(c.is_registered("a"));
    assert_eq!(c.client_room("a"), None);
    c.handle_message(Message::new(
        "a".to_string(),
        MessageBody::AttachToGroup("room1".to_string()),
    ));
    assert_eq!(c.client_room("a"), Some("room1".to_string()));
    assert_eq!(c.room_members("room1"), Some(vec!["a".to_string()]));
}

#[test]
fn close_removes_the_client_from_every_room() {
    let mut c: Coordinator<u32> = Coordinator::new();
    c.handle_message(Message::new(
        "a".to_string(),
        MessageBody::IDENTIFY(Ident::new("a".to_string(), 1)),
    ));
    c.handle_message(Message::new(
        "a".to_string(),
        MessageBody::AttachToGroup("room1".to_string()),
    ));
    c.handle_message(Message::new("a".to_string(), MessageBody::CLOSE));
    assert!(!c.is_registered("a"));
    // the room itself stays, its member set no longer holds the client
    assert_eq!(c.room_members("room1"), Some(vec![]));
}

#[test]
fn switching_rooms_leaves_the_old_room() {
    let mut c: Coordinator<u32> = Coordinator::new();
    c.handle_message(Message::new(
        "a".to_string(),
        MessageBody::IDENTIFY(Ident::new("a".to_string(), 1)),
    ));
    c.handle_message(Message::new(
        "a".to_string(),
        MessageBody::AttachToGroup("room1".to_string()),
    ));
    c.handle_message(Message::new(
        "a".to_string(),
        MessageBody::AttachToGroup("room2".to_string()),
    ));
    assert_eq!(c.client_room("a"), Some("room2".to_string()));
    assert_eq!(c.room_members("room1"), Some(vec![]));
    assert_eq!(c.room_members("room2"), Some(vec!["a".to_string()]));
}

#[test]
fn duplicate_identify_overwrites_and_cleans_the_room() {
    let mut c: Coordinator<u32> = Coordinator::new();
    c.handle_message(Message::new(
        "a".to_string(),
        MessageBody::IDENTIFY(Ident::new("a".to_string(), 1)),
    ));
    c.handle_message(Message::new(
        "a".to_string(),
        MessageBody::AttachToGroup("room1".to_string()),
    ));
    c.handle_message(Message::new(
        "a".to_string(),
        MessageBody::IDENTIFY(Ident::new("a".to_string(), 2)),
    ));
    assert!(c.is_registered("a"));
    assert_eq!(c.client_room("a"), None);
    assert_eq!(c.room_members("room1"), Some(vec![]));
}

#[test]
fn attach_for_an_unregistered_id_changes_nothing() {
    let mut c: Coordinator<u32> = Coordinator::new();
    c.handle_message(Message::new(
        "nobody".to_string(),
        MessageBody::AttachToGroup("room1".to_string()),
    ));
    assert!(!c.is_registered("nobody"));
    assert!(c.room_members("room1").is_none());
}

#[test]
fn two_sessions_quit_independently() {
    let mut c: Coordinator<u32> = Coordinator::new();
    let mut s1: Session<u32> = Session::new(1);
    let mut s2: Session<u32> = Session::new(2);
    for m in s1.step("identify a\n").outbound {
        c.handle_message(m);
    }
    for m in s2.step("identify b\n").outbound {
        c.handle_message(m);
    }
    assert!(c.is_registered("a"));
    assert!(c.is_registered("b"));

    let q1 = s1.step("quit\n");
    assert_eq!(q1.replies[1], "Bye");
    for m in q1.outbound {
        c.handle_message(m);
    }
    assert!(!c.is_registered("a"));
    assert!(c.is_registered("b"));

    let q2 = s2.step("quit\n");
    assert_eq!(q2.replies[1], "Bye");
    for m in q2.outbound {
        c.handle_message(m);
    }
    assert!(!c.is_registered("b"));
}
