//! The flat error taxonomy of the server: one closed enum of failure
//! categories, an `Error` carrier around it, and the conversions the rest of
//! the crate relies on.
use vstd::prelude::*;
use vstd::string::*;

verus! {

/// The kinds of I/O failure the server distinguishes. The process edge maps
/// the platform's I/O error classification onto this enum; everything the
/// library states about I/O failures is stated over these plain values.
#[derive(Clone, Copy, PartialEq, Eq, Debug)]
pub enum IoKind {
    /// an entity was not found
    NotFound,

    /// the operation lacked the needed permission
    PermissionDenied,

    /// the remote server refused the connection
    ConnectionRefused,

    /// the remote server reset the connection
    ConnectionReset,

    /// the remote server aborted the connection
    ConnectionAborted,

    /// the operation needs a connection that is not there
    NotConnected,

    /// the socket address is already in use
    AddrInUse,

    /// the requested address is not available
    AddrNotAvailable,

    /// the operation failed because a pipe was closed
    BrokenPipe,

    /// an entity already exists
    AlreadyExists,

    /// the operation would need to block
    WouldBlock,

    /// a parameter was incorrect
    InvalidInput,

    /// malformed input data
    InvalidData,

    /// the operation's time limit expired
    TimedOut,

    /// a write returned zero bytes
    WriteZero,

    /// the operation was interrupted
    Interrupted,

    /// an otherwise unclassified I/O failure
    Other,

    /// an unexpected end of file
    UnexpectedEof,
}

/// ErrorKind represents the internal error type of the Error.
#[derive(Clone, PartialEq, Eq, Debug)]
pub enum ErrorKind {
    /// Io Not Found error, from `IoKind::NotFound`
    IoNotFound,

    /// Io Permission Denied error, from `IoKind::PermissionDenied`
    IoPermissionDenied,

    /// Io Connection Refused error, from `IoKind::ConnectionRefused`
    IoConnectionRefused,

    /// Io Connection Reset error, from `IoKind::ConnectionReset`
    IoConnectionReset,

    /// Io Connection Aborted error, from `IoKind::ConnectionAborted`
    IoConnectionAborted,

    /// Io Not Connected error, from `IoKind::NotConnected`
    IoNotConnected,

    /// Io Addr In Use error, from `IoKind::AddrInUse`
    IoAddrInUse,

    /// Io Addr Not Available error, from `IoKind::AddrNotAvailable`
    IoAddrNotAvailable,

    /// Io Broken Pipe error, from `IoKind::BrokenPipe`
    IoBrokenPipe,

    /// Io Already Exists error, from `IoKind::AlreadyExists`
    IoAlreadyExists,

    /// Io Would Block error, from `IoKind::WouldBlock`
    IoWouldBlock,

    /// Io Invalid Input error, from `IoKind::InvalidInput`
    IoInvalidInput,

    /// Io Invalid Data error, from `IoKind::InvalidData`
    IoInvalidData,

    /// Io Timed Out error, from `IoKind::TimedOut`
    IoTimedOut,

    /// Io Write Zero error, from `IoKind::WriteZero`
    IoWriteZero,

    /// Io Interrupted error, from `IoKind::Interrupted`
    IoInterrupted,

    /// Io Other error, from `IoKind::Other`
    IoOther,

    /// Io Unexpected EOF error, from `IoKind::UnexpectedEof`
    IoUnexpectedEof,

    /// Format Not Supported, raised when the format named in the map
    /// configuration is not supported
    FormatNotSupported,

    /// Field Not Exists, raised when an important field is missing in the
    /// configuration; also raised when a field is of the wrong type
    FieldNotExists(String),

    /// Not Parsable error, raised when the configuration text cannot be
    /// deserialized
    NotParsable(String),

    /// No Version Supplied error, used when the client sent no version
    NoVersionSupplied,

    /// Version Not Parsable error, used when a version string cannot be
    /// parsed
    VersionNotParsable(String),

    /// Pool To Small is returned when the worker pool is too small to be
    /// created
    PoolToSmall,

    /// Pool Send Error is a failed send on the worker pool's queue;
    /// carries true when the lost message was a job, false when it was a
    /// terminate instruction
    PoolSendError(bool),

    /// Other error, used for string to error conversion
    Other(String),

    /// Unknown error, used as the default of match statements
    Unknown(String),
}

/// Error object used for return values.
#[derive(PartialEq, Eq, Debug)]
pub struct Error {
    my_kind: ErrorKind,
}

impl Error {
    /// The kind this error carries; the mathematical content of an `Error`.
    pub closed spec fn spec_kind(&self) -> ErrorKind {
        self.my_kind
    }
}

/// The `ErrorKind` that each `IoKind` is carried as.
pub open spec fn spec_io_to_kind(k: IoKind) -> ErrorKind {
    match k {
        IoKind::NotFound => ErrorKind::IoNotFound,
        IoKind::PermissionDenied => ErrorKind::IoPermissionDenied,
        IoKind::ConnectionRefused => ErrorKind::IoConnectionRefused,
        IoKind::ConnectionReset => ErrorKind::IoConnectionReset,
        IoKind::ConnectionAborted => ErrorKind::IoConnectionAborted,
        IoKind::NotConnected => ErrorKind::IoNotConnected,
        IoKind::AddrInUse => ErrorKind::IoAddrInUse,
        IoKind::AddrNotAvailable => ErrorKind::IoAddrNotAvailable,
        IoKind::BrokenPipe => ErrorKind::IoBrokenPipe,
        IoKind::AlreadyExists => ErrorKind::IoAlreadyExists,
        IoKind::WouldBlock => ErrorKind::IoWouldBlock,
        IoKind::InvalidInput => ErrorKind::IoInvalidInput,
        IoKind::InvalidData => ErrorKind::IoInvalidData,
        IoKind::TimedOut => ErrorKind::IoTimedOut,
        IoKind::WriteZero => ErrorKind::IoWriteZero,
        IoKind::Interrupted => ErrorKind::IoInterrupted,
        IoKind::Other => ErrorKind::IoOther,
        IoKind::UnexpectedEof => ErrorKind::IoUnexpectedEof,
    }
}

/// The text that `error_string` and `to_string` return for each kind.
pub open spec fn spec_error_string(k: ErrorKind) -> Seq<char> {
    match k {
        ErrorKind::IoNotFound => "IoNotFound"@,
        ErrorKind::IoPermissionDenied => "IoPermissionDenied"@,
        ErrorKind::IoConnectionRefused => "IoConnectionRefused"@,
        ErrorKind::IoConnectionReset => "IoConnectionReset"@,
        ErrorKind::IoConnectionAborted => "IoConnectionAborted"@,
        ErrorKind::IoNotConnected => "IoNotConnected"@,
        ErrorKind::IoAddrInUse => "IoAddrInUse"@,
        ErrorKind::IoAddrNotAvailable => "IoAddrNotAvailable"@,
        ErrorKind::IoBrokenPipe => "IoBrokenPipe"@,
        ErrorKind::IoAlreadyExists => "IoAlreadyExists"@,
        ErrorKind::IoWouldBlock => "IoWouldBlock"@,
        ErrorKind::IoInvalidInput => "IoInvalidInput"@,
        ErrorKind::IoInvalidData => "IoInvalidData"@,
        ErrorKind::IoTimedOut => "IoTimedOut"@,
        ErrorKind::IoWriteZero => "IoWriteZero"@,
        ErrorKind::IoInterrupted => "IoInterrupted"@,
        ErrorKind::IoOther => "IoOther"@,
        ErrorKind::IoUnexpectedEof => "IoUnexpectedEof"@,
        ErrorKind::FormatNotSupported => "FormatNotSupported"@,
        ErrorKind::FieldNotExists(data) => "FieldNotExists("@ + data@ + ")"@,
        ErrorKind::NotParsable(data) => "NotParsable("@ + data@ + ")"@,
        ErrorKind::NoVersionSupplied => "NoVersionSupplied"@,
        ErrorKind::VersionNotParsable(data) => "VersionNotParsable("@ + data@ + ")"@,
        ErrorKind::PoolToSmall => "PoolToSmall"@,
        ErrorKind::PoolSendError(t) => if t {
            "PoolSendError(Job)"@
        } else {
            "PoolSendError(Terminate)"@
        },
        ErrorKind::Other(data) => "Other("@ + data@ + ")"@,
        ErrorKind::Unknown(data) => "Unknown("@ + data@ + ")"@,
    }
}

impl Error {
    /// Creates a new Error of the given kind.
    pub fn new(kind: ErrorKind) -> (e: Error)
        ensures
            e.spec_kind() == kind,
    {
        Error { my_kind: kind }
    }

    /// Returns the internal kind of the error.
    pub fn kind(&self) -> (k: ErrorKind)
        ensures
            k == self.spec_kind(),
    {
        match &self.my_kind {
            ErrorKind::IoNotFound => ErrorKind::IoNotFound,
            ErrorKind::IoPermissionDenied => ErrorKind::IoPermissionDenied,
            ErrorKind::IoConnectionRefused => ErrorKind::IoConnectionRefused,
            ErrorKind::IoConnectionReset => ErrorKind::IoConnectionReset,
            ErrorKind::IoConnectionAborted => ErrorKind::IoConnectionAborted,
            ErrorKind::IoNotConnected => ErrorKind::IoNotConnected,
            ErrorKind::IoAddrInUse => ErrorKind::IoAddrInUse,
            ErrorKind::IoAddrNotAvailable => ErrorKind::IoAddrNotAvailable,
            ErrorKind::IoBrokenPipe => ErrorKind::IoBrokenPipe,
            ErrorKind::IoAlreadyExists => ErrorKind::IoAlreadyExists,
            ErrorKind::IoWouldBlock => ErrorKind::IoWouldBlock,
            ErrorKind::IoInvalidInput => ErrorKind::IoInvalidInput,
            ErrorKind::IoInvalidData => ErrorKind::IoInvalidData,
            ErrorKind::IoTimedOut => ErrorKind::IoTimedOut,
            ErrorKind::IoWriteZero => ErrorKind::IoWriteZero,
            ErrorKind::IoInterrupted => ErrorKind::IoInterrupted,
            ErrorKind::IoOther => ErrorKind::IoOther,
            ErrorKind::IoUnexpectedEof => ErrorKind::IoUnexpectedEof,
            ErrorKind::FormatNotSupported => ErrorKind::FormatNotSupported,
            ErrorKind::FieldNotExists(data) => ErrorKind::FieldNotExists(data.clone()),
            ErrorKind::NotParsable(data) => ErrorKind::NotParsable(data.clone()),
            ErrorKind::NoVersionSupplied => ErrorKind::NoVersionSupplied,
            ErrorKind::VersionNotParsable(data) => ErrorKind::VersionNotParsable(data.clone()),
            ErrorKind::PoolToSmall => ErrorKind::PoolToSmall,
            ErrorKind::PoolSendError(t) => ErrorKind::PoolSendError(*t),
            ErrorKind::Other(data) => ErrorKind::Other(data.clone()),
            ErrorKind::Unknown(data) => ErrorKind::Unknown(data.clone()),
        }
    }

    /// Creates a new error of the kind NoVersionSupplied.
    pub fn new_no_version_supplied() -> (e: Error)
        ensures
            e.spec_kind() == ErrorKind::NoVersionSupplied,
    {
        Self::new(ErrorKind::NoVersionSupplied)
    }

    /// Creates a new error of the kind FieldNotExists.
    pub fn new_field_not_exists(field: String) -> (e: Error)
        ensures
            e.spec_kind() == ErrorKind::FieldNotExists(field),
    {
        Self::new(ErrorKind::FieldNotExists(field))
    }

    /// Converts an `IoKind` to the `ErrorKind` it is carried as.
    fn io_to_kind(kind: IoKind) -> (k: ErrorKind)
        ensures
            k == spec_io_to_kind(kind),
    {
        match kind {
            IoKind::NotFound => ErrorKind::IoNotFound,
            IoKind::PermissionDenied => ErrorKind::IoPermissionDenied,
            IoKind::ConnectionRefused => ErrorKind::IoConnectionRefused,
            IoKind::ConnectionReset => ErrorKind::IoConnectionReset,
            IoKind::ConnectionAborted => ErrorKind::IoConnectionAborted,
            IoKind::NotConnected => ErrorKind::IoNotConnected,
            IoKind::AddrInUse => ErrorKind::IoAddrInUse,
            IoKind::AddrNotAvailable => ErrorKind::IoAddrNotAvailable,
            IoKind::BrokenPipe => ErrorKind::IoBrokenPipe,
            IoKind::AlreadyExists => ErrorKind::IoAlreadyExists,
            IoKind::WouldBlock => ErrorKind::IoWouldBlock,
            IoKind::InvalidInput => ErrorKind::IoInvalidInput,
            IoKind::InvalidData => ErrorKind::IoInvalidData,
            IoKind::TimedOut => ErrorKind::IoTimedOut,
            IoKind::WriteZero => ErrorKind::IoWriteZero,
            IoKind::Interrupted => ErrorKind::IoInterrupted,
            IoKind::Other => ErrorKind::IoOther,
            IoKind::UnexpectedEof => ErrorKind::IoUnexpectedEof,
        }
    }
}

impl ErrorKind {
    /// Represents the kind as a String.
    fn convert_to_string(&self) -> (s: String)
        ensures
            s@ == spec_error_string(*self),
    {
        match self {
            ErrorKind::IoNotFound => String::from_str("IoNotFound"),
            ErrorKind::IoPermissionDenied => String::from_str("IoPermissionDenied"),
            ErrorKind::IoConnectionRefused => String::from_str("IoConnectionRefused"),
            ErrorKind::IoConnectionReset => String::from_str("IoConnectionReset"),
            ErrorKind::IoConnectionAborted => String::from_str("IoConnectionAborted"),
            ErrorKind::IoNotConnected => String::from_str("IoNotConnected"),
            ErrorKind::IoAddrInUse => String::from_str("IoAddrInUse"),
            ErrorKind::IoAddrNotAvailable => String::from_str("IoAddrNotAvailable"),
            ErrorKind::IoBrokenPipe => String::from_str("IoBrokenPipe"),
            ErrorKind::IoAlreadyExists => String::from_str("IoAlreadyExists"),
            ErrorKind::IoWouldBlock => String::from_str("IoWouldBlock"),
            ErrorKind::IoInvalidInput => String::from_str("IoInvalidInput"),
            ErrorKind::IoInvalidData => String::from_str("IoInvalidData"),
            ErrorKind::IoTimedOut => String::from_str("IoTimedOut"),
            ErrorKind::IoWriteZero => String::from_str("IoWriteZero"),
            ErrorKind::IoInterrupted => String::from_str("IoInterrupted"),
            ErrorKind::IoOther => String::from_str("IoOther"),
            ErrorKind::IoUnexpectedEof => String::from_str("IoUnexpectedEof"),
            ErrorKind::FormatNotSupported => String::from_str("FormatNotSupported"),
            ErrorKind::FieldNotExists(data) => String::from_str("FieldNotExists(").concat(
                data.as_str(),
            ).concat(")"),
            ErrorKind::NotParsable(data) => String::from_str("NotParsable(").concat(
                data.as_str(),
            ).concat(")"),
            ErrorKind::NoVersionSupplied => String::from_str("NoVersionSupplied"),
            ErrorKind::VersionNotParsable(data) => String::from_str("VersionNotParsable(").concat(
                data.as_str(),
            ).concat(")"),
            ErrorKind::PoolToSmall => String::from_str("PoolToSmall"),
            ErrorKind::PoolSendError(t) => if *t {
                String::from_str("PoolSendError(Job)")
            } else {
                String::from_str("PoolSendError(Terminate)")
            },
            ErrorKind::Other(data) => String::from_str("Other(").concat(data.as_str()).concat(")"),
            ErrorKind::Unknown(data) => String::from_str("Unknown(").concat(data.as_str()).concat(
                ")",
            ),
        }
    }

    /// Returns the name of the kind, with its payload, as a String.
    pub fn error_string(&self) -> (s: String)
        ensures
            s@ == spec_error_string(*self),
    {
        self.convert_to_string()
    }

    /// Represents the kind as a String; the same text as `error_string`.
    pub fn to_string(&self) -> (s: String)
        ensures
            s@ == spec_error_string(*self),
    {
        self.convert_to_string()
    }
}

impl core::convert::From<IoKind> for ErrorKind {
    /// Converts an `IoKind` into the `ErrorKind` it is carried as.
    fn from(io_kind: IoKind) -> (k: ErrorKind)
        ensures
            k == spec_io_to_kind(io_kind),
    {
        Error::io_to_kind(io_kind)
    }
}

impl vstd::std_specs::convert::FromSpecImpl<IoKind> for ErrorKind {
    open spec fn obeys_from_spec() -> bool {
        true
    }

    open spec fn from_spec(v: IoKind) -> Self {
        spec_io_to_kind(v)
    }
}

impl core::convert::From<IoKind> for Error {
    /// Converts an `IoKind` into an `Error` carrying the matching kind.
    fn from(io_kind: IoKind) -> (e: Error)
        ensures
            e.spec_kind() == spec_io_to_kind(io_kind),
    {
        Error { my_kind: Error::io_to_kind(io_kind) }
    }
}

impl vstd::std_specs::convert::FromSpecImpl<IoKind> for Error {
    open spec fn obeys_from_spec() -> bool {
        true
    }

    closed spec fn from_spec(v: IoKind) -> Self {
        Error { my_kind: spec_io_to_kind(v) }
    }
}

impl core::convert::From<String> for Error {
    /// Wraps a plain diagnostic string as an `Error` of kind `Other`.
    fn from(string: String) -> (e: Error)
        ensures
            e.spec_kind() == ErrorKind::Other(string),
    {
        Error { my_kind: ErrorKind::Other(string) }
    }
}

impl vstd::std_specs::convert::FromSpecImpl<String> for Error {
    open spec fn obeys_from_spec() -> bool {
        true
    }

    closed spec fn from_spec(v: String) -> Self {
        Error { my_kind: ErrorKind::Other(v) }
    }
}

} // verus!
