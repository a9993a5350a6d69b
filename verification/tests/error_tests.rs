use poke_escape_server::error::{Error, ErrorKind, IoKind};

// conversion of I/O failure kinds into the library's error kinds

#[test]
fn io_not_found() {
    let kind = ErrorKind::from(IoKind::NotFound);
    assert_eq!(kind, ErrorKind::IoNotFound);
}

#[test]
fn io_permission_denied() {
    let kind = ErrorKind::from(IoKind::PermissionDenied);
    assert_eq!(kind, ErrorKind::IoPermissionDenied);
}

#[test]
fn io_connection_refused() {
    let kind = ErrorKind::from(IoKind::ConnectionRefused);
    assert_eq!(kind, ErrorKind::IoConnectionRefused);
}

#[test]
fn io_connection_reset() {
    let kind = ErrorKind::from(IoKind::ConnectionReset);
    assert_eq!(kind, ErrorKind::IoConnectionReset);
}

#[test]
fn io_connection_aborted() {
    let kind = ErrorKind::from(IoKind::ConnectionAborted);
    assert_eq!(kind, ErrorKind::IoConnectionAborted);
}

#[test]
fn io_not_connected() {
    let kind = ErrorKind::from(IoKind::NotConnected);
    assert_eq!(kind, ErrorKind::IoNotConnected);
}

#[test]
fn io_addr_in_use() {
    let kind = ErrorKind::from(IoKind::AddrInUse);
    assert_eq!(kind, ErrorKind::IoAddrInUse);
}

#[test]
fn io_addr_not_available() {
    let kind = ErrorKind::from(IoKind::AddrNotAvailable);
    assert_eq!(kind, ErrorKind::IoAddrNotAvailable);
}

#[test]
fn io_broken_pipe() {
    let kind = ErrorKind::from(IoKind::BrokenPipe);
    assert_eq!(kind, ErrorKind::IoBrokenPipe);
}

#[test]
fn io_already_exists() {
    let kind = ErrorKind::from(IoKind::AlreadyExists);
    assert_eq!(kind, ErrorKind::IoAlreadyExists);
}

#[test]
fn io_would_block() {
    let kind = ErrorKind::from(IoKind::WouldBlock);
    assert_eq!(kind, ErrorKind::IoWouldBlock);
}

#[test]
fn io_invalid_input() {
    let kind = ErrorKind::from(IoKind::InvalidInput);
    assert_eq!(kind, ErrorKind::IoInvalidInput);
}

#[test]
fn io_invalid_data() {
    let kind = ErrorKind::from(IoKind::InvalidData);
    assert_eq!(kind, ErrorKind::IoInvalidData);
}

#[test]
fn io_timed_out() {
    let kind = ErrorKind::from(IoKind::TimedOut);
    assert_eq!(kind, ErrorKind::IoTimedOut);
}

#[test]
fn io_write_zero() {
    let kind = ErrorKind::from(IoKind::WriteZero);
    assert_eq!(kind, ErrorKind::IoWriteZero);
}

#[test]
fn io_interrupted() {
    let kind = ErrorKind::from(IoKind::Interrupted);
    assert_eq!(kind, ErrorKind::IoInterrupted);
}

#[test]
fn io_other() {
    let kind = ErrorKind::from(IoKind::Other);
    assert_eq!(kind, ErrorKind::IoOther);
}

#[test]
fn io_unexpected_eof() {
    let kind = ErrorKind::from(IoKind::UnexpectedEof);
    assert_eq!(kind, ErrorKind::IoUnexpectedEof);
}

// the text each error kind prints as

#[test]
fn test_io_not_found() {
    let kind = ErrorKind::IoNotFound;
    assert_eq!(kind.error_string(), String::from("IoNotFound"));
}

#[test]
fn test_io_permission_denied() {
    let kind = ErrorKind::IoPermissionDenied;
    assert_eq!(kind.error_string(), String::from("IoPermissionDenied"));
}

#[test]
fn test_io_connection_refused() {
    let kind = ErrorKind::IoConnectionRefused;
    assert_eq!(kind.error_string(), String::from("IoConnectionRefused"));
}

#[test]
fn test_io_connection_reset() {
    let kind = ErrorKind::IoConnectionReset;
    assert_eq!(kind.error_string(), String::from("IoConnectionReset"));
}

#[test]
fn test_io_connection_aborted() {
    let kind = ErrorKind::IoConnectionAborted;
    assert_eq!(kind.error_string(), String::from("IoConnectionAborted"));
}

#[test]
fn test_io_not_connected() {
    let kind = ErrorKind::IoNotConnected;
    assert_eq!(kind.error_string(), String::from("IoNotConnected"));
}

#[test]
fn test_io_addr_in_use() {
    let kind = ErrorKind::IoAddrInUse;
    assert_eq!(kind.error_string(), String::from("IoAddrInUse"));
}

#[test]
fn test_io_addr_not_available() {
    let kind = ErrorKind::IoAddrNotAvailable;
    assert_eq!(kind.error_string(), String::from("IoAddrNotAvailable"));
}

#[test]
fn test_io_broken_pipe() {
    let kind = ErrorKind::IoBrokenPipe;
    assert_eq!(kind.error_string(), String::from("IoBrokenPipe"));
}

#[test]
fn test_io_already_exists() {
    let kind = ErrorKind::IoAlreadyExists;
    assert_eq!(kind.error_string(), String::from("IoAlreadyExists"));
}

#[test]
fn test_io_would_block() {
    let kind = ErrorKind::IoWouldBlock;
    assert_eq!(kind.error_string(), String::from("IoWouldBlock"));
}

#[test]
fn test_io_invalid_input() {
    let kind = ErrorKind::IoInvalidInput;
    assert_eq!(kind.error_string(), String::from("IoInvalidInput"));
}

#[test]
fn test_io_invalid_data() {
    let kind = ErrorKind::IoInvalidData;
    assert_eq!(kind.error_string(), String::from("IoInvalidData"));
}

#[test]
fn test_io_timed_out() {
    let kind = ErrorKind::IoTimedOut;
    assert_eq!(kind.error_string(), String::from("IoTimedOut"));
}

#[test]
fn test_io_write_zero() {
    let kind = ErrorKind::IoWriteZero;
    assert_eq!(kind.error_string(), String::from("IoWriteZero"));
}

#[test]
fn test_io_interrupted() {
    let kind = ErrorKind::IoInterrupted;
    assert_eq!(kind.error_string(), String::from("IoInterrupted"));
}

#[test]
fn test_io_other() {
    let kind = ErrorKind::IoOther;
    assert_eq!(kind.error_string(), String::from("IoOther"));
}

#[test]
fn test_io_unexpected_eof() {
    let kind = ErrorKind::IoUnexpectedEof;
    assert_eq!(kind.error_string(), String::from("IoUnexpectedEof"));
}

#[test]
fn format_not_supported() {
    let kind = ErrorKind::FormatNotSupported;
    assert_eq!(kind.error_string(), String::from("FormatNotSupported"));
}

#[test]
fn field_not_exists() {
    let kind = ErrorKind::FieldNotExists("test".to_string());
    assert_eq!(kind.error_string(), String::from("FieldNotExists(test)"));
}

#[test]
fn not_parsable() {
    let kind = ErrorKind::NotParsable("test".to_string());
    assert_eq!(kind.error_string(), String::from("NotParsable(test)"));
}

#[test]
fn no_version_supplied() {
    let kind = ErrorKind::NoVersionSupplied;
    assert_eq!(kind.error_string(), String::from("NoVersionSupplied"));
}

#[test]
fn version_not_parsable() {
    let kind = ErrorKind::VersionNotParsable("test".to_string());
    assert_eq!(
        kind.error_string(),
        String::from("VersionNotParsable(test)")
    );
}

#[test]
fn pool_to_small() {
    let kind = ErrorKind::PoolToSmall;
    assert_eq!(kind.error_string(), String::from("PoolToSmall"));
}

#[test]
fn pool_send_error() {
    let kind = ErrorKind::PoolSendError(true);
    assert_eq!(kind.error_string(), String::from("PoolSendError(Job)"));

    let kind = ErrorKind::PoolSendError(false);
    assert_eq!(
        kind.error_string(),
        String::from("PoolSendError(Terminate)")
    );
}

#[test]
fn other() {
    let kind = ErrorKind::Other(String::from("test"));
    assert_eq!(kind.error_string(), String::from("Other(test)"));
}

#[test]
fn unknow() {
    let kind = ErrorKind::Unknown(String::from("test"));
    assert_eq!(kind.error_string(), String::from("Unknown(test)"));
}

// the carrier type around the kinds

#[test]
fn error_round_trip() {
    let e = Error::new(ErrorKind::PoolToSmall);
    assert_eq!(e.kind(), ErrorKind::PoolToSmall);
}

#[test]
fn error_constructors() {
    assert_eq!(
        Error::new_no_version_supplied().kind(),
        ErrorKind::NoVersionSupplied
    );
    assert_eq!(
        Error::new_field_not_exists("Maps".to_string()).kind(),
        ErrorKind::FieldNotExists("Maps".to_string())
    );
}

#[test]
fn error_from_string() {
    let e = Error::from(String::from("boom"));
    assert_eq!(e.kind(), ErrorKind::Other("boom".to_string()));
}

#[test]
fn error_from_io_kind() {
    let e = Error::from(IoKind::TimedOut);
    assert_eq!(e.kind(), ErrorKind::IoTimedOut);
}

#[test]
fn to_string_matches_error_string() {
    let kind = ErrorKind::FieldNotExists("x".to_string());
    assert_eq!(kind.to_string(), kind.error_string());
}
