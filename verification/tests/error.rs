use mysimpledecoder::error::{Error, ErrorKind};

#[test]
fn msg_keeps_the_message() {
    let e = Error::msg("Failed to create image");
    assert_eq!(e.kind, ErrorKind::Other);
    assert_eq!(e.message, "Failed to create image");
    assert_eq!(e.to_string(), "Failed to create image");
}

#[test]
fn msg_takes_an_empty_message() {
    let e = Error::msg("");
    assert_eq!(e.kind, ErrorKind::Other);
    assert_eq!(e.to_string(), "");
}

#[test]
fn new_keeps_kind_and_message() {
    let e = Error::new(ErrorKind::IoFailure, "No such file or directory (os error 2)");
    assert_eq!(e.kind, ErrorKind::IoFailure);
    assert_eq!(e.to_string(), "No such file or directory (os error 2)");
    let e = Error::new(ErrorKind::EncodeOutputFailed, "Failed to create image");
    assert_eq!(e.kind, ErrorKind::EncodeOutputFailed);
    assert_eq!(e.message, "Failed to create image");
}

#[test]
fn kinds_differ() {
    let kinds = [
        ErrorKind::EngineCreateFailed,
        ErrorKind::EngineInitFailed,
        ErrorKind::MissingCapability,
        ErrorKind::IoFailure,
        ErrorKind::EncodeOutputFailed,
        ErrorKind::SessionNotOpen,
        ErrorKind::Other,
    ];
    for (i, a) in kinds.iter().enumerate() {
        for (j, b) in kinds.iter().enumerate() {
            assert_eq!(a == b, i == j);
        }
    }
}
