use sndlab::error::{DecodeError, Error, LoadError, SourcePos};

#[test]
fn engine_error_messages() {
    let pos = Some(SourcePos { line: 2, column: 5 });
    let e = Error::Parse { message: "x".to_string(), position: pos };
    assert_eq!(e.message(), "rhai parse error: x");
    assert_eq!(e.position(), pos);
    let e = Error::Runtime { message: "y".to_string(), position: None };
    assert_eq!(e.message(), "rhai runtime error: y");
    assert_eq!(e.position(), None);
    assert_eq!(Error::Audio("z".to_string()).message(), "audio backend error: z");
    assert_eq!(Error::UnknownPatch("p".to_string()).message(), "no patch named 'p'");
    assert_eq!(Error::UnknownPatch("p".to_string()).position(), None);
}

#[test]
fn decoder_error_messages() {
    assert_eq!(DecodeError::NoTrack.message(), "no default audio track in file");
    assert_eq!(DecodeError::Symphonia("bad".to_string()).message(), "symphonia: bad");
    let io = DecodeError::Io(std::io::Error::new(std::io::ErrorKind::NotFound, "gone"));
    assert_eq!(io.message(), "file open: gone");
    assert_eq!(LoadError::NoTrack.message(), "no default audio track in file");
    assert_eq!(LoadError::Symphonia("s".to_string()).message(), "symphonia: s");
    let io = LoadError::Io(std::io::Error::new(std::io::ErrorKind::NotFound, "gone"));
    assert_eq!(io.message(), "file open: gone");
}

#[test]
fn interpreter_positions() {
    assert_eq!(SourcePos::from_parts(None, Some(4)), None);
    assert_eq!(
        SourcePos::from_parts(Some(3), Some(7)),
        Some(SourcePos { line: 3, column: 7 })
    );
    assert_eq!(
        SourcePos::from_parts(Some(2), None),
        Some(SourcePos { line: 2, column: 1 })
    );
}
