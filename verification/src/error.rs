//! Error types of the engine and of the audio-file decoders.

use vstd::prelude::*;

use crate::externals::io_error_text;

verus! {

/// A 1-based line/column position in evaluated script source.
#[derive(Debug, Clone, Copy, PartialEq, Eq, Structural)]
pub struct SourcePos {
    pub line: usize,
    pub column: usize,
}

impl SourcePos {
    /// The position of an interpreter error from its 1-based line (absent
    /// when the error has no position) and its 1-based column (absent at
    /// the beginning of a line, which counts as column 1).
    pub fn from_parts(line: Option<usize>, column: Option<usize>) -> (p: Option<SourcePos>)
        ensures
            line is None ==> p is None,
            line matches Some(l) ==> p == Some(
                SourcePos {
                    line: l,
                    column: match column {
                        Some(c) => c,
                        None => 1,
                    },
                },
            ),
    {
        match line {
            None => None,
            Some(l) => {
                let c = match column {
                    Some(c) => c,
                    None => 1,
                };
                Some(SourcePos { line: l, column: c })
            },
        }
    }
}

/// Errors reported by the engine.
#[derive(Debug)]
pub enum Error {
    /// The script did not parse.
    Parse { message: String, position: Option<SourcePos> },
    /// The script failed while running.
    Runtime { message: String, position: Option<SourcePos> },
    /// The audio backend refused a request.
    Audio(String),
    /// No patch with this name is registered.
    UnknownPatch(String),
}

impl Error {
    /// Human-readable description of the error.
    pub fn message(&self) -> (m: String)
        ensures
            self matches Error::Parse { message, .. } ==> m@ == "rhai parse error: "@ + message@,
            self matches Error::Runtime { message, .. } ==> m@ == "rhai runtime error: "@
                + message@,
            self matches Error::Audio(s) ==> m@ == "audio backend error: "@ + s@,
            self matches Error::UnknownPatch(n) ==> m@ == "no patch named '"@ + n@ + "'"@,
    {
        match self {
            Error::Parse { message, .. } => String::from_str("rhai parse error: ").concat(
                message.as_str(),
            ),
            Error::Runtime { message, .. } => String::from_str("rhai runtime error: ").concat(
                message.as_str(),
            ),
            Error::Audio(s) => String::from_str("audio backend error: ").concat(s.as_str()),
            Error::UnknownPatch(n) => String::from_str("no patch named '").concat(n.as_str()).concat(
                "'",
            ),
        }
    }

    /// The source position attached to a parse or runtime error.
    pub fn position(&self) -> (p: Option<SourcePos>)
        ensures
            self matches Error::Parse { position, .. } ==> p == position,
            self matches Error::Runtime { position, .. } ==> p == position,
            (self is Audio || self is UnknownPatch) ==> p is None,
    {
        match self {
            Error::Parse { position, .. } => *position,
            Error::Runtime { position, .. } => *position,
            _ => None,
        }
    }
}

/// Failure to decode an audio file into a sample buffer.
#[derive(Debug)]
pub enum DecodeError {
    Io(std::io::Error),
    Symphonia(String),
    NoTrack,
}

impl DecodeError {
    /// Human-readable description of the error.
    pub fn message(&self) -> (m: String)
        ensures
            self matches DecodeError::Io(_) ==> m@.take(11) == "file open: "@,
            self matches DecodeError::Symphonia(s) ==> m@ == "symphonia: "@ + s@,
            self is NoTrack ==> m@ == "no default audio track in file"@,
    {
        match self {
            DecodeError::Io(e) => {
                let m = String::from_str("file open: ");
                proof {
                    reveal_strlit("file open: ");
                }
                let ghost before = m@;
                let r = m.concat(io_error_text(e).as_str());
                assert(r@.take(11) =~= before);
                r
            },
            DecodeError::Symphonia(s) => String::from_str("symphonia: ").concat(s.as_str()),
            DecodeError::NoTrack => String::from_str("no default audio track in file"),
        }
    }
}

/// Failure to load a reference recording for the scope.
#[derive(Debug)]
pub enum LoadError {
    Io(std::io::Error),
    Symphonia(String),
    NoTrack,
}

impl LoadError {
    /// Human-readable description of the error.
    pub fn message(&self) -> (m: String)
        ensures
            self matches LoadError::Io(_) ==> m@.take(11) == "file open: "@,
            self matches LoadError::Symphonia(s) ==> m@ == "symphonia: "@ + s@,
            self is NoTrack ==> m@ == "no default audio track in file"@,
    {
        match self {
            LoadError::Io(e) => {
                let m = String::from_str("file open: ");
                proof {
                    reveal_strlit("file open: ");
                }
                let ghost before = m@;
                let r = m.concat(io_error_text(e).as_str());
                assert(r@.take(11) =~= before);
                r
            },
            LoadError::Symphonia(s) => String::from_str("symphonia: ").concat(s.as_str()),
            LoadError::NoTrack => String::from_str("no default audio track in file"),
        }
    }
}

} // verus!
