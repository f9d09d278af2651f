//! Standard-library types that the library carries but does not look
//! inside, and the few calls that produce them.

use vstd::prelude::*;

verus! {

/// A monotonic timestamp, carried through log entries and the
/// live-evaluation state but never inspected by verified code.
#[verifier::external_type_specification]
#[verifier::external_body]
pub struct ExInstant(std::time::Instant);

/// An operating-system error, carried inside the library's error enums.
#[verifier::external_type_specification]
#[verifier::external_body]
pub struct ExIoError(std::io::Error);

/// A filesystem path, carried as a project's root directory.
#[verifier::external_type_specification]
#[verifier::external_body]
pub struct ExPathBuf(std::path::PathBuf);

/// `Instant` is `Copy`; its `clone` hands back the same timestamp. The
/// derived `Clone` of log entries and live errors calls it.
pub assume_specification [<std::time::Instant as Clone>::clone](t: &std::time::Instant) -> (r: std::time::Instant)
    ensures
        r == *t,
;

/// Calls `std::time::Instant::now`. The reading depends on the clock,
/// so nothing is promised about the value.
#[verifier::external_body]
pub(crate) fn instant_now() -> (t: std::time::Instant) {
    std::time::Instant::now()
}

/// Calls `std::io::Error::new` with kind `InvalidInput` and the given
/// message. The resulting value is opaque to the library.
#[verifier::external_body]
pub(crate) fn invalid_input_error(message: &str) -> (e: std::io::Error) {
    std::io::Error::new(std::io::ErrorKind::InvalidInput, message)
}

/// Renders an I/O error through its `Display` implementation. The text
/// comes from the operating system, so nothing is promised about it.
#[verifier::external_body]
pub(crate) fn io_error_text(e: &std::io::Error) -> (s: String) {
    format!("{e}")
}

/// Whether `std::path::Path::is_absolute` holds of `path`. The rule
/// (a leading `/` on Unix; a drive or UNC prefix with a root on Windows)
/// is fixed by the build target, so for a given build the answer depends
/// on the path alone.
pub uninterp spec fn path_abs(path: Seq<char>) -> bool;

/// Calls `std::path::Path::is_absolute` on `path`; the answer is
/// `path_abs` of the path.
#[verifier::external_body]
pub(crate) fn path_is_absolute(path: &str) -> (b: bool)
    ensures
        b == path_abs(path@),
{
    std::path::Path::new(path).is_absolute()
}

/// Calls `std::path::PathBuf::from` on `path`. The result is opaque.
#[verifier::external_body]
pub(crate) fn path_from(path: &str) -> (p: std::path::PathBuf) {
    std::path::PathBuf::from(path)
}

/// Calls `std::path::Path::join` of `root` and `path`. The result is
/// opaque.
#[verifier::external_body]
pub(crate) fn path_join(root: &std::path::PathBuf, path: &str) -> (p: std::path::PathBuf) {
    root.join(path)
}

} // verus!
