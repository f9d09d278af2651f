//! Where a `sample("…")` call in a script looks for its audio file: an
//! absolute path is used as given, a relative one under the project
//! directory, and a relative path in a project that was never saved is
//! an error.

use vstd::prelude::*;

use crate::externals::{path_abs, path_from, path_is_absolute, path_join};

verus! {

/// How a sample path is turned into a file path.
#[derive(Debug, Clone, Copy, PartialEq, Eq, Structural)]
pub enum SamplePathPlan {
    /// Use the path as written.
    AsGiven,
    /// Join the path to the project directory.
    UnderRoot,
}

/// The error for a relative sample path in a project without a directory.
pub open spec fn no_root_message(path: Seq<char>) -> Seq<char> {
    "sample('"@ + path
        + "'): relative path but no project root is set — save the project first, or use an absolute path"@
}

/// Decide how to resolve `path`, given whether it is absolute and
/// whether the project has a directory.
pub fn plan_sample_path(absolute: bool, has_root: bool, path: &str) -> (r: Result<SamplePathPlan, String>)
    ensures
        absolute ==> r == Ok::<SamplePathPlan, String>(SamplePathPlan::AsGiven),
        (!absolute && has_root) ==> r == Ok::<SamplePathPlan, String>(SamplePathPlan::UnderRoot),
        (!absolute && !has_root) ==> (r matches Err(m) && m@ == no_root_message(path@)),
{
    if absolute {
        Ok(SamplePathPlan::AsGiven)
    } else if has_root {
        Ok(SamplePathPlan::UnderRoot)
    } else {
        let mut m = String::from_str("sample('");
        m.append(path);
        m.append(
            "'): relative path but no project root is set — save the project first, or use an absolute path",
        );
        Err(m)
    }
}

/// The file a `sample("…")` call reads: `path` itself when absolute,
/// otherwise `path` under `root`. Fails, with the message of
/// `no_root_message`, exactly when the path is relative (not `path_abs`)
/// and there is no root. Which `PathBuf` comes back is not stated: the
/// type is opaque here.
pub fn resolve_sample_path(root: Option<&std::path::PathBuf>, path: &str) -> (r: Result<std::path::PathBuf, String>)
    ensures
        r is Ok <==> (root is Some || path_abs(path@)),
        r matches Err(m) ==> m@ == no_root_message(path@),
{
    let absolute = path_is_absolute(path);
    let has_root = match root {
        Some(_) => true,
        None => false,
    };
    match plan_sample_path(absolute, has_root, path) {
        Ok(SamplePathPlan::AsGiven) => Ok(path_from(path)),
        Ok(SamplePathPlan::UnderRoot) => match root {
            Some(dir) => Ok(path_join(dir, path)),
            None => Ok(path_from(path)),
        },
        Err(m) => Err(m),
    }
}

} // verus!
