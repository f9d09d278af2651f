//! The order of operations when an ambient patch is (re)started: which
//! running instance is taken out to be stopped, and when an unknown
//! patch name is reported. The host stops the handle it gets back,
//! starts the new playback, and tracks it with `AmbientTable::insert`.

use vstd::prelude::*;

use crate::ambient::{ambient_has, ambient_lookup, ambient_position, AmbientEntry, AmbientTable};
use crate::error::Error;
use crate::patches::{lookup, PatchEntry, PatchTable};

verus! {

/// The running ambients once the instance under `name` (if any) is no
/// longer tracked.
pub open spec fn without_ambient<H>(entries: Seq<AmbientEntry<H>>, name: Seq<char>) -> Seq<AmbientEntry<H>> {
    if ambient_has(entries, name) {
        entries.remove(ambient_position(entries, name))
    } else {
        entries
    }
}

/// Start of a restart (`play`-ing an ambient): look the patch up first.
/// An unknown name is reported and leaves the running ambients alone;
/// otherwise the instance running under `name` is taken out of the
/// table and handed back, to be stopped, together with the patch.
pub fn take_for_restart<'a, H, S>(
    patches: &'a PatchTable<S>,
    ambients: &mut AmbientTable<H>,
    name: &str,
) -> (r: Result<(&'a PatchEntry<S>, Option<H>), Error>)
    requires
        patches.wf(),
        old(ambients).wf(),
    ensures
        final(ambients).wf(),
        lookup(patches.view(), name@) is None ==> (r matches Err(e) && (e matches Error::UnknownPatch(
            n,
        ) && n@ == name@) && final(ambients).view() == old(ambients).view()),
        lookup(patches.view(), name@) matches Some(p) ==> (r matches Ok((e, h)) && *e == p && h
            == ambient_lookup(old(ambients).view(), name@) && final(ambients).view()
            == without_ambient(old(ambients).view(), name@)),
{
    let patch = match patches.require(name) {
        Ok(p) => p,
        Err(e) => {
            return Err(e);
        },
    };
    let previous = ambients.remove(name);
    Ok((patch, previous))
}

/// Start of a crossfade: the instance running under `name` (if any) is
/// taken out first and handed back, to be faded out, whether or not the
/// patch still exists; then the patch is looked up.
pub fn take_for_crossfade<'a, H, S>(
    patches: &'a PatchTable<S>,
    ambients: &mut AmbientTable<H>,
    name: &str,
) -> (r: (Option<H>, Result<&'a PatchEntry<S>, Error>))
    requires
        patches.wf(),
        old(ambients).wf(),
    ensures
        final(ambients).wf(),
        final(ambients).view() == without_ambient(old(ambients).view(), name@),
        r.0 == ambient_lookup(old(ambients).view(), name@),
        lookup(patches.view(), name@) is None ==> (r.1 matches Err(e) && e matches Error::UnknownPatch(
            n,
        ) && n@ == name@),
        lookup(patches.view(), name@) matches Some(p) ==> (r.1 matches Ok(e) && *e == p),
{
    let previous = ambients.remove(name);
    let patch = patches.require(name);
    (previous, patch)
}

} // verus!
