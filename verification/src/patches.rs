//! The engine's patch bookkeeping: the vocabulary a script uses to name
//! roles and noise flavours, the table of registered patches, and the
//! table of ambient playbacks that are currently running.
//!
//! Both tables are generic over what they store, so the same verified
//! logic holds whatever the host uses for rendered audio and for
//! playback handles.

use vstd::prelude::*;

use crate::error::Error;
use crate::text::str_eq;

verus! {

/// How a patch is meant to be used by the host.
#[derive(Debug, Clone, Copy, PartialEq, Eq, Hash, Structural)]
pub enum PatchRole {
    /// Triggered explicitly, plays once, ends.
    OneShot,
    /// Runs continuously while enabled.
    Ambient,
}

/// Flavour of a noise generator.
#[derive(Debug, Clone, Copy, PartialEq, Eq, Structural)]
pub enum NoiseKind {
    White,
    Pink,
    Brown,
}

/// Response shape of a biquad filter.
#[derive(Debug, Clone, Copy, PartialEq, Eq, Structural)]
pub enum BiquadKind {
    Lowpass,
    Highpass,
    Bandpass,
}

/// The role a script names with `role`, if it is one of the two known
/// role strings.
pub open spec fn role_named(role: Seq<char>) -> Option<PatchRole> {
    if role == "one_shot"@ {
        Some(PatchRole::OneShot)
    } else if role == "ambient"@ {
        Some(PatchRole::Ambient)
    } else {
        None
    }
}

/// The noise flavour named by `kind`, if any.
pub open spec fn noise_kind_named(kind: Seq<char>) -> Option<NoiseKind> {
    if kind == "white"@ {
        Some(NoiseKind::White)
    } else if kind == "pink"@ {
        Some(NoiseKind::Pink)
    } else if kind == "brown"@ {
        Some(NoiseKind::Brown)
    } else {
        None
    }
}

/// Parse the role argument of `patch(name, role, signal)`.
pub fn parse_role(role: &str) -> (r: Result<PatchRole, String>)
    ensures
        role_named(role@) matches Some(k) ==> r == Ok::<PatchRole, String>(k),
        role_named(role@) is None ==> (r matches Err(m) && m@ == "patch: unknown role '"@ + role@
            + "' — expected 'one_shot' or 'ambient'"@),
{
    if str_eq(role, "one_shot") {
        Ok(PatchRole::OneShot)
    } else if str_eq(role, "ambient") {
        Ok(PatchRole::Ambient)
    } else {
        Err(
            String::from_str("patch: unknown role '").concat(role).concat(
                "' — expected 'one_shot' or 'ambient'",
            ),
        )
    }
}

/// Parse the kind argument of `noise(kind)`.
pub fn parse_noise_kind(kind: &str) -> (r: Result<NoiseKind, String>)
    ensures
        noise_kind_named(kind@) matches Some(k) ==> r == Ok::<NoiseKind, String>(k),
        noise_kind_named(kind@) is None ==> (r matches Err(m) && m@ == "noise: unknown kind '"@
            + kind@ + "' — expected 'white', 'pink', or 'brown'"@),
{
    if str_eq(kind, "white") {
        Ok(NoiseKind::White)
    } else if str_eq(kind, "pink") {
        Ok(NoiseKind::Pink)
    } else if str_eq(kind, "brown") {
        Ok(NoiseKind::Brown)
    } else {
        Err(
            String::from_str("noise: unknown kind '").concat(kind).concat(
                "' — expected 'white', 'pink', or 'brown'",
            ),
        )
    }
}

} // verus!

verus! {

/// A registered patch.
#[derive(Debug, Clone)]
pub struct PatchEntry<S> {
    pub name: String,
    pub role: PatchRole,
    pub source: S,
}

/// No two entries carry the same name.
pub open spec fn names_unique<S>(entries: Seq<PatchEntry<S>>) -> bool {
    forall|i: int, j: int|
        0 <= i < entries.len() && 0 <= j < entries.len() && i != j ==> #[trigger] entries[i].name@
            != #[trigger] entries[j].name@
}

/// `true` when some entry is named `name`.
pub open spec fn has_name<S>(entries: Seq<PatchEntry<S>>, name: Seq<char>) -> bool {
    exists|i: int| 0 <= i < entries.len() && #[trigger] entries[i].name@ == name
}

/// Position of the entry named `name` (meaningful when `has_name`).
pub open spec fn position_of<S>(entries: Seq<PatchEntry<S>>, name: Seq<char>) -> int {
    choose|i: int| 0 <= i < entries.len() && #[trigger] entries[i].name@ == name
}

/// The entry named `name`, if any.
pub open spec fn lookup<S>(entries: Seq<PatchEntry<S>>, name: Seq<char>) -> Option<PatchEntry<S>> {
    if has_name(entries, name) {
        Some(entries[position_of(entries, name)])
    } else {
        None
    }
}

/// The entries after registering `entry`: a patch whose name is already
/// present is replaced in place (keeping its original position);
/// otherwise the new patch goes at the end.
pub open spec fn registered<S>(entries: Seq<PatchEntry<S>>, entry: PatchEntry<S>) -> Seq<PatchEntry<S>> {
    if has_name(entries, entry.name@) {
        entries.update(position_of(entries, entry.name@), entry)
    } else {
        entries.push(entry)
    }
}

/// The notice recorded when a script registers a name twice.
pub open spec fn redefined_message(name: Seq<char>) -> Seq<char> {
    "patch '"@ + name + "' redefined"@
}

/// The patches registered by one evaluation of a script, in the order in
/// which each name was first registered, plus the notices (redefined
/// names) produced along the way.
#[derive(Debug)]
pub struct PatchTable<S> {
    entries: Vec<PatchEntry<S>>,
    messages: Vec<String>,
}

impl<S> PatchTable<S> {
    /// Registered patches, in first-registration order.
    pub closed spec fn view(&self) -> Seq<PatchEntry<S>> {
        self.entries@
    }

    /// Notices produced so far.
    pub closed spec fn notices(&self) -> Seq<String> {
        self.messages@
    }

    pub open spec fn wf(&self) -> bool {
        names_unique(self.view())
    }

    /// An empty table.
    pub fn new() -> (t: PatchTable<S>)
        ensures
            t.wf(),
            t.view().len() == 0,
            t.notices().len() == 0,
    {
        PatchTable { entries: Vec::new(), messages: Vec::new() }
    }

    fn find(&self, name: &str) -> (r: Option<usize>)
        requires
            self.wf(),
        ensures
            r is None <==> !has_name(self.view(), name@),
            r matches Some(i) ==> i < self.view().len() && self.view()[i as int].name@ == name@
                && i == position_of(self.view(), name@),
    {
        let n = self.entries.len();
        for i in 0..n
            invariant
                n == self.entries@.len(),
                self.wf(),
                forall|j: int| 0 <= j < i ==> #[trigger] self.entries@[j].name@ != name@,
        {
            if str_eq(self.entries[i].name.as_str(), name) {
                let ghost p = position_of(self.view(), name@);
                assert(self.entries@[i as int].name@ == name@);
                assert(has_name(self.view(), name@));
                assert(self.entries@[p].name@ == name@);
                proof {
                    if p != i as int {
                        assert(self.entries@[p].name@ != self.entries@[i as int].name@);
                    }
                }
                return Some(i);
            }
        }
        None
    }

    /// Register a patch. Registering a name that is already present
    /// replaces that patch in place and records a "redefined" notice.
    pub fn register(&mut self, name: String, role: PatchRole, source: S)
        requires
            old(self).wf(),
        ensures
            final(self).wf(),
            final(self).view() == registered(
                old(self).view(),
                PatchEntry { name: name, role: role, source: source },
            ),
            has_name(old(self).view(), name@) ==> final(self).notices() == old(self).notices().push(
                final(self).notices().last(),
            ) && final(self).notices().last()@ == redefined_message(name@),
            !has_name(old(self).view(), name@) ==> final(self).notices() == old(self).notices(),
    {
        match self.find(name.as_str()) {
            Some(i) => {
                let message = String::from_str("patch '").concat(name.as_str()).concat(
                    "' redefined",
                );
                self.messages.push(message);
                let ghost before = self.entries@;
                self.entries.set(i, PatchEntry { name, role, source });
                assert forall|a: int, b: int|
                    0 <= a < self.entries@.len() && 0 <= b < self.entries@.len() && a != b implies #[trigger] self.entries@[a].name@
                    != #[trigger] self.entries@[b].name@ by {
                    assert(before[a].name@ != before[b].name@);
                }
            },
            None => {
                let ghost before = self.entries@;
                self.entries.push(PatchEntry { name, role, source });
                assert forall|a: int, b: int|
                    0 <= a < self.entries@.len() && 0 <= b < self.entries@.len() && a != b implies #[trigger] self.entries@[a].name@
                    != #[trigger] self.entries@[b].name@ by {
                    if a < before.len() && b < before.len() {
                        assert(before[a].name@ != before[b].name@);
                    } else if a < before.len() {
                        assert(before[a].name@ != name@);
                    } else {
                        assert(before[b].name@ != name@);
                    }
                }
            },
        }
    }

    /// The patch registered under `name`, if any.
    pub fn get(&self, name: &str) -> (r: Option<&PatchEntry<S>>)
        requires
            self.wf(),
        ensures
            r is None <==> lookup(self.view(), name@) is None,
            r matches Some(e) ==> lookup(self.view(), name@) == Some(*e),
    {
        match self.find(name) {
            Some(i) => Some(&self.entries[i]),
            None => None,
        }
    }

    /// The patch registered under `name`, or `UnknownPatch(name)`.
    pub fn require(&self, name: &str) -> (r: Result<&PatchEntry<S>, Error>)
        requires
            self.wf(),
        ensures
            r is Err <==> lookup(self.view(), name@) is None,
            r matches Ok(e) ==> lookup(self.view(), name@) == Some(*e),
            r matches Err(e) ==> (e matches Error::UnknownPatch(n) && n@ == name@),
    {
        match self.get(name) {
            Some(e) => Ok(e),
            None => Err(Error::UnknownPatch(String::from_str(name))),
        }
    }

    /// All registered patches, in first-registration order.
    pub fn entries(&self) -> (r: &[PatchEntry<S>])
        ensures
            r@ == self.view(),
    {
        self.entries.as_slice()
    }

    /// Number of registered patches.
    pub fn len(&self) -> (n: usize)
        ensures
            n == self.view().len(),
    {
        self.entries.len()
    }

    /// Remove and return the notices recorded so far.
    pub fn take_notices(&mut self) -> (m: Vec<String>)
        ensures
            m@ == old(self).notices(),
            final(self).notices().len() == 0,
            final(self).view() == old(self).view(),
    {
        let mut out: Vec<String> = Vec::new();
        std::mem::swap(&mut out, &mut self.messages);
        out
    }
}

/// Law: once registered, a patch is found under its name; every other
/// name keeps the patch it had; and the table never holds a name twice.
pub proof fn law_register_then_lookup<S>(entries: Seq<PatchEntry<S>>, entry: PatchEntry<S>, other: Seq<char>)
    requires
        names_unique(entries),
        other != entry.name@,
    ensures
        names_unique(registered(entries, entry)),
        lookup(registered(entries, entry), entry.name@) == Some(entry),
        lookup(registered(entries, entry), other) == lookup(entries, other),
        registered(entries, entry).len() == entries.len() + if has_name(entries, entry.name@) {
            0int
        } else {
            1int
        },
{
    let r = registered(entries, entry);
    let n = entry.name@;
    if has_name(entries, n) {
        let p = position_of(entries, n);
        assert(r[p].name@ == n);
        assert forall|a: int, b: int| 0 <= a < r.len() && 0 <= b < r.len() && a != b implies #[trigger] r[a].name@
            != #[trigger] r[b].name@ by {
            assert(entries[a].name@ != entries[b].name@);
        }
        assert(has_name(r, n));
        assert(position_of(r, n) == p);
        if has_name(entries, other) {
            let q = position_of(entries, other);
            assert(q != p);
            assert(r[q] == entries[q]);
            assert(has_name(r, other));
            assert(position_of(r, other) == q);
        } else {
            if has_name(r, other) {
                let q = position_of(r, other);
                assert(q != p);
                assert(entries[q].name@ == other);
            }
        }
    } else {
        let p = entries.len() as int;
        assert(r[p].name@ == n);
        assert forall|a: int, b: int| 0 <= a < r.len() && 0 <= b < r.len() && a != b implies #[trigger] r[a].name@
            != #[trigger] r[b].name@ by {
            if a < p && b < p {
                assert(entries[a].name@ != entries[b].name@);
            } else if a < p {
                assert(entries[a].name@ != n);
            } else {
                assert(entries[b].name@ != n);
            }
        }
        assert(has_name(r, n));
        assert(position_of(r, n) == p);
        if has_name(entries, other) {
            let q = position_of(entries, other);
            assert(r[q] == entries[q]);
            assert(has_name(r, other));
            assert(position_of(r, other) == q);
        } else {
            if has_name(r, other) {
                let q = position_of(r, other);
                assert(q != p);
                assert(entries[q].name@ == other);
            }
        }
    }
}

} // verus!
