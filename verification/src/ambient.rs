//! The table of ambient playbacks that are currently running, keyed by
//! patch name. Generic over the playback handle so the same logic holds
//! for whatever handle type the audio backend returns.

use vstd::prelude::*;

use crate::text::str_eq;

verus! {

/// One running ambient: the patch name and its playback handle.
#[derive(Debug)]
pub struct AmbientEntry<H> {
    pub name: String,
    pub handle: H,
}

pub open spec fn ambient_names_unique<H>(entries: Seq<AmbientEntry<H>>) -> bool {
    forall|i: int, j: int|
        0 <= i < entries.len() && 0 <= j < entries.len() && i != j ==> #[trigger] entries[i].name@
            != #[trigger] entries[j].name@
}

pub open spec fn ambient_has<H>(entries: Seq<AmbientEntry<H>>, name: Seq<char>) -> bool {
    exists|i: int| 0 <= i < entries.len() && #[trigger] entries[i].name@ == name
}

pub open spec fn ambient_position<H>(entries: Seq<AmbientEntry<H>>, name: Seq<char>) -> int {
    choose|i: int| 0 <= i < entries.len() && #[trigger] entries[i].name@ == name
}

/// The handle running under `name`, if any.
pub open spec fn ambient_lookup<H>(entries: Seq<AmbientEntry<H>>, name: Seq<char>) -> Option<H> {
    if ambient_has(entries, name) {
        Some(entries[ambient_position(entries, name)].handle)
    } else {
        None
    }
}

/// Ambient playbacks currently running, at most one per patch name, in
/// the order they were started.
#[derive(Debug)]
pub struct AmbientTable<H> {
    entries: Vec<AmbientEntry<H>>,
}

impl<H> AmbientTable<H> {
    pub closed spec fn view(&self) -> Seq<AmbientEntry<H>> {
        self.entries@
    }

    pub open spec fn wf(&self) -> bool {
        ambient_names_unique(self.view())
    }

    /// No ambient running.
    pub fn new() -> (t: AmbientTable<H>)
        ensures
            t.wf(),
            t.view().len() == 0,
    {
        AmbientTable { entries: Vec::new() }
    }

    fn find(&self, name: &str) -> (r: Option<usize>)
        requires
            self.wf(),
        ensures
            r is None <==> !ambient_has(self.view(), name@),
            r matches Some(i) ==> i < self.view().len() && self.view()[i as int].name@ == name@
                && i == ambient_position(self.view(), name@),
    {
        let n = self.entries.len();
        for i in 0..n
            invariant
                n == self.entries@.len(),
                self.wf(),
                forall|j: int| 0 <= j < i ==> #[trigger] self.entries@[j].name@ != name@,
        {
            if str_eq(self.entries[i].name.as_str(), name) {
                let ghost p = ambient_position(self.view(), name@);
                assert(ambient_has(self.view(), name@));
                proof {
                    if p != i as int {
                        assert(self.entries@[p].name@ != self.entries@[i as int].name@);
                    }
                }
                return Some(i);
            }
        }
        None
    }

    /// Whether an ambient is running under `name`.
    pub fn contains(&self, name: &str) -> (b: bool)
        requires
            self.wf(),
        ensures
            b == ambient_has(self.view(), name@),
    {
        self.find(name).is_some()
    }

    /// Stop tracking the ambient running under `name` and hand back its
    /// handle (so the caller can stop it), if there was one.
    pub fn remove(&mut self, name: &str) -> (r: Option<H>)
        requires
            old(self).wf(),
        ensures
            final(self).wf(),
            r == ambient_lookup(old(self).view(), name@),
            r is None ==> final(self).view() == old(self).view(),
            r is Some ==> final(self).view() == old(self).view().remove(
                ambient_position(old(self).view(), name@),
            ),
    {
        match self.find(name) {
            Some(i) => {
                let ghost before = self.entries@;
                let e = self.entries.remove(i);
                assert forall|a: int, b: int|
                    0 <= a < self.entries@.len() && 0 <= b < self.entries@.len() && a != b implies #[trigger] self.entries@[a].name@
                    != #[trigger] self.entries@[b].name@ by {
                    let a2 = if a < i { a } else { a + 1 };
                    let b2 = if b < i { b } else { b + 1 };
                    assert(before[a2].name@ != before[b2].name@);
                }
                Some(e.handle)
            },
            None => None,
        }
    }

    /// Track `handle` as the ambient running under `name`. A playback
    /// already tracked under that name is replaced and its handle handed
    /// back.
    pub fn insert(&mut self, name: String, handle: H) -> (r: Option<H>)
        requires
            old(self).wf(),
        ensures
            final(self).wf(),
            r == ambient_lookup(old(self).view(), name@),
            r is None ==> final(self).view() == old(self).view().push(
                AmbientEntry { name: name, handle: handle },
            ),
            r is Some ==> final(self).view() == old(self).view().remove(
                ambient_position(old(self).view(), name@),
            ).push(AmbientEntry { name: name, handle: handle }),
    {
        let previous = self.remove(name.as_str());
        let ghost before = self.entries@;
        assert(!ambient_has(before, name@)) by {
            if ambient_has(before, name@) {
                let k = ambient_position(before, name@);
                if previous is None {
                    assert(ambient_has(old(self).view(), name@));
                }
            }
        }
        self.entries.push(AmbientEntry { name, handle });
        assert forall|a: int, b: int|
            0 <= a < self.entries@.len() && 0 <= b < self.entries@.len() && a != b implies #[trigger] self.entries@[a].name@
            != #[trigger] self.entries@[b].name@ by {
            if a < before.len() && b < before.len() {
                assert(before[a].name@ != before[b].name@);
            } else if a < before.len() {
                assert(before[a].name@ != self.entries@[b].name@);
            } else {
                assert(before[b].name@ != self.entries@[a].name@);
            }
        }
        previous
    }

    /// Names of every running ambient, in the order they were started.
    pub fn names(&self) -> (v: Vec<String>)
        ensures
            v@.len() == self.view().len(),
            forall|i: int| 0 <= i < v@.len() ==> #[trigger] v@[i]@ == self.view()[i].name@,
    {
        let mut v: Vec<String> = Vec::new();
        let n = self.entries.len();
        for i in 0..n
            invariant
                n == self.entries@.len(),
                v@.len() == i,
                forall|j: int| 0 <= j < i ==> #[trigger] v@[j]@ == self.entries@[j].name@,
        {
            v.push(self.entries[i].name.clone());
        }
        v
    }

    /// Stop tracking every ambient and hand back all their handles, in
    /// the order they were started.
    pub fn drain(&mut self) -> (v: Vec<AmbientEntry<H>>)
        ensures
            final(self).wf(),
            final(self).view().len() == 0,
            v@ == old(self).view(),
    {
        let mut v: Vec<AmbientEntry<H>> = Vec::new();
        std::mem::swap(&mut v, &mut self.entries);
        v
    }
}

/// Law: an ambient started under a name is found under it until it is
/// removed; removing it leaves every other running ambient in place.
pub proof fn law_start_then_stop<H>(entries: Seq<AmbientEntry<H>>, entry: AmbientEntry<H>, other: Seq<char>)
    requires
        ambient_names_unique(entries),
        !ambient_has(entries, entry.name@),
        other != entry.name@,
    ensures
        ambient_lookup(entries.push(entry), entry.name@) == Some(entry.handle),
        ambient_lookup(entries.push(entry), other) == ambient_lookup(entries, other),
        ambient_position(entries.push(entry), entry.name@) == entries.len(),
        entries.push(entry).remove(entries.len() as int) == entries,
{
    let r = entries.push(entry);
    let p = entries.len() as int;
    assert(r[p].name@ == entry.name@);
    assert(ambient_has(r, entry.name@));
    let q = ambient_position(r, entry.name@);
    if q != p {
        assert(entries[q].name@ == entry.name@);
    }
    if ambient_has(entries, other) {
        let k = ambient_position(entries, other);
        assert(r[k] == entries[k]);
        assert(ambient_has(r, other));
        let k2 = ambient_position(r, other);
        if k2 != k {
            assert(k2 < p);
            assert(entries[k2].name@ == other);
            assert(entries[k].name@ != entries[k2].name@);
        }
    } else {
        if ambient_has(r, other) {
            let k2 = ambient_position(r, other);
            assert(k2 != p);
            assert(entries[k2].name@ == other);
        }
    }
    assert(r.remove(p) =~= entries);
}

} // verus!
