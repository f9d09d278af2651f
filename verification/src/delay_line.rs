//! Fixed-length delay line used by real-time delay-tap reverb, and the
//! per-source bookkeeping of a mix that ends when all its sources have.

use vstd::prelude::*;
use vstd::arithmetic::div_mod::{lemma_small_mod, lemma_mod_add_multiples_vanish};

verus! {

proof fn lemma_wrap(x: int, m: int)
    requires
        0 < m,
        0 <= x < 2 * m,
    ensures
        x % m == if x < m { x } else { x - m },
{
    if x < m {
        lemma_small_mod(x as nat, m as nat);
    } else {
        lemma_small_mod((x - m) as nat, m as nat);
        lemma_mod_add_multiples_vanish(x - m, m);
    }
}

/// Slot holding the sample pushed `d` pushes before the latest one.
pub open spec fn slot_for(pos: int, len: int, d: int) -> int {
    if pos >= 1 + d {
        pos - 1 - d
    } else {
        pos + len - 1 - d
    }
}

/// A ring buffer remembering the latest `len` samples pushed into it.
pub struct DelayLine<T> {
    line: Vec<T>,
    write_pos: usize,
    /// Every sample the line has held: `len` copies of the initial fill,
    /// then each pushed sample in order.
    history: Ghost<Seq<T>>,
}

impl<T: Copy> DelayLine<T> {
    /// Everything pushed so far, preceded by `len` copies of the fill.
    pub closed spec fn history(&self) -> Seq<T> {
        self.history@
    }

    /// Number of samples remembered.
    pub closed spec fn capacity(&self) -> nat {
        self.line@.len()
    }

    pub closed spec fn wf(&self) -> bool {
        &&& self.line@.len() > 0
        &&& self.write_pos < self.line@.len()
        &&& self.history@.len() >= self.line@.len()
        &&& forall|d: int|
            0 <= d < self.line@.len() ==> #[trigger] self.line@[slot_for(
                self.write_pos as int,
                self.line@.len() as int,
                d,
            )] == self.history@[self.history@.len() - 1 - d]
    }

    /// A line of `len` samples, all equal to `fill`.
    pub fn new(len: usize, fill: T) -> (dl: DelayLine<T>)
        requires
            len > 0,
        ensures
            dl.wf(),
            dl.capacity() == len,
            dl.history() == Seq::new(len as nat, |i: int| fill),
    {
        let mut line: Vec<T> = Vec::new();
        for i in 0..len
            invariant
                line@ == Seq::new(i as nat, |k: int| fill),
        {
            line.push(fill);
        }
        DelayLine { line, write_pos: 0, history: Ghost(Seq::new(len as nat, |i: int| fill)) }
    }

    /// Number of samples remembered.
    pub fn len(&self) -> (n: usize)
        requires
            self.wf(),
        ensures
            n == self.capacity(),
    {
        self.line.len()
    }

    /// Store `x` as the newest sample, overwriting the oldest.
    pub fn push(&mut self, x: T)
        requires
            old(self).wf(),
        ensures
            final(self).wf(),
            final(self).capacity() == old(self).capacity(),
            final(self).history() == old(self).history().push(x),
    {
        let len = self.line.len();
        let pos = self.write_pos;
        let ghost h = self.history@.push(x);
        let ghost old_line = self.line@;
        self.line.set(pos, x);
        let next = (pos + 1) % len;
        proof {
            lemma_wrap((pos + 1) as int, len as int);
            self.history = Ghost(h);
            assert forall|d: int| 0 <= d < len implies #[trigger] self.line@[slot_for(
                next as int,
                len as int,
                d,
            )] == h[h.len() - 1 - d] by {
                let s = slot_for(next as int, len as int, d);
                if d == 0 {
                    assert(s == pos);
                } else {
                    assert(s == slot_for(pos as int, len as int, d - 1));
                    assert(s != pos as int);
                    assert(old_line[s] == old(self).history@[old(self).history@.len() - 1 - (d - 1)]);
                }
            }
        }
        self.write_pos = next;
    }

    /// The sample pushed `d` pushes before the newest one (`d == 0` is
    /// the newest).
    pub fn delayed(&self, d: usize) -> (x: T)
        requires
            self.wf(),
            d < self.capacity(),
        ensures
            x == self.history()[self.history().len() - 1 - d],
    {
        let len = self.line.len();
        let pos = self.write_pos;
        let i = if pos >= 1 + d {
            pos - 1 - d
        } else {
            pos + (len - 1 - d)
        };
        assert(i == slot_for(pos as int, len as int, d as int));
        assert(self.line@[slot_for(pos as int, len as int, d as int)] == self.history@[self.history@.len() - 1 - d]);
        self.line[i]
    }

    /// The slot the next push writes to.
    pub closed spec fn position(&self) -> int {
        self.write_pos as int
    }

    /// The stored samples, in slot order (for whole-line checks such as
    /// "has the tail died away"): exactly the latest `capacity()` samples,
    /// the one pushed `d` pushes before the newest sitting in slot
    /// `slot_for(position(), capacity(), d)`.
    pub fn samples(&self) -> (s: &[T])
        requires
            self.wf(),
        ensures
            s@.len() == self.capacity(),
            0 <= self.position() < self.capacity(),
            forall|d: int|
                0 <= d < self.capacity() ==> #[trigger] s@[slot_for(
                    self.position(),
                    self.capacity() as int,
                    d,
                )] == self.history()[self.history().len() - 1 - d],
    {
        let s = self.line.as_slice();
        assert(s@ == self.line@);
        s
    }
}

/// Law: a delay line reads back, at delay `d`, exactly what was pushed
/// `d` pushes earlier: after pushing `x`, delay 0 gives `x` and every
/// other delay gives what the next-smaller delay gave before.
pub proof fn law_delay_read_back<T>(history: Seq<T>, x: T, d: int)
    requires
        0 <= d < history.len(),
    ensures
        history.push(x)[history.push(x).len() - 1] == x,
        history.push(x)[history.push(x).len() - 1 - (d + 1)] == history[history.len() - 1 - d],
{
}

/// Which sources of a mix have ended. A mix ends when every source has
/// ended; a mix of no sources is empty and so has ended at once.
pub struct MixProgress {
    finished: Vec<bool>,
}

impl MixProgress {
    pub closed spec fn view(&self) -> Seq<bool> {
        self.finished@
    }

    /// Nothing tracked yet.
    pub fn new() -> (m: MixProgress)
        ensures
            m.view().len() == 0,
    {
        MixProgress { finished: Vec::new() }
    }

    /// Make sure `n` sources are tracked; newly tracked ones are running.
    pub fn track(&mut self, n: usize)
        ensures
            old(self).view().len() < n ==> final(self).view() == old(self).view() + Seq::new(
                (n - old(self).view().len()) as nat,
                |i: int| false,
            ),
            old(self).view().len() >= n ==> final(self).view() == old(self).view(),
    {
        let ghost start = self.finished@;
        while self.finished.len() < n
            invariant
                start.len() <= self.finished@.len(),
                start.len() < n ==> self.finished@.len() <= n,
                start.len() >= n ==> self.finished@ == start,
                self.finished@ == start + Seq::new(
                    (self.finished@.len() - start.len()) as nat,
                    |i: int| false,
                ),
            decreases n - self.finished@.len(),
        {
            let ghost before = self.finished@;
            self.finished.push(false);
            assert(self.finished@ =~= start + Seq::new(
                (self.finished@.len() - start.len()) as nat,
                |i: int| false,
            ));
        }
        assert(self.finished@ =~= start + Seq::new(
            (n - start.len()) as nat,
            |i: int| false,
        ) || start.len() >= n);
    }

    /// Whether source `i` has ended.
    pub fn is_finished(&self, i: usize) -> (b: bool)
        requires
            i < self.view().len(),
        ensures
            b == self.view()[i as int],
    {
        self.finished[i]
    }

    /// Record that source `i` has ended.
    pub fn mark_finished(&mut self, i: usize)
        requires
            i < old(self).view().len(),
        ensures
            final(self).view() == old(self).view().update(i as int, true),
    {
        self.finished.set(i, true);
    }

    /// The mix has ended: every tracked source has ended (vacuously so
    /// for an empty mix).
    pub fn finished_all(&self) -> (b: bool)
        ensures
            b == (forall|i: int| 0 <= i < self.view().len() ==> #[trigger] self.view()[i]),
    {
        let n = self.finished.len();
        for i in 0..n
            invariant
                n == self.finished@.len(),
                forall|j: int| 0 <= j < i ==> #[trigger] self.finished@[j],
        {
            if !self.finished[i] {
                assert(!self.view()[i as int]);
                return false;
            }
        }
        true
    }
}

} // verus!
