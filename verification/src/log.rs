//! Bounded log pane state: append-only from the app's point of view,
//! holding at most `MAX_LINES` entries so a long session never grows
//! without bound.

use std::collections::VecDeque;
use vstd::prelude::*;

use crate::externals::instant_now;
use vstd::std_specs::iter::IteratorSpec;

verus! {

broadcast use vstd::std_specs::vecdeque::group_vec_dequeue_axioms;

/// Capacity of the log pane.
pub const MAX_LINES: usize = 256;

/// One line of the log.
#[derive(Debug, Clone)]
pub struct LogEntry {
    pub when: std::time::Instant,
    pub line: String,
    pub kind: LogKind,
}

/// Severity / category of a log line.
#[derive(Debug, Clone, Copy, PartialEq, Eq, Structural)]
pub enum LogKind {
    Info,
    Warn,
    Error,
    Audio,
}

/// The log pane: the most recent `MAX_LINES` entries, oldest first.
#[derive(Debug)]
pub struct LogPane {
    entries: VecDeque<LogEntry>,
}

/// The last `n` elements of `s` (all of `s` when it is shorter).
pub open spec fn keep_last<A>(s: Seq<A>, n: nat) -> Seq<A> {
    if s.len() <= n {
        s
    } else {
        s.subrange(s.len() - n, s.len() as int)
    }
}

/// Kind and text of each entry, oldest first.
pub open spec fn kinds_and_lines(s: Seq<LogEntry>) -> Seq<(LogKind, Seq<char>)> {
    s.map_values(|e: LogEntry| (e.kind, e.line@))
}

impl LogPane {
    #[verifier::type_invariant]
    spec fn bounded(self) -> bool {
        self.entries@.len() <= MAX_LINES
    }

    /// The entries, oldest first.
    pub closed spec fn view(&self) -> Seq<LogEntry> {
        self.entries@
    }

    /// An empty log.
    pub fn new() -> (pane: LogPane)
        ensures
            pane.view().len() == 0,
    {
        LogPane { entries: VecDeque::new() }
    }

    /// Append a line. When the pane is full the oldest entry is dropped
    /// first, so the pane always holds the latest `MAX_LINES` lines.
    pub fn push(&mut self, kind: LogKind, line: String)
        ensures
            final(self).view().len() <= MAX_LINES,
            final(self).view().len() == if old(self).view().len() == MAX_LINES {
                MAX_LINES as int
            } else {
                old(self).view().len() + 1int
            },
            final(self).view() == keep_last(old(self).view().push(final(self).view().last()), MAX_LINES as nat),
            final(self).view().last().kind == kind,
            final(self).view().last().line == line,
    {
        proof {
            use_type_invariant(&*self);
        }
        let mut entries: VecDeque<LogEntry> = VecDeque::new();
        std::mem::swap(&mut entries, &mut self.entries);
        if entries.len() == MAX_LINES {
            entries.pop_front();
        }
        let entry = LogEntry { when: instant_now(), line, kind };
        entries.push_back(entry);
        self.entries = entries;
    }

    pub fn info(&mut self, line: String)
        ensures
            final(self).view() == keep_last(old(self).view().push(final(self).view().last()), MAX_LINES as nat),
            final(self).view().last().kind == LogKind::Info,
            final(self).view().last().line == line,
    {
        self.push(LogKind::Info, line);
    }

    pub fn warn(&mut self, line: String)
        ensures
            final(self).view() == keep_last(old(self).view().push(final(self).view().last()), MAX_LINES as nat),
            final(self).view().last().kind == LogKind::Warn,
            final(self).view().last().line == line,
    {
        self.push(LogKind::Warn, line);
    }

    pub fn error(&mut self, line: String)
        ensures
            final(self).view() == keep_last(old(self).view().push(final(self).view().last()), MAX_LINES as nat),
            final(self).view().last().kind == LogKind::Error,
            final(self).view().last().line == line,
    {
        self.push(LogKind::Error, line);
    }

    pub fn audio(&mut self, line: String)
        ensures
            final(self).view() == keep_last(old(self).view().push(final(self).view().last()), MAX_LINES as nat),
            final(self).view().last().kind == LogKind::Audio,
            final(self).view().last().line == line,
    {
        self.push(LogKind::Audio, line);
    }

    /// The entries, oldest first.
    pub fn entries(&self) -> (it: std::collections::vec_deque::Iter<'_, LogEntry>)
        ensures
            it.remaining() == self.view().map_values(|e: LogEntry| &e),
            it.remaining().len() <= MAX_LINES,
            self.view().len() <= MAX_LINES,
    {
        proof {
            use_type_invariant(self);
        }
        self.entries.iter()
    }
}

/// Law: the pane always holds exactly the latest `MAX_LINES` lines ever
/// pushed. Keeping the latest `n` after every push gives the same result
/// as keeping the latest `n` of the whole history.
pub proof fn lemma_keep_last_push<A>(history: Seq<A>, e: A, n: nat)
    requires
        n > 0,
    ensures
        keep_last(keep_last(history, n).push(e), n) == keep_last(history.push(e), n),
{
    let k = keep_last(history, n);
    if history.len() <= n {
        assert(k == history);
    } else {
        assert(k.len() == n);
        assert(keep_last(k.push(e), n) =~= keep_last(history.push(e), n));
    }
}

impl Default for LogPane {
    fn default() -> (pane: LogPane)
        ensures
            pane.view().len() == 0,
    {
        LogPane::new()
    }
}

} // verus!
