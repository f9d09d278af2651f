//! Logic behind the collaboration tools that let an agent read and edit
//! the editor buffer: the queued commands, the unique-match edit, and
//! the textual reports the tools answer with.

use vstd::prelude::*;

use crate::text::{push_decimal, decimal, to_chars};

verus! {

/// A request from the collaboration side that must run on the thread
/// that owns the engine and the editor.
#[derive(Debug, Clone)]
pub enum Command {
    /// Replace the editor buffer with this content.
    SetBuffer(String),
    /// Re-evaluate the buffer.
    Eval,
    /// Play a registered patch by name.
    Play(String),
}

/// `p` occurs in `s` at index `i`.
pub open spec fn occurs_at(s: Seq<char>, p: Seq<char>, i: int) -> bool {
    0 <= i && i + p.len() <= s.len() && s.subrange(i, i + p.len()) == p
}

/// Number of non-overlapping occurrences of `p` in `s` from index `i`
/// on, found left to right (an empty pattern matches at every character
/// boundary).
pub open spec fn count_from(s: Seq<char>, p: Seq<char>, i: int) -> nat
    decreases s.len() - i,
{
    if i < 0 || i > s.len() {
        0
    } else if p.len() == 0 {
        (s.len() - i + 1) as nat
    } else if i + p.len() > s.len() {
        0
    } else if occurs_at(s, p, i) {
        1 + count_from(s, p, i + p.len())
    } else {
        count_from(s, p, i + 1)
    }
}

/// Number of non-overlapping occurrences of `p` in `s`.
pub open spec fn count_matches(s: Seq<char>, p: Seq<char>) -> nat {
    count_from(s, p, 0)
}

/// Leftmost occurrence of `p` in `s` at or after `i`.
pub open spec fn first_from(s: Seq<char>, p: Seq<char>, i: int) -> Option<int>
    decreases s.len() - i,
{
    if i < 0 || i > s.len() {
        None
    } else if p.len() == 0 {
        Some(i)
    } else if i + p.len() > s.len() {
        None
    } else if occurs_at(s, p, i) {
        Some(i)
    } else {
        first_from(s, p, i + 1)
    }
}

/// `s` with the leftmost occurrence of `old` replaced by `new`.
pub open spec fn replace_first(s: Seq<char>, old: Seq<char>, new: Seq<char>) -> Seq<char> {
    match first_from(s, old, 0) {
        Some(k) => s.take(k) + new + s.skip(k + old.len()),
        None => s,
    }
}

/// Message when the pattern does not occur.
pub open spec fn not_found_message() -> Seq<char> {
    "error: old_string not found in buffer"@
}

/// Message when the pattern occurs `count` times.
pub open spec fn ambiguous_message(count: nat) -> Seq<char> {
    "error: old_string occurs "@ + decimal(count)
        + " times; needs more surrounding context to disambiguate"@
}

fn occurs_at_exec(s: &Vec<char>, p: &Vec<char>, i: usize) -> (b: bool)
    requires
        i + p@.len() <= s@.len(),
    ensures
        b == occurs_at(s@, p@, i as int),
{
    let m = p.len();
    let n = s.len();
    let mut j: usize = 0;
    while j < m
        invariant
            m == p@.len(),
            n == s@.len(),
            i + m <= s@.len(),
            j <= m,
            forall|k: int| 0 <= k < j ==> s@[i + k] == p@[k],
        decreases m - j,
    {
        if s[i + j] != p[j] {
            assert(s@.subrange(i as int, i + m)[j as int] != p@[j as int]);
            return false;
        }
        j = j + 1;
    }
    assert(s@.subrange(i as int, i + m) =~= p@);
    true
}

/// Count the occurrences of `p` in `s` and find the leftmost one.
fn scan(s: &Vec<char>, p: &Vec<char>) -> (r: (usize, Option<usize>))
    requires
        p@.len() > 0,
    ensures
        r.0 == count_matches(s@, p@),
        r.1 matches Some(k) ==> first_from(s@, p@, 0) == Some(k as int),
        r.1 is None ==> first_from(s@, p@, 0) is None,
{
    let n = s.len();
    let m = p.len();
    let mut i: usize = 0;
    let mut count: usize = 0;
    let mut first: Option<usize> = None;
    while m <= n - i
        invariant
            n == s@.len(),
            m == p@.len(),
            m > 0,
            i <= n,
            count + count_from(s@, p@, i as int) == count_from(s@, p@, 0),
            count <= i,
            first is None ==> first_from(s@, p@, 0) == first_from(s@, p@, i as int),
            first matches Some(k) ==> first_from(s@, p@, 0) == Some(k as int),
        decreases n - i,
    {
        if occurs_at_exec(s, p, i) {
            if first.is_none() {
                first = Some(i);
            }
            count = count + 1;
            i = i + m;
        } else {
            i = i + 1;
        }
    }
    (count, first)
}

/// Replace the single occurrence of `old_string` in `buffer` with
/// `new_string`. Fails, with the message the tool answers with, when
/// `old_string` occurs zero times or more than once.
pub fn apply_edit(buffer: &str, old_string: &str, new_string: &str) -> (r: Result<String, String>)
    requires
        buffer@.len() < usize::MAX,
    ensures
        count_matches(buffer@, old_string@) == 1 ==> (r matches Ok(b) && b@ == replace_first(
            buffer@,
            old_string@,
            new_string@,
        )),
        count_matches(buffer@, old_string@) == 0 ==> (r matches Err(m) && m@
            == not_found_message()),
        count_matches(buffer@, old_string@) > 1 ==> (r matches Err(m) && m@ == ambiguous_message(
            count_matches(buffer@, old_string@),
        )),
{
    let s = to_chars(buffer);
    let p = to_chars(old_string);
    let n = s.len();
    let (count, first) = if p.len() == 0 {
        assert(count_from(s@, p@, 0) == n + 1);
        (n + 1, Some(0usize))
    } else {
        scan(&s, &p)
    };
    if count == 0 {
        Err(String::from_str("error: old_string not found in buffer"))
    } else if count > 1 {
        let mut m = String::from_str("error: old_string occurs ");
        push_decimal(&mut m, count);
        m.append(" times; needs more surrounding context to disambiguate");
        Err(m)
    } else {
        let k = match first {
            Some(k) => k,
            None => 0,
        };
        assert(first is Some) by {
            if first is None {
                assert(first_from(s@, p@, 0) is None);
                lemma_count_positive_has_first(s@, p@, 0);
            }
        }
        proof {
            lemma_first_in_bounds(s@, p@, 0);
        }
        let head = buffer.substring_char(0, k);
        let tail = buffer.substring_char(k + p.len(), n);
        let out = String::from_str(head).concat(new_string).concat(tail);
        assert(out@ =~= replace_first(buffer@, old_string@, new_string@));
        Ok(out)
    }
}

proof fn lemma_count_positive_has_first(s: Seq<char>, p: Seq<char>, i: int)
    requires
        count_from(s, p, i) > 0,
    ensures
        first_from(s, p, i) is Some,
    decreases s.len() - i,
{
    if i < 0 || i > s.len() || p.len() == 0 || i + p.len() > s.len() || occurs_at(s, p, i) {
    } else {
        lemma_count_positive_has_first(s, p, i + 1);
    }
}

proof fn lemma_first_in_bounds(s: Seq<char>, p: Seq<char>, i: int)
    ensures
        first_from(s, p, i) matches Some(k) ==> i <= k && k + p.len() <= s.len() && (p.len() > 0
            ==> occurs_at(s, p, k)),
    decreases s.len() - i,
{
    if i < 0 || i > s.len() || p.len() == 0 || i + p.len() > s.len() || occurs_at(s, p, i) {
    } else {
        lemma_first_in_bounds(s, p, i + 1);
    }
}

/// Law: an edit that succeeds puts `new_string` exactly where the single
/// occurrence of `old_string` was, leaving the text around it unchanged.
pub proof fn law_edit_splices(s: Seq<char>, old: Seq<char>, new: Seq<char>)
    requires
        count_matches(s, old) == 1,
    ensures
        exists|k: int|
            0 <= k && k + old.len() <= s.len() && #[trigger] s.subrange(k, k + old.len()) == old
                && replace_first(s, old, new) == s.take(k) + new + s.skip(k + old.len()),
{
    lemma_count_positive_has_first(s, old, 0);
    lemma_first_in_bounds(s, old, 0);
    let k = first_from(s, old, 0)->0;
    if old.len() == 0 {
        assert(s.subrange(k, k + old.len()) =~= old);
    }
    assert(s.subrange(k, k + old.len()) == old);
}

/// The engine-state report: whether live mode is on and which ambients
/// are currently running.
pub open spec fn state_report(live: bool, playing: Seq<Seq<char>>) -> Seq<char> {
    "live_ambient: "@ + (if live { "true"@ } else { "false"@ }) + "\n"@ + if playing.len() == 0 {
        "playing_ambients: (none)\n"@
    } else {
        "playing_ambients:\n"@ + playing_lines(playing)
    }
}

/// One `  - name` line per running ambient.
pub open spec fn playing_lines(playing: Seq<Seq<char>>) -> Seq<char>
    decreases playing.len(),
{
    if playing.len() == 0 {
        Seq::<char>::empty()
    } else {
        playing_lines(playing.drop_last()) + "  - "@ + playing.last() + "\n"@
    }
}

/// The opening line of the report for the given live flag.
pub open spec fn live_line(live: bool) -> Seq<char> {
    "live_ambient: "@ + (if live { "true"@ } else { "false"@ }) + "\n"@
}

/// The line reporting one running ambient.
pub open spec fn ambient_line(name: Seq<char>) -> Seq<char> {
    "  - "@ + name + "\n"@
}

/// Total length of the lines reporting `names`.
pub open spec fn ambient_lines_len(names: Seq<Seq<char>>) -> nat
    decreases names.len(),
{
    if names.len() == 0 {
        0
    } else {
        ambient_lines_len(names.drop_last()) + names.last().len() + 5
    }
}

proof fn lemma_playing_lines_layout(p: Seq<Seq<char>>)
    ensures
        playing_lines(p).len() == ambient_lines_len(p),
        forall|i: int|
            0 <= i < p.len() ==> ambient_lines_len(p.take(i)) + (#[trigger] ambient_line(p[i])).len()
                <= ambient_lines_len(p),
        forall|i: int|
            0 <= i < p.len() ==> playing_lines(p).subrange(
                ambient_lines_len(p.take(i)) as int,
                (ambient_lines_len(p.take(i)) + (#[trigger] ambient_line(p[i])).len()) as int,
            ) == ambient_line(p[i]),
    decreases p.len(),
{
    reveal_strlit("  - ");
    reveal_strlit("\n");
    if p.len() > 0 {
        let d = p.drop_last();
        lemma_playing_lines_layout(d);
        let whole = playing_lines(p);
        let pre = playing_lines(d);
        assert(whole == pre + ambient_line(p.last()));
        assert(ambient_line(p.last()).len() == p.last().len() + 5);
        assert forall|i: int| 0 <= i < p.len() implies ambient_lines_len(p.take(i)) + (
        #[trigger] ambient_line(p[i])).len() <= ambient_lines_len(p) by {
            if i < d.len() {
                assert(d.take(i) =~= p.take(i));
                assert(d[i] == p[i]);
            } else {
                assert(p.take(i) =~= d);
            }
        }
        assert forall|i: int| 0 <= i < p.len() implies whole.subrange(
            ambient_lines_len(p.take(i)) as int,
            (ambient_lines_len(p.take(i)) + (#[trigger] ambient_line(p[i])).len()) as int,
        ) == ambient_line(p[i]) by {
            if i < d.len() {
                assert(d.take(i) =~= p.take(i));
                assert(d[i] == p[i]);
                let a = ambient_lines_len(p.take(i)) as int;
                let b = a + ambient_line(p[i]).len();
                assert(pre.subrange(a, b) == ambient_line(p[i]));
                assert(whole.subrange(a, b) =~= pre.subrange(a, b));
            } else {
                assert(p.take(i) =~= d);
                assert(whole.subrange(pre.len() as int, whole.len() as int) =~= ambient_line(p.last()));
            }
        }
    }
}

/// Law: the engine-state report opens with the live flag and then lists
/// the running ambients independently of that flag: it says `(none)`
/// exactly when no ambient is running, and otherwise holds one
/// `  - name` line per running ambient, in order.
pub proof fn law_state_report_lists_playing(live: bool, playing: Seq<Seq<char>>)
    ensures
        state_report(live, playing).take(live_line(live).len() as int) == live_line(live),
        state_report(live, playing).skip(live_line(live).len() as int) == state_report(
            !live,
            playing,
        ).skip(live_line(!live).len() as int),
        (state_report(live, playing).skip(live_line(live).len() as int) == "playing_ambients: (none)\n"@)
            <==> playing.len() == 0,
        forall|i: int|
            0 <= i < playing.len() ==> {
                let at = (live_line(live).len() + "playing_ambients:\n"@.len() + ambient_lines_len(
                    playing.take(i),
                )) as int;
                state_report(live, playing).subrange(at, at + (#[trigger] ambient_line(playing[i])).len())
                    == ambient_line(playing[i])
            },
{
    reveal_strlit("live_ambient: ");
    reveal_strlit("true");
    reveal_strlit("false");
    reveal_strlit("\n");
    reveal_strlit("playing_ambients: (none)\n");
    reveal_strlit("playing_ambients:\n");
    let h = live_line(live);
    let h2 = live_line(!live);
    let body = if playing.len() == 0 {
        "playing_ambients: (none)\n"@
    } else {
        "playing_ambients:\n"@ + playing_lines(playing)
    };
    let r = state_report(live, playing);
    assert(r =~= h + body);
    assert(state_report(!live, playing) =~= h2 + body);
    assert(r.take(h.len() as int) =~= h);
    assert(r.skip(h.len() as int) =~= body);
    assert(state_report(!live, playing).skip(h2.len() as int) =~= body);
    if playing.len() > 0 {
        assert(body[17] == '\n');
        assert("playing_ambients: (none)\n"@[17] == ' ');
    }
    lemma_playing_lines_layout(playing);
    assert forall|i: int| 0 <= i < playing.len() implies {
        let at = (h.len() + "playing_ambients:\n"@.len() + ambient_lines_len(playing.take(i))) as int;
        r.subrange(at, at + (#[trigger] ambient_line(playing[i])).len()) == ambient_line(playing[i])
    } by {
        let off = ambient_lines_len(playing.take(i)) as int;
        let len = ambient_line(playing[i]).len() as int;
        let at = h.len() + 18 + off;
        let pl = playing_lines(playing);
        assert(pl.subrange(off, off + len) == ambient_line(playing[i]));
        assert(r =~= h + "playing_ambients:\n"@ + pl);
        assert(r.subrange(at, at + len) =~= pl.subrange(off, off + len));
    }
}

/// Views of a list of strings.
pub open spec fn string_views(v: Seq<String>) -> Seq<Seq<char>> {
    v.map_values(|s: String| s@)
}

/// Render the engine-state report.
pub fn engine_state_report(live_ambient: bool, playing: &Vec<String>) -> (out: String)
    ensures
        out@ == state_report(live_ambient, string_views(playing@)),
{
    let mut out = String::from_str("live_ambient: ");
    if live_ambient {
        out.append("true");
    } else {
        out.append("false");
    }
    out.append("\n");
    let ghost prefix = out@;
    if playing.len() == 0 {
        out.append("playing_ambients: (none)\n");
    } else {
        out.append("playing_ambients:\n");
        let ghost start = out@;
        let n = playing.len();
        for i in 0..n
            invariant
                n == playing@.len(),
                out@ == start + playing_lines(string_views(playing@).take(i as int)),
        {
            assert(string_views(playing@).take(i + 1).drop_last() =~= string_views(
                playing@,
            ).take(i as int));
            out.append("  - ");
            out.append(playing[i].as_str());
            out.append("\n");
        }
        assert(string_views(playing@).take(n as int) =~= string_views(playing@));
    }
    out
}

/// The last-error report: the error text, or `no error`.
pub fn last_error_report(last_error: &Option<String>) -> (out: String)
    ensures
        last_error matches Some(e) ==> out@ == e@,
        last_error is None ==> out@ == "no error"@,
{
    match last_error {
        Some(e) => e.clone(),
        None => String::from_str("no error"),
    }
}

} // verus!
