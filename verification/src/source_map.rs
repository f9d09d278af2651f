//! Mapping a line of the concatenated project source (what the engine
//! evaluates, and what its error positions refer to) back to the script
//! it came from and the line within that script.
//!
//! Each script occupies one separator line followed by the lines of its
//! buffer (an unterminated last line still counts as a line, and an
//! empty buffer occupies one empty line).

use vstd::prelude::*;

use crate::project::{concat_sections, ends_with_newline, header_close, header_open, section, Project, Script};
use crate::text::{push_char, to_chars};

verus! {

/// The pieces of `s` between newlines: `"a\nb"` gives `["a", "b"]`,
/// `"a\n"` gives `["a", ""]` and `""` gives `[""]`.
pub open spec fn split_lines(s: Seq<char>) -> Seq<Seq<char>>
    decreases s.len(),
{
    if s.len() == 0 {
        seq![Seq::<char>::empty()]
    } else {
        let p = split_lines(s.drop_last());
        if s.last() == '\n' {
            p.push(Seq::<char>::empty())
        } else {
            p.update(p.len() - 1, p.last().push(s.last()))
        }
    }
}

/// The lines a buffer occupies in the concatenated source: its pieces
/// between newlines, without the empty piece after a final newline.
pub open spec fn script_lines(buffer: Seq<char>) -> Seq<Seq<char>> {
    if ends_with_newline(buffer) {
        split_lines(buffer).drop_last()
    } else {
        split_lines(buffer)
    }
}

/// The separator line placed before a script.
pub open spec fn header_line(path: Seq<char>) -> Seq<char> {
    header_open() + path + " ───"@
}

/// Every line of the concatenated source of `scripts`, in order.
pub open spec fn all_lines(scripts: Seq<Script>) -> Seq<Seq<char>>
    decreases scripts.len(),
{
    if scripts.len() == 0 {
        Seq::empty()
    } else {
        all_lines(scripts.drop_last()) + seq![header_line(scripts.last().relative_path@)]
            + script_lines(scripts.last().buffer@)
    }
}

/// Number of lines before the separator line of script `i`.
pub open spec fn line_start(scripts: Seq<Script>, i: int) -> nat {
    all_lines(scripts.take(i)).len()
}

/// Line `line` (1-based) of the concatenated source is line `l`
/// (1-based) of script `i`.
pub open spec fn locates(scripts: Seq<Script>, line: int, i: int, l: int) -> bool {
    &&& 0 <= i < scripts.len()
    &&& 1 <= l <= script_lines(scripts[i].buffer@).len()
    &&& line == line_start(scripts, i) + 1 + l
}

/// `s` holds no newline.
pub open spec fn single_line(s: Seq<char>) -> bool {
    forall|k: int| 0 <= k < s.len() ==> #[trigger] s[k] != '\n'
}

/// Every script path fits on the separator line.
pub open spec fn paths_single_line(scripts: Seq<Script>) -> bool {
    forall|i: int| 0 <= i < scripts.len() ==> single_line(#[trigger] scripts[i].relative_path@)
}

proof fn lemma_split_nonempty(s: Seq<char>)
    ensures
        split_lines(s).len() >= 1,
    decreases s.len(),
{
    if s.len() > 0 {
        lemma_split_nonempty(s.drop_last());
    }
}

proof fn lemma_split_single_line(s: Seq<char>)
    requires
        single_line(s),
    ensures
        split_lines(s) == seq![s],
    decreases s.len(),
{
    if s.len() > 0 {
        let d = s.drop_last();
        assert(single_line(d)) by {
            assert forall|k: int| 0 <= k < d.len() implies #[trigger] d[k] != '\n' by {
                assert(d[k] == s[k]);
            }
        }
        lemma_split_single_line(d);
        assert(s[s.len() - 1] != '\n');
        assert(d.push(s.last()) =~= s);
        assert(split_lines(s) =~= seq![s]);
    } else {
        assert(s =~= Seq::<char>::empty());
        assert(split_lines(s) =~= seq![s]);
    }
}

/// Splitting a concatenation whose first part ends a line.
proof fn lemma_split_append(a: Seq<char>, b: Seq<char>)
    requires
        split_lines(a).last() == Seq::<char>::empty(),
    ensures
        split_lines(a + b) == split_lines(a).drop_last() + split_lines(b),
    decreases b.len(),
{
    lemma_split_nonempty(a);
    if b.len() == 0 {
        assert(a + b =~= a);
        assert(split_lines(a).drop_last() + split_lines(b) =~= split_lines(a));
    } else {
        let b0 = b.drop_last();
        lemma_split_append(a, b0);
        lemma_split_nonempty(b0);
        assert((a + b).drop_last() =~= a + b0);
        assert((a + b).last() == b.last());
        let p = split_lines(a + b0);
        let q = split_lines(b0);
        let pre = split_lines(a).drop_last();
        assert(p == pre + q);
        if b.last() == '\n' {
            assert(split_lines(a + b) =~= pre + split_lines(b));
        } else {
            assert(p.last() == q.last());
            assert(split_lines(a + b) =~= pre + split_lines(b));
        }
    }
}

/// A buffer as it appears in the concatenated source: terminated by a
/// newline.
proof fn lemma_split_body(b: Seq<char>)
    ensures
        split_lines(b + if ends_with_newline(b) {
            Seq::<char>::empty()
        } else {
            seq!['\n']
        }) == script_lines(b).push(Seq::<char>::empty()),
{
    lemma_split_nonempty(b);
    if ends_with_newline(b) {
        assert(b + Seq::<char>::empty() =~= b);
        assert(split_lines(b) == split_lines(b.drop_last()).push(Seq::<char>::empty()));
        assert(split_lines(b).drop_last().push(Seq::<char>::empty()) =~= split_lines(b));
    } else {
        let t = b + seq!['\n'];
        assert(t.drop_last() =~= b);
        assert(t.last() == '\n');
    }
}

proof fn lemma_split_section(path: Seq<char>, b: Seq<char>)
    requires
        single_line(path),
    ensures
        split_lines(section(path, b)) == seq![header_line(path)] + script_lines(b).push(
            Seq::<char>::empty(),
        ),
{
    reveal_strlit("// ─── ");
    reveal_strlit(" ───");
    reveal_strlit(" ───\n");
    let hl = header_line(path);
    let h = header_open() + path + header_close();
    let body = b + if ends_with_newline(b) {
        Seq::<char>::empty()
    } else {
        seq!['\n']
    };
    assert(single_line(hl)) by {
        assert forall|k: int| 0 <= k < hl.len() implies #[trigger] hl[k] != '\n' by {
            if k < header_open().len() {
            } else if k < header_open().len() + path.len() {
                assert(hl[k] == path[k - header_open().len()]);
            } else {
            }
        }
    }
    lemma_split_single_line(hl);
    assert(h =~= hl.push('\n'));
    assert(h.drop_last() =~= hl);
    assert(split_lines(h) == seq![hl].push(Seq::<char>::empty()));
    assert(section(path, b) =~= h + body);
    lemma_split_append(h, body);
    lemma_split_body(b);
    assert(split_lines(h).drop_last() =~= seq![hl]);
}

/// The concatenated source, split at newlines, is every line of every
/// section followed by the empty piece after the final newline.
proof fn lemma_split_concat(scripts: Seq<Script>)
    requires
        paths_single_line(scripts),
    ensures
        split_lines(concat_sections(scripts)) == all_lines(scripts).push(Seq::<char>::empty()),
    decreases scripts.len(),
{
    if scripts.len() == 0 {
        assert(split_lines(Seq::<char>::empty()) =~= seq![Seq::<char>::empty()]);
        assert(all_lines(scripts).push(Seq::<char>::empty()) =~= seq![Seq::<char>::empty()]);
    } else {
        let s0 = scripts.drop_last();
        assert(paths_single_line(s0)) by {
            assert forall|i: int| 0 <= i < s0.len() implies single_line(
                #[trigger] s0[i].relative_path@,
            ) by {
                assert(s0[i] == scripts[i]);
            }
        }
        lemma_split_concat(s0);
        let last = scripts.last();
        assert(single_line(last.relative_path@)) by {
            assert(scripts[scripts.len() - 1] == last);
        }
        lemma_split_section(last.relative_path@, last.buffer@);
        lemma_split_append(concat_sections(s0), section(last.relative_path@, last.buffer@));
        assert(all_lines(s0).push(Seq::<char>::empty()).drop_last() =~= all_lines(s0));
        assert(split_lines(concat_sections(scripts)) =~= all_lines(scripts).push(
            Seq::<char>::empty(),
        ));
    }
}

/// The lines of a prefix of the scripts are a prefix of all the lines.
proof fn lemma_all_lines_prefix(scripts: Seq<Script>, j: int)
    requires
        0 <= j <= scripts.len(),
    ensures
        all_lines(scripts.take(j)).len() <= all_lines(scripts).len(),
        forall|k: int|
            0 <= k < all_lines(scripts.take(j)).len() ==> #[trigger] all_lines(scripts.take(j))[k]
                == all_lines(scripts)[k],
    decreases scripts.len(),
{
    if j == scripts.len() {
        assert(scripts.take(j) =~= scripts);
    } else {
        let s0 = scripts.drop_last();
        lemma_all_lines_prefix(s0, j);
        assert(s0.take(j) =~= scripts.take(j));
    }
}

/// Script `i` starts where the scripts before it end.
proof fn lemma_line_start_step(scripts: Seq<Script>, i: int)
    requires
        0 <= i < scripts.len(),
    ensures
        all_lines(scripts.take(i + 1)) == all_lines(scripts.take(i)) + seq![
            header_line(scripts[i].relative_path@),
        ] + script_lines(scripts[i].buffer@),
        line_start(scripts, i + 1) == line_start(scripts, i) + 1 + script_lines(
            scripts[i].buffer@,
        ).len(),
{
    assert(scripts.take(i + 1).drop_last() =~= scripts.take(i));
    assert(scripts.take(i + 1).last() == scripts[i]);
}

/// Later scripts start no earlier.
proof fn lemma_line_start_monotone(scripts: Seq<Script>, i: int, j: int)
    requires
        0 <= i <= j <= scripts.len(),
    ensures
        line_start(scripts, i) <= line_start(scripts, j),
{
    let t = scripts.take(j);
    lemma_all_lines_prefix(t, i);
    assert(t.take(i) =~= scripts.take(i));
}

/// Law: the line of the concatenated source that `resolve_source_line`
/// attributes to line `l` of script `i` is exactly that line of the
/// script's buffer, as `script_line` reads it.
pub proof fn law_resolved_line_reads_back(scripts: Seq<Script>, line: int, i: int, l: int)
    requires
        paths_single_line(scripts),
        locates(scripts, line, i, l),
    ensures
        1 <= line <= split_lines(concat_sections(scripts)).len(),
        split_lines(concat_sections(scripts))[line - 1] == script_lines(scripts[i].buffer@)[l - 1],
{
    lemma_split_concat(scripts);
    lemma_line_start_step(scripts, i);
    lemma_all_lines_prefix(scripts, i + 1);
    let pre = all_lines(scripts.take(i));
    assert(all_lines(scripts.take(i + 1))[line - 1] == script_lines(scripts[i].buffer@)[l - 1]);
}

/// Number of lines `buffer` occupies in the concatenated source.
fn line_count(buffer: &str) -> (n: usize)
    ensures
        n == script_lines(buffer@).len(),
{
    let chars = to_chars(buffer);
    let len = chars.len();
    let mut newlines: usize = 0;
    for i in 0..len
        invariant
            len == chars@.len(),
            newlines + 1 == split_lines(chars@.take(i as int)).len(),
            newlines <= i,
            (i > 0 && chars@[i - 1] != '\n') ==> newlines < i,
    {
        assert(chars@.take(i + 1).drop_last() =~= chars@.take(i as int));
        assert(chars@.take(i + 1).last() == chars@[i as int]);
        if chars[i] == '\n' {
            newlines = newlines + 1;
        }
    }
    assert(chars@.take(len as int) =~= chars@);
    if len > 0 && chars[len - 1] == '\n' {
        newlines
    } else {
        newlines + 1
    }
}

impl Project {
    /// The script and the line within it (both 1-based for the line)
    /// that line `line` of the concatenated source belongs to. `None`
    /// for a separator line and for lines past the end.
    pub fn resolve_source_line(&self, line: usize) -> (r: Option<(usize, usize)>)
        ensures
            r matches Some((i, l)) ==> locates(self.scripts@, line as int, i as int, l as int),
            r is None ==> forall|i: int, l: int| !locates(self.scripts@, line as int, i, l),
    {
        let ghost scripts = self.scripts@;
        if line == 0 {
            return None;
        }
        let n = self.scripts.len();
        let mut start: usize = 0;
        for i in 0..n
            invariant
                n == scripts.len(),
                scripts == self.scripts@,
                start == line_start(scripts, i as int),
                start < line,
                forall|j: int|
                    0 <= j < i ==> line_start(scripts, j) + 1 + script_lines(
                        #[trigger] scripts[j].buffer@,
                    ).len() <= start,
        {
            proof {
                lemma_line_start_step(scripts, i as int);
            }
            let count = line_count(self.scripts[i].buffer.as_str());
            if line - start == 1 {
                proof {
                    assert forall|j: int, l: int| !locates(scripts, line as int, j, l) by {
                        if 0 <= j < n && 1 <= l <= script_lines(scripts[j].buffer@).len() {
                            if j > i {
                                lemma_line_start_monotone(scripts, i + 1, j);
                            } else if j < i {
                                assert(line_start(scripts, j) + 1 + script_lines(
                                    scripts[j].buffer@,
                                ).len() <= start);
                            }
                        }
                    }
                }
                return None;
            }
            let local = line - start - 1;
            if local <= count {
                return Some((i, local));
            }
            start = start + 1 + count;
        }
        proof {
            assert forall|j: int, l: int| !locates(scripts, line as int, j, l) by {
                if 0 <= j < n && 1 <= l <= script_lines(scripts[j].buffer@).len() {
                    assert(line_start(scripts, j) + 1 + script_lines(scripts[j].buffer@).len()
                        <= start);
                }
            }
        }
        None
    }

    /// Line `local_line` (1-based) of script `script_idx`, without its
    /// newline. `None` when there is no such script or line.
    pub fn script_line(&self, script_idx: usize, local_line: usize) -> (r: Option<String>)
        ensures
            (script_idx < self.scripts@.len() && 1 <= local_line <= script_lines(
                self.scripts@[script_idx as int].buffer@,
            ).len()) ==> (r matches Some(text) && text@ == script_lines(
                self.scripts@[script_idx as int].buffer@,
            )[local_line - 1]),
            !(script_idx < self.scripts@.len() && 1 <= local_line <= script_lines(
                self.scripts@[script_idx as int].buffer@,
            ).len()) ==> r is None,
    {
        if script_idx >= self.scripts.len() || local_line == 0 {
            return None;
        }
        let target = local_line - 1;
        let chars = to_chars(self.scripts[script_idx].buffer.as_str());
        let ghost b = chars@;
        let len = chars.len();
        let mut line_no: usize = 0;
        let mut text = String::new();
        for i in 0..len
            invariant
                len == b.len(),
                b == chars@,
                line_no + 1 == split_lines(b.take(i as int)).len(),
                line_no <= i,
                line_no < target ==> text@ == Seq::<char>::empty(),
                line_no >= target ==> text@ == split_lines(b.take(i as int))[target as int],
        {
            proof {
                lemma_split_nonempty(b.take(i as int));
            }
            assert(b.take(i + 1).drop_last() =~= b.take(i as int));
            assert(b.take(i + 1).last() == b[i as int]);
            let c = chars[i];
            if c == '\n' {
                line_no = line_no + 1;
                if line_no == target {
                    proof {
                        assert(split_lines(b.take(i + 1))[target as int] == Seq::<char>::empty());
                    }
                }
            } else if line_no == target {
                push_char(&mut text, c);
            }
        }
        assert(b.take(len as int) =~= b);
        let ends = len > 0 && chars[len - 1] == '\n';
        assert(ends == ends_with_newline(b));
        let present = if ends {
            target < line_no
        } else {
            target <= line_no
        };
        if present {
            Some(text)
        } else {
            None
        }
    }
}

} // verus!
