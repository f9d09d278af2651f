//! Turning a directory listing into the script list of a project that
//! has no manifest yet: every `.rhai` file, in sorted order.

use vstd::prelude::*;
use vstd::seq_lib::{to_multiset_insert, to_multiset_build};

use crate::project::{Manifest, ProjectError};
use crate::text::to_chars;

verus! {

/// `a` sorts no later than `b`, comparing characters from index `i` on
/// (lexicographic order by code point, as strings are ordered).
pub open spec fn lex_le_from(a: Seq<char>, b: Seq<char>, i: int) -> bool
    decreases a.len() - i,
{
    if i < 0 || i >= a.len() {
        true
    } else if i >= b.len() {
        false
    } else if a[i] == b[i] {
        lex_le_from(a, b, i + 1)
    } else {
        (a[i] as int) < (b[i] as int)
    }
}

/// `a` sorts no later than `b`.
pub open spec fn lex_le(a: Seq<char>, b: Seq<char>) -> bool {
    lex_le_from(a, b, 0)
}

/// Every element sorts no later than every element after it.
pub open spec fn sorted(s: Seq<Seq<char>>) -> bool {
    forall|i: int, j: int| 0 <= i < j < s.len() ==> lex_le(#[trigger] s[i], #[trigger] s[j])
}

proof fn lemma_lex_total(a: Seq<char>, b: Seq<char>, i: int)
    requires
        0 <= i,
    ensures
        lex_le_from(a, b, i) || lex_le_from(b, a, i),
    decreases a.len() - i,
{
    if i < a.len() && i < b.len() {
        if a[i] == b[i] {
            lemma_lex_total(a, b, i + 1);
        } else {
            assert((a[i] as int) != (b[i] as int));
        }
    }
}

proof fn lemma_lex_trans(a: Seq<char>, b: Seq<char>, c: Seq<char>, i: int)
    requires
        0 <= i,
        lex_le_from(a, b, i),
        lex_le_from(b, c, i),
    ensures
        lex_le_from(a, c, i),
    decreases a.len() - i,
{
    if i < a.len() && i < b.len() && i < c.len() && a[i] == b[i] && b[i] == c[i] {
        lemma_lex_trans(a, b, c, i + 1);
    }
}

/// `a` is `b` or a prefix of it.
pub open spec fn is_prefix_of(a: Seq<char>, b: Seq<char>) -> bool {
    a.len() <= b.len() && b.take(a.len() as int) == a
}

/// `a` and `b` agree before index `k` and `a` has the smaller character
/// at `k`.
pub open spec fn first_smaller_at(a: Seq<char>, b: Seq<char>, k: int) -> bool {
    &&& 0 <= k < a.len()
    &&& k < b.len()
    &&& a.take(k) == b.take(k)
    &&& (a[k] as int) < (b[k] as int)
}

proof fn lemma_lex_first_difference(a: Seq<char>, b: Seq<char>, i: int)
    requires
        0 <= i <= a.len(),
        i <= b.len(),
        a.take(i) == b.take(i),
    ensures
        lex_le_from(a, b, i) <==> (is_prefix_of(a, b) || exists|k: int|
            i <= k && #[trigger] first_smaller_at(a, b, k)),
    decreases a.len() - i,
{
    if i == a.len() {
        assert(b.take(a.len() as int) =~= a);
    } else if i == b.len() {
        assert forall|k: int| i <= k implies !#[trigger] first_smaller_at(a, b, k) by {}
    } else if a[i] == b[i] {
        assert(a.take(i + 1) =~= b.take(i + 1)) by {
            assert forall|j: int| 0 <= j < i + 1 implies #[trigger] a.take(i + 1)[j] == b.take(i + 1)[j] by {
                if j < i {
                    assert(a.take(i)[j] == b.take(i)[j]);
                }
            }
        }
        lemma_lex_first_difference(a, b, i + 1);
        if exists|k: int| i <= k && #[trigger] first_smaller_at(a, b, k) {
            let k = choose|k: int| i <= k && #[trigger] first_smaller_at(a, b, k);
            if k == i {
                assert(false);
            }
            assert(i + 1 <= k && first_smaller_at(a, b, k));
        }
    } else {
        if is_prefix_of(a, b) {
            assert(b.take(a.len() as int)[i] == b[i]);
            assert(false);
        }
        if (a[i] as int) < (b[i] as int) {
            assert(first_smaller_at(a, b, i));
        } else {
            assert forall|k: int| i <= k implies !#[trigger] first_smaller_at(a, b, k) by {
                if first_smaller_at(a, b, k) && k > i {
                    assert(a.take(k)[i] == b.take(k)[i]);
                }
            }
        }
    }
}

/// Law: script names are ordered as strings are: `a` sorts no later than
/// `b` exactly when `a` is a prefix of `b`, or at the first position
/// where they differ `a` has the smaller character.
pub proof fn law_lex_order_is_string_order(a: Seq<char>, b: Seq<char>)
    ensures
        lex_le(a, b) <==> (is_prefix_of(a, b) || exists|k: int| #[trigger] first_smaller_at(a, b, k)),
{
    assert(a.take(0) =~= b.take(0));
    lemma_lex_first_difference(a, b, 0);
    if exists|k: int| #[trigger] first_smaller_at(a, b, k) {
        let k = choose|k: int| #[trigger] first_smaller_at(a, b, k);
        assert(0 <= k && first_smaller_at(a, b, k));
    }
}

proof fn lemma_lex_antisymmetric_from(a: Seq<char>, b: Seq<char>, i: int)
    requires
        0 <= i <= a.len(),
        i <= b.len(),
        lex_le_from(a, b, i),
        lex_le_from(b, a, i),
    ensures
        a.len() == b.len(),
        forall|k: int| i <= k < a.len() ==> a[k] == b[k],
    decreases a.len() - i,
{
    if i < a.len() && i < b.len() {
        if a[i] == b[i] {
            lemma_lex_antisymmetric_from(a, b, i + 1);
        }
    }
}

/// Law: two names that each sort no later than the other are the same
/// name, so distinct script names are never tied.
pub proof fn law_lex_antisymmetric(a: Seq<char>, b: Seq<char>)
    requires
        lex_le(a, b),
        lex_le(b, a),
    ensures
        a == b,
{
    lemma_lex_antisymmetric_from(a, b, 0);
    assert(a =~= b);
}

fn lex_le_exec(a: &Vec<char>, b: &Vec<char>) -> (r: bool)
    ensures
        r == lex_le(a@, b@),
{
    let n = a.len();
    let m = b.len();
    let mut i: usize = 0;
    while i < n
        invariant
            n == a@.len(),
            m == b@.len(),
            i <= n,
            i <= m,
            lex_le(a@, b@) == lex_le_from(a@, b@, i as int),
        decreases n - i,
    {
        if i >= m {
            return false;
        }
        if a[i] != b[i] {
            return a[i] < b[i];
        }
        i = i + 1;
    }
    true
}

/// Position of the last `.` in `s`, if any.
pub open spec fn last_dot(s: Seq<char>) -> Option<int>
    decreases s.len(),
{
    if s.len() == 0 {
        None
    } else if s.last() == '.' {
        Some(s.len() - 1)
    } else {
        last_dot(s.drop_last())
    }
}

/// The extension of a file name: what follows its last `.`, unless that
/// dot is the first character (a hidden file without extension).
pub open spec fn extension_of(name: Seq<char>) -> Option<Seq<char>> {
    match last_dot(name) {
        None => None,
        Some(k) => if k == 0 {
            None
        } else {
            Some(name.skip(k + 1))
        },
    }
}

/// Whether a directory entry is a script.
pub open spec fn is_script_name(name: Seq<char>) -> bool {
    extension_of(name) == Some("rhai"@)
}

proof fn lemma_last_dot_bounds(s: Seq<char>)
    ensures
        last_dot(s) matches Some(k) ==> 0 <= k < s.len() && s[k] == '.' && forall|j: int|
            k < j < s.len() ==> #[trigger] s[j] != '.',
        last_dot(s) is None ==> forall|j: int| 0 <= j < s.len() ==> #[trigger] s[j] != '.',
    decreases s.len(),
{
    if s.len() > 0 && s.last() != '.' {
        lemma_last_dot_bounds(s.drop_last());
        assert forall|j: int| 0 <= j < s.len() - 1 implies s.drop_last()[j] == #[trigger] s[j] by {}
    }
}

fn is_script_file(name: &String) -> (b: bool)
    ensures
        b == is_script_name(name@),
{
    let s = to_chars(name.as_str());
    let n = s.len();
    let mut k: usize = n;
    assert(s@.take(n as int) =~= s@);
    while k > 0 && s[k - 1] != '.'
        invariant
            n == s@.len(),
            k <= n,
            forall|j: int| k <= j < n ==> #[trigger] s@[j] != '.',
            last_dot(s@) == last_dot(s@.take(k as int)),
        decreases k,
    {
        assert(s@.take(k as int).drop_last() =~= s@.take(k - 1));
        k = k - 1;
    }
    proof {
        reveal_strlit("rhai");
    }
    if k == 0 {
        assert(last_dot(s@.take(0)) is None);
        return false;
    }
    let dot = k - 1;
    assert(s@.take(k as int).last() == s@[dot as int]);
    assert(last_dot(s@) == Some(dot as int));
    if dot == 0 {
        return false;
    }
    if n - k != 4 {
        assert(s@.skip(k as int).len() != 4);
        return false;
    }
    let r = s[k] == 'r' && s[k + 1] == 'h' && s[k + 2] == 'a' && s[k + 3] == 'i';
    if r {
        assert(s@.skip(k as int) =~= "rhai"@);
    } else {
        assert(s@.skip(k as int) != "rhai"@) by {
            if s@.skip(k as int) == "rhai"@ {
                assert(s@.skip(k as int)[0] == 'r');
                assert(s@.skip(k as int)[1] == 'h');
                assert(s@.skip(k as int)[2] == 'a');
                assert(s@.skip(k as int)[3] == 'i');
            }
        }
    }
    r
}

/// Views of a list of strings.
pub open spec fn name_views(v: Seq<String>) -> Seq<Seq<char>> {
    v.map_values(|s: String| s@)
}

/// The script files among `names` (entries of a directory), sorted.
pub fn script_files(names: Vec<String>) -> (out: Vec<String>)
    ensures
        sorted(name_views(out@)),
        name_views(out@).to_multiset() == name_views(names@).filter(|n: Seq<char>| is_script_name(n)).to_multiset(),
{
    let ghost all = name_views(names@);
    let ghost pick = |n: Seq<char>| is_script_name(n);
    let mut out: Vec<String> = Vec::new();
    let mut keys: Vec<Vec<char>> = Vec::new();
    let total = names.len();
    proof {
        assert(all.take(0).filter(pick) =~= Seq::<Seq<char>>::empty()) by {
            reveal_with_fuel(Seq::<_>::filter, 1);
        }
        assert(name_views(out@) =~= Seq::<Seq<char>>::empty());
    }
    for i in 0..total
        invariant
            total == names@.len(),
            all == name_views(names@),
            pick == (|n: Seq<char>| is_script_name(n)),
            keys@.len() == out@.len(),
            forall|k: int| 0 <= k < keys@.len() ==> #[trigger] keys@[k]@ == out@[k]@,
            sorted(name_views(out@)),
            name_views(out@).to_multiset() == all.take(i as int).filter(pick).to_multiset(),
    {
        assert(all.take(i + 1).filter(pick) == if pick(all[i as int]) {
            all.take(i as int).filter(pick).push(all[i as int])
        } else {
            all.take(i as int).filter(pick)
        }) by {
            reveal_with_fuel(Seq::<_>::filter, 1);
            assert(all.take(i + 1).drop_last() =~= all.take(i as int));
            assert(all.take(i + 1).last() == all[i as int]);
        }
        let name = &names[i];
        assert(name@ == all[i as int]);
        if is_script_file(name) {
            let key = to_chars(name.as_str());
            let n = out.len();
            let mut j: usize = 0;
            while j < n && lex_le_exec(&keys[j], &key)
                invariant
                    n == out@.len(),
                    n == keys@.len(),
                    j <= n,
                    forall|k: int| 0 <= k < keys@.len() ==> #[trigger] keys@[k]@ == out@[k]@,
                    forall|k: int| 0 <= k < j ==> lex_le(#[trigger] out@[k]@, key@),
                decreases n - j,
            {
                j = j + 1;
            }
            let ghost before = name_views(out@);
            proof {
                if j < n {
                    assert(!lex_le(out@[j as int]@, key@));
                    lemma_lex_total(out@[j as int]@, key@, 0);
                }
            }
            out.insert(j, name.clone());
            keys.insert(j, key);
            let ghost after = name_views(out@);
            assert(after =~= before.insert(j as int, name@));
            proof {
                to_multiset_insert(before, j as int, name@);
                to_multiset_build(all.take(i as int).filter(pick), all[i as int]);
                assert forall|a: int, b: int| 0 <= a < b < after.len() implies lex_le(
                    #[trigger] after[a],
                    #[trigger] after[b],
                ) by {
                    if b < j {
                        assert(lex_le(before[a], before[b]));
                    } else if b == j {
                        assert(lex_le(out@[a]@, key@));
                    } else if a < j {
                        assert(lex_le(before[a], key@));
                        assert(lex_le(key@, before[j as int]));
                        if b - 1 > j {
                            assert(lex_le(before[j as int], before[b - 1]));
                            lemma_lex_trans(key@, before[j as int], before[b - 1], 0);
                        }
                        lemma_lex_trans(before[a], key@, before[b - 1], 0);
                    } else if a == j {
                        assert(lex_le(key@, before[j as int]));
                        if b - 1 > j {
                            assert(lex_le(before[j as int], before[b - 1]));
                            lemma_lex_trans(key@, before[j as int], before[b - 1], 0);
                        }
                    } else {
                        assert(lex_le(before[a - 1], before[b - 1]));
                    }
                }
            }
        }
    }
    assert(all.take(total as int) =~= all);
    out
}

impl Manifest {
    /// The manifest of a directory opened as a project without one: its
    /// name is the directory's name (`untitled` when it has none) and its
    /// scripts are the directory's `.rhai` files in sorted order. Fails
    /// when there are none.
    pub fn from_directory(dir_name: Option<String>, names: Vec<String>) -> (r: Result<Manifest, ProjectError>)
        ensures
            name_views(names@).filter(|n: Seq<char>| is_script_name(n)).len() == 0 ==> (r matches Err(e)
                && e is EmptyManifest),
            name_views(names@).filter(|n: Seq<char>| is_script_name(n)).len() > 0 ==> (r matches Ok(m) && sorted(
                name_views(m.scripts@),
            ) && name_views(m.scripts@).to_multiset() == name_views(names@).filter(
                |n: Seq<char>| is_script_name(n),
            ).to_multiset() && (dir_name matches Some(d) ==> m.name == d) && (dir_name is None
                ==> m.name@ == "untitled"@)),
    {
        let scripts = script_files(names);
        proof {
            vstd::seq_lib::to_multiset_len(name_views(scripts@));
        }
        if scripts.len() == 0 {
            proof {
                let f = name_views(names@).filter(|n: Seq<char>| is_script_name(n));
                vstd::seq_lib::to_multiset_len(f);
            }
            return Err(ProjectError::EmptyManifest);
        }
        proof {
            let f = name_views(names@).filter(|n: Seq<char>| is_script_name(n));
            vstd::seq_lib::to_multiset_len(f);
        }
        let name = match dir_name {
            Some(d) => d,
            None => String::from_str("untitled"),
        };
        Ok(Manifest { name, scripts })
    }
}

} // verus!
