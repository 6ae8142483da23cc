//! Character-level text helpers: locating a separator, splitting a line
//! into fields, and the inverse join used to state the round-trip law.

use vstd::prelude::*;

verus! {

/// Index of the first occurrence of `c` in `s`, or `-1` when `c` is absent.
pub open spec fn find_idx(s: Seq<char>, c: char) -> int
    decreases s.len(),
{
    if s.len() == 0 {
        -1
    } else if s[0] == c {
        0
    } else {
        let r = find_idx(s.drop_first(), c);
        if r < 0 {
            -1
        } else {
            r + 1
        }
    }
}

/// `find_idx` returns either `-1` (no occurrence at all) or the position of
/// the first occurrence.
pub proof fn lemma_find_idx(s: Seq<char>, c: char)
    ensures
        find_idx(s, c) < 0 ==> find_idx(s, c) == -1 && (forall|j: int|
            0 <= j < s.len() ==> s[j] != c),
        find_idx(s, c) >= 0 ==> {
            &&& find_idx(s, c) < s.len()
            &&& s[find_idx(s, c)] == c
            &&& forall|j: int| 0 <= j < find_idx(s, c) ==> s[j] != c
        },
    decreases s.len(),
{
    if s.len() == 0 {
    } else if s[0] == c {
    } else {
        lemma_find_idx(s.drop_first(), c);
        let r = find_idx(s.drop_first(), c);
        if r >= 0 {
            assert forall|j: int| 0 <= j < r + 1 implies s[j] != c by {
                if j > 0 {
                    assert(s.drop_first()[j - 1] != c);
                }
            }
        } else {
            assert forall|j: int| 0 <= j < s.len() implies s[j] != c by {
                if j > 0 {
                    assert(s.drop_first()[j - 1] != c);
                }
            }
        }
    }
}

/// An index that carries an occurrence and excludes every earlier one is
/// exactly `find_idx`.
pub proof fn lemma_find_idx_unique(s: Seq<char>, c: char, i: int)
    requires
        0 <= i < s.len(),
        s[i] == c,
        forall|j: int| 0 <= j < i ==> s[j] != c,
    ensures
        find_idx(s, c) == i,
{
    lemma_find_idx(s, c);
}

/// Splits `s` on every occurrence of `c`.  A string without `c` yields one
/// part; each occurrence of `c` opens a further part.
pub open spec fn split_on(s: Seq<char>, c: char) -> Seq<Seq<char>>
    decreases s.len(),
{
    let i = find_idx(s, c);
    if 0 <= i < s.len() {
        seq![s.subrange(0, i)] + split_on(s.subrange(i + 1, s.len() as int), c)
    } else {
        seq![s]
    }
}

/// A split always has at least one part.
pub proof fn lemma_split_on_nonempty(s: Seq<char>, c: char)
    ensures
        split_on(s, c).len() >= 1,
{
}

/// Joins `parts` back into one string, putting `c` between adjacent parts.
pub open spec fn join_with(parts: Seq<Seq<char>>, c: char) -> Seq<char>
    decreases parts.len(),
{
    if parts.len() == 0 {
        Seq::empty()
    } else if parts.len() == 1 {
        parts[0]
    } else {
        parts[0] + seq![c] + join_with(parts.drop_first(), c)
    }
}

/// Splitting and re-joining with the same separator is the identity: no
/// information is lost by taking a line apart into fields.
pub proof fn lemma_split_join(s: Seq<char>, c: char)
    ensures
        join_with(split_on(s, c), c) == s,
    decreases s.len(),
{
    let i = find_idx(s, c);
    lemma_find_idx(s, c);
    if 0 <= i < s.len() {
        let tail = s.subrange(i + 1, s.len() as int);
        lemma_split_join(tail, c);
        lemma_split_on_nonempty(tail, c);
        let parts = seq![s.subrange(0, i)] + split_on(tail, c);
        assert(parts.drop_first() =~= split_on(tail, c));
        if split_on(tail, c).len() == 1 {
            assert(join_with(parts, c) == parts[0] + seq![c] + join_with(parts.drop_first(), c));
        }
        assert(join_with(parts, c) =~= s);
    } else {
        assert(join_with(seq![s], c) == s);
    }
}

/// In `a`, then `c`, then `b`, the first occurrence of `c` stands right
/// after `a` whenever `a` itself is free of `c`.
pub proof fn lemma_find_idx_prefix(a: Seq<char>, b: Seq<char>, c: char)
    requires
        find_idx(a, c) < 0,
    ensures
        find_idx(a + seq![c] + b, c) == a.len(),
{
    lemma_find_idx(a, c);
    let s = a + seq![c] + b;
    assert(s[a.len() as int] == c);
    assert forall|j: int| 0 <= j < a.len() implies s[j] != c by {
        assert(s[j] == a[j]);
    }
    lemma_find_idx_unique(s, c, a.len() as int);
}

/// Joining parts that are free of the separator and splitting the result
/// again recovers exactly the original parts: a line built from
/// separator-free fields parses back to those fields.
pub proof fn lemma_join_split(parts: Seq<Seq<char>>, c: char)
    requires
        parts.len() >= 1,
        forall|i: int| 0 <= i < parts.len() ==> find_idx(#[trigger] parts[i], c) < 0,
    ensures
        split_on(join_with(parts, c), c) == parts,
    decreases parts.len(),
{
    if parts.len() == 1 {
        lemma_find_idx(parts[0], c);
        assert(split_on(join_with(parts, c), c) =~= parts);
    } else {
        let a = parts[0];
        let rest = parts.drop_first();
        let jr = join_with(rest, c);
        let j = join_with(parts, c);
        lemma_find_idx_prefix(a, jr, c);
        let i = a.len() as int;
        assert(j.subrange(0, i) =~= a);
        assert(j.subrange(i + 1, j.len() as int) =~= jr);
        assert forall|k: int| 0 <= k < rest.len() implies find_idx(
            #[trigger] rest[k],
            c,
        ) < 0 by {
            assert(rest[k] == parts[k + 1]);
        }
        lemma_join_split(rest, c);
        assert(split_on(j, c) == seq![a] + split_on(jr, c));
        assert(seq![a] + rest =~= parts);
    }
}

/// The views of a sequence of owned strings.
pub open spec fn seq_views(v: Seq<String>) -> Seq<Seq<char>> {
    v.map_values(|x: String| x@)
}

/// True iff `s` is one of the entries of `ms`.
pub open spec fn has_member(ms: Seq<Seq<char>>, s: Seq<char>) -> bool {
    exists|i: int| 0 <= i < ms.len() && ms[i] == s
}

/// Finds the first occurrence of `c` in `s`.
pub fn find_char(s: &str, c: char) -> (r: Option<usize>)
    ensures
        match r {
            Some(i) => 0 <= i < s@.len() && find_idx(s@, c) == i,
            None => find_idx(s@, c) == -1,
        },
{
    let n = s.unicode_len();
    let mut i: usize = 0;
    while i < n
        invariant
            0 <= i <= n,
            n == s@.len(),
            forall|j: int| 0 <= j < i ==> s@[j] != c,
        decreases n - i,
    {
        if s.get_char(i) == c {
            proof {
                lemma_find_idx_unique(s@, c, i as int);
            }
            return Some(i);
        }
        i = i + 1;
    }
    proof {
        lemma_find_idx(s@, c);
    }
    None
}

/// True iff the views of `a` and `b` are the same character sequence.
pub fn str_eq(a: &str, b: &str) -> (r: bool)
    ensures
        r == (a@ == b@),
{
    let n = a.unicode_len();
    if n != b.unicode_len() {
        return false;
    }
    let mut i: usize = 0;
    while i < n
        invariant
            0 <= i <= n,
            n == a@.len(),
            n == b@.len(),
            forall|j: int| 0 <= j < i ==> a@[j] == b@[j],
        decreases n - i,
    {
        if a.get_char(i) != b.get_char(i) {
            return false;
        }
        i = i + 1;
    }
    proof {
        assert(a@ =~= b@);
    }
    true
}

/// Splits `s` on every occurrence of `c` into owned parts.
pub fn split_str(s: &str, c: char) -> (r: Vec<String>)
    ensures
        seq_views(r@) == split_on(s@, c),
{
    let mut parts: Vec<String> = Vec::new();
    let mut rest: String = s.to_owned();
    loop
        invariant
            split_on(s@, c) =~= seq_views(parts@) + split_on(rest@, c),
        decreases rest@.len(),
    {
        match find_char(rest.as_str(), c) {
            None => {
                let ghost old_parts = parts@;
                let ghost last = rest@;
                parts.push(rest);
                proof {
                    assert(seq_views(parts@) =~= seq_views(old_parts).push(last));
                    assert(seq_views(parts@) =~= split_on(s@, c));
                }
                return parts;
            },
            Some(i) => {
                let n = rest.as_str().unicode_len();
                let pre: String = rest.as_str().substring_char(0, i).to_owned();
                let suf: String = rest.as_str().substring_char(i + 1, n).to_owned();
                let ghost old_parts = parts@;
                let ghost old_rest = rest@;
                parts.push(pre);
                rest = suf;
                proof {
                    assert(split_on(old_rest, c) == seq![old_rest.subrange(0, i as int)]
                        + split_on(old_rest.subrange(i + 1, old_rest.len() as int), c));
                    assert(seq_views(parts@) =~= seq_views(old_parts).push(old_rest.subrange(
                        0,
                        i as int,
                    )));
                    assert(seq_views(parts@) + split_on(rest@, c) =~= seq_views(old_parts)
                        + split_on(old_rest, c));
                }
            },
        }
    }
}

/// Removes one trailing carriage return, if present.
pub open spec fn strip_cr(l: Seq<char>) -> Seq<char> {
    if l.len() > 0 && l[l.len() - 1] == '\r' {
        l.drop_last()
    } else {
        l
    }
}

/// The lines of `t`: `t` split on newlines, a trailing empty segment
/// dropped, and one trailing carriage return removed from each line.
pub open spec fn lines_of(t: Seq<char>) -> Seq<Seq<char>> {
    let parts = split_on(t, '\n');
    let kept = if parts.len() > 0 && parts.last().len() == 0 {
        parts.drop_last()
    } else {
        parts
    };
    kept.map_values(|l: Seq<char>| strip_cr(l))
}

/// Splits `t` into its lines.
pub fn split_lines(t: &str) -> (r: Vec<String>)
    ensures
        seq_views(r@) == lines_of(t@),
{
    let mut parts = split_str(t, '\n');
    let ghost all_parts = seq_views(parts@);
    if parts.len() > 0 && parts[parts.len() - 1].as_str().unicode_len() == 0 {
        parts.pop();
        proof {
            assert(seq_views(parts@) =~= all_parts.drop_last());
        }
    }
    let ghost kept = seq_views(parts@);
    let n = parts.len();
    let mut out: Vec<String> = Vec::new();
    let mut i: usize = 0;
    while i < n
        invariant
            0 <= i <= n,
            n == parts@.len(),
            seq_views(parts@) == kept,
            seq_views(out@) =~= kept.take(i as int).map_values(|l: Seq<char>| strip_cr(l)),
        decreases n - i,
    {
        let p = &parts[i];
        let m = p.as_str().unicode_len();
        let stripped: String = if m > 0 && p.as_str().get_char(m - 1) == '\r' {
            p.as_str().substring_char(0, m - 1).to_owned()
        } else {
            p.as_str().to_owned()
        };
        proof {
            assert(stripped@ =~= strip_cr(kept[i as int]));
        }
        let ghost old_out = out@;
        out.push(stripped);
        proof {
            assert(seq_views(out@) =~= seq_views(old_out).push(strip_cr(kept[i as int])));
            assert(kept.take(i + 1) =~= kept.take(i as int).push(kept[i as int]));
            assert(kept.take(i + 1).map_values(|l: Seq<char>| strip_cr(l)) =~= kept.take(
                i as int,
            ).map_values(|l: Seq<char>| strip_cr(l)).push(strip_cr(kept[i as int])));
        }
        i = i + 1;
    }
    proof {
        assert(kept.take(n as int) =~= kept);
        assert(seq_views(out@) =~= lines_of(t@));
    }
    out
}

} // verus!
