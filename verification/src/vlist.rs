//! The trusted-identifier matcher.  A set of full-length identifiers is
//! loaded once; membership queries use shorter, display-length identifiers,
//! and the first such query re-keys every member to that shorter length.
//! The member length only ever shrinks within one run; a query longer than
//! the current members is an unrecoverable consistency defect.

use vstd::prelude::*;

use crate::text::{has_member, lines_of, seq_views, split_lines, str_eq};
use crate::PipeError;

verus! {

/// True iff every member is at least `l` characters long, so each can be
/// re-keyed to its first `l` characters.
pub open spec fn rekey_ok(ms: Seq<Seq<char>>, l: nat) -> bool {
    forall|i: int| 0 <= i < ms.len() ==> ms[i].len() >= l
}

/// Every member replaced by its first `l` characters.
pub open spec fn rekeyed(ms: Seq<Seq<char>>, l: nat) -> Seq<Seq<char>> {
    ms.map_values(|m: Seq<char>| m.subrange(0, l as int))
}

/// What one membership query with an identifier of length `l` does to a
/// loaded set `m` (members, current key length): nothing when the length
/// already matches; a re-key of every member when the members are long
/// enough; otherwise the query is impossible and the run must stop.
pub open spec fn vstep(m: (Seq<Seq<char>>, nat), l: nat) -> Option<(Seq<Seq<char>>, nat)> {
    if m.1 == l {
        Some(m)
    } else if rekey_ok(m.0, l) {
        Some((rekeyed(m.0, l), l))
    } else {
        None
    }
}

/// Truncation is idempotent: a query that succeeds leaves the set with key
/// length `l`, and a second query of the same length changes nothing, so
/// the internal member length and every membership answer are the same
/// both times.
pub proof fn lemma_truncation_idempotent(m: (Seq<Seq<char>>, nat), l: nat)
    ensures
        vstep(m, l) matches Some(m2) ==> m2.1 == l && vstep(m2, l) == Some(m2),
{
}

/// The uniform-length invariant: members that all share the stored
/// length keep sharing it through every successful query — afterwards
/// every member has exactly the queried length, which is also the new
/// stored length — and on a nonempty set the stored length never grows.
pub proof fn lemma_uniform_length_preserved(m: (Seq<Seq<char>>, nat), l: nat)
    requires
        forall|i: int| 0 <= i < m.0.len() ==> #[trigger] m.0[i].len() == m.1,
        vstep(m, l) is Some,
    ensures
        ({
            let m2 = vstep(m, l).unwrap();
            &&& m2.1 == l
            &&& m.0.len() > 0 ==> l <= m.1
            &&& forall|i: int| 0 <= i < m2.0.len() ==> #[trigger] m2.0[i].len() == m2.1
        }),
{
    if m.1 != l {
        assert(rekey_ok(m.0, l));
        if m.0.len() > 0 {
            assert(m.0[0].len() == m.1);
            assert(m.0[0].len() >= l);
        }
        let m2 = vstep(m, l).unwrap();
        assert forall|i: int| 0 <= i < m2.0.len() implies #[trigger] m2.0[i].len() == m2.1 by {
            assert(m2.0[i] == m.0[i].subrange(0, l as int));
            assert(m.0[i].len() >= l);
        }
    }
}

/// Truncation is monotone: once a query has re-keyed the members to length
/// `l1`, any nonempty set refuses every later query of a greater length
/// `l2`, however `l2` compares to the original full length.
pub proof fn lemma_truncation_monotone(m: (Seq<Seq<char>>, nat), l1: nat, l2: nat)
    requires
        m.0.len() > 0,
        m.1 != l1,
        rekey_ok(m.0, l1),
        l1 < l2,
    ensures
        vstep(m, l1) == Some((rekeyed(m.0, l1), l1)),
        vstep((rekeyed(m.0, l1), l1), l2) is None,
{
    assert(rekeyed(m.0, l1)[0] == m.0[0].subrange(0, l1 as int));
    assert(rekeyed(m.0, l1)[0].len() == l1);
    assert(!rekey_ok(rekeyed(m.0, l1), l2));
}

/// True iff every entry of `v` is at least `l` characters long.
fn min_len_ok(v: &Vec<String>, l: usize) -> (r: bool)
    ensures
        r == rekey_ok(seq_views(v@), l as nat),
{
    let ghost ms = seq_views(v@);
    let n = v.len();
    let mut i: usize = 0;
    while i < n
        invariant
            0 <= i <= n,
            n == v@.len(),
            ms == seq_views(v@),
            forall|j: int| 0 <= j < i ==> ms[j].len() >= l as nat,
        decreases n - i,
    {
        if v[i].as_str().unicode_len() < l {
            proof {
                assert(ms[i as int].len() < l as nat);
            }
            return false;
        }
        i = i + 1;
    }
    true
}

/// Every entry of `v` cut down to its first `l` characters.
fn rekey_vec(v: &Vec<String>, l: usize) -> (r: Vec<String>)
    requires
        rekey_ok(seq_views(v@), l as nat),
    ensures
        seq_views(r@) == rekeyed(seq_views(v@), l as nat),
{
    let ghost ms = seq_views(v@);
    let n = v.len();
    let mut nv: Vec<String> = Vec::new();
    let mut i: usize = 0;
    while i < n
        invariant
            0 <= i <= n,
            n == v@.len(),
            ms == seq_views(v@),
            rekey_ok(ms, l as nat),
            nv@.len() == i,
            forall|j: int| 0 <= j < i ==> seq_views(nv@)[j] == ms[j].subrange(0, l as int),
        decreases n - i,
    {
        proof {
            assert(ms[i as int].len() >= l as nat);
        }
        let k: String = v[i].as_str().substring_char(0, l).to_owned();
        let ghost old_nv = nv@;
        nv.push(k);
        proof {
            assert(seq_views(nv@) =~= seq_views(old_nv).push(nv@.last()@));
        }
        i = i + 1;
    }
    proof {
        assert(seq_views(nv@) =~= rekeyed(ms, l as nat));
    }
    nv
}

/// True iff some entry of `v` equals `sha`.
fn find_member(v: &Vec<String>, sha: &str) -> (r: bool)
    ensures
        r == has_member(seq_views(v@), sha@),
{
    let ghost ms = seq_views(v@);
    let n = v.len();
    let mut i: usize = 0;
    while i < n
        invariant
            0 <= i <= n,
            n == v@.len(),
            ms == seq_views(v@),
            forall|j: int| 0 <= j < i ==> ms[j] != sha@,
        decreases n - i,
    {
        if str_eq(v[i].as_str(), sha) {
            proof {
                assert(ms[i as int] == sha@);
            }
            return true;
        }
        i = i + 1;
    }
    proof {
        assert(!has_member(ms, sha@));
    }
    false
}

/// The common length of freshly loaded members: the first member's
/// length, or zero for an empty set.  The blob carries identifiers of one
/// uniform (full) length, so this is every member's length at load time.
pub open spec fn load_len(ms: Seq<Seq<char>>) -> nat {
    if ms.len() == 0 {
        0
    } else {
        ms[0].len()
    }
}

/// The trusted identifiers, or the absent state when no trusted data was
/// available.  `len` is the members' stored length: the full length at
/// load time, re-keyed down by queries, only ever shrinking within a run.
pub struct VList {
    pub set: Option<Vec<String>>,
    pub len: usize,
}

impl VList {
    /// The mathematical model: absent, or the member views together with
    /// the stored member length.
    pub open spec fn model(self) -> Option<(Seq<Seq<char>>, nat)> {
        match self.set {
            Option::None => None,
            Option::Some(v) => Some((seq_views(v@), self.len as nat)),
        }
    }

    /// Builds the set from an optional text blob, one identifier per line,
    /// recording the loaded members' full length.  An absent blob yields
    /// the absent state, on which every query answers false.
    pub fn new(text: Option<&str>) -> (r: Self)
        ensures
            match text {
                None => r.model() is None,
                Some(t) => r.model() == Some((lines_of(t@), load_len(lines_of(t@)))),
            },
    {
        match text {
            None => VList { set: None, len: 0 },
            Some(t) => {
                let v = split_lines(t);
                let l: usize = if v.len() > 0 {
                    proof {
                        assert(seq_views(v@)[0] == v@[0]@);
                    }
                    v[0].as_str().unicode_len()
                } else {
                    0
                };
                VList { set: Some(v), len: l }
            },
        }
    }

    /// Answers whether `sha` is trusted.  An absent set answers false with
    /// no other work.  Otherwise the query re-keys the members to the
    /// length of `sha` first, as `vstep` says; a query longer than the
    /// members is refused as a consistency violation and leaves the set
    /// unchanged.
    pub fn contains(&mut self, sha: &str) -> (r: Result<bool, PipeError>)
        ensures
            old(self).model() is None ==> r == Result::<bool, PipeError>::Ok(false)
                && final(self).model() is None,
            old(self).model() matches Some(m) ==> match vstep(m, sha@.len()) {
                Option::None => r == Result::<bool, PipeError>::Err(
                    PipeError::TrustedLengthViolation,
                ) && final(self).model() == old(self).model(),
                Option::Some(m2) => final(self).model() == Some(m2) && r == Result::<
                    bool,
                    PipeError,
                >::Ok(has_member(m2.0, sha@)),
            },
    {
        let l = sha.unicode_len();
        if self.set.is_none() {
            return Ok(false);
        }
        let ghost m = self.model().unwrap();
        if self.len != l {
            let v = self.set.as_ref().unwrap();
            if !min_len_ok(v, l) {
                return Err(PipeError::TrustedLengthViolation);
            }
            let nv = rekey_vec(v, l);
            self.set = Some(nv);
            self.len = l;
        }
        let v = self.set.as_ref().unwrap();
        proof {
            assert(vstep(m, sha@.len()) == Some((seq_views(v@), self.len as nat)));
        }
        let found = find_member(v, sha);
        Ok(found)
    }
}

} // verus!
