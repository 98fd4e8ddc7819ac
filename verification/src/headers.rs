//! Header collections as lists of key/value pairs with insert-or-overwrite.
//!
//! Both the request and the response keep their headers as a list of pairs
//! whose keys are unique; inserting under an existing key replaces the value
//! in place, so the last write wins and no entry is ever removed.
use vstd::prelude::*;

use crate::strutil::str_eq;

verus! {

/// The views of a list of owned string pairs.
pub open spec fn pair_views(ps: Seq<(String, String)>) -> Seq<(Seq<char>, Seq<char>)> {
    ps.map_values(|p: (String, String)| (p.0@, p.1@))
}

/// The first position at or after `i` whose key is `k`, if any.
pub open spec fn first_key_idx_from(ps: Seq<(Seq<char>, Seq<char>)>, k: Seq<char>, i: int) -> Option<
    int,
>
    decreases ps.len() + 1 - i,
{
    if i < 0 || i >= ps.len() {
        None
    } else if ps[i].0 == k {
        Some(i)
    } else {
        first_key_idx_from(ps, k, i + 1)
    }
}

/// The first position whose key is `k`, if any.
pub open spec fn first_key_idx(ps: Seq<(Seq<char>, Seq<char>)>, k: Seq<char>) -> Option<int> {
    first_key_idx_from(ps, k, 0)
}

/// `first_key_idx_from` finds exactly the earliest entry at or after `i0`.
pub proof fn lemma_first_key_idx_from_props(ps: Seq<(Seq<char>, Seq<char>)>, k: Seq<char>, i0: int)
    requires
        0 <= i0,
    ensures
        match first_key_idx_from(ps, k, i0) {
            Some(i) => i0 <= i < ps.len() && ps[i].0 == k && (forall|j: int|
                i0 <= j < i ==> (#[trigger] ps[j]).0 != k),
            None => forall|j: int| i0 <= j < ps.len() ==> (#[trigger] ps[j]).0 != k,
        },
    decreases ps.len() + 1 - i0,
{
    if i0 < ps.len() && ps[i0].0 != k {
        lemma_first_key_idx_from_props(ps, k, i0 + 1);
    }
}

/// `first_key_idx` finds exactly the earliest entry with the key.
pub proof fn lemma_first_key_idx_props(ps: Seq<(Seq<char>, Seq<char>)>, k: Seq<char>)
    ensures
        match first_key_idx(ps, k) {
            Some(i) => 0 <= i < ps.len() && ps[i].0 == k && (forall|j: int|
                0 <= j < i ==> (#[trigger] ps[j]).0 != k),
            None => forall|j: int| 0 <= j < ps.len() ==> (#[trigger] ps[j]).0 != k,
        },
{
    lemma_first_key_idx_from_props(ps, k, 0);
}

/// Insert-or-overwrite: replaces the value of the first entry keyed `k`, or
/// appends a new entry at the end.
pub open spec fn spec_insert_pair(
    ps: Seq<(Seq<char>, Seq<char>)>,
    k: Seq<char>,
    v: Seq<char>,
) -> Seq<(Seq<char>, Seq<char>)> {
    match first_key_idx(ps, k) {
        Some(i) => ps.update(i, (k, v)),
        None => ps.push((k, v)),
    }
}

/// No two entries share a key.
pub open spec fn unique_keys(ps: Seq<(Seq<char>, Seq<char>)>) -> bool {
    forall|i: int, j: int|
        0 <= i < j < ps.len() ==> (#[trigger] ps[i]).0 != (#[trigger] ps[j]).0
}

/// Insert-or-overwrite keeps the keys unique.
pub proof fn lemma_insert_pair_unique(ps: Seq<(Seq<char>, Seq<char>)>, k: Seq<char>, v: Seq<char>)
    requires
        unique_keys(ps),
    ensures
        unique_keys(spec_insert_pair(ps, k, v)),
{
    lemma_first_key_idx_props(ps, k);
    match first_key_idx(ps, k) {
        Some(i) => {
            let r = ps.update(i, (k, v));
            assert forall|a: int, b: int| 0 <= a < b < r.len() implies (#[trigger] r[a]).0 != (
            #[trigger] r[b]).0 by {
                assert(ps[i].0 == k);
            }
        },
        None => {
            let r = ps.push((k, v));
            assert forall|a: int, b: int| 0 <= a < b < r.len() implies (#[trigger] r[a]).0 != (
            #[trigger] r[b]).0 by {
                if b == ps.len() {
                    assert(ps[a].0 != k);
                }
            }
        },
    }
}

/// Inserting under a key that is already present replaces that entry's
/// value, leaves every other entry as it was, and keeps the number of
/// entries unchanged.
pub proof fn lemma_insert_pair_overrides(
    ps: Seq<(Seq<char>, Seq<char>)>,
    k: Seq<char>,
    v: Seq<char>,
)
    requires
        exists|i: int| 0 <= i < ps.len() && (#[trigger] ps[i]).0 == k,
    ensures
        spec_insert_pair(ps, k, v).len() == ps.len(),
        first_key_idx(ps, k) is Some,
        spec_insert_pair(ps, k, v)[first_key_idx(ps, k)->0] == (k, v),
        forall|j: int|
            0 <= j < ps.len() && j != first_key_idx(ps, k)->0 ==> spec_insert_pair(ps, k, v)[j]
                == ps[j],
{
    lemma_first_key_idx_props(ps, k);
    match first_key_idx(ps, k) {
        Some(i) => {},
        None => {
            let w = choose|i: int| 0 <= i < ps.len() && (#[trigger] ps[i]).0 == k;
            assert(ps[w].0 != k);
        },
    }
}

/// Replaces the value of the first entry keyed `key`, or appends the pair.
pub fn insert_pair(hs: &mut Vec<(String, String)>, key: String, value: String)
    ensures
        pair_views(final(hs)@) == spec_insert_pair(pair_views(old(hs)@), key@, value@),
{
    let ghost orig = pair_views(old(hs)@);
    let mut i: usize = 0;
    while i < hs.len()
        invariant
            i <= hs.len(),
            hs@ == old(hs)@,
            orig == pair_views(hs@),
            first_key_idx(orig, key@) == first_key_idx_from(orig, key@, i as int),
        decreases hs.len() - i,
    {
        if str_eq(hs[i].0.as_str(), key.as_str()) {
            proof {
                assert(first_key_idx(orig, key@) == Some(i as int));
            }
            hs[i] = (key, value);
            proof {
                assert(pair_views(hs@) =~= orig.update(i as int, (key@, value@)));
            }
            return ;
        }
        i += 1;
    }
    proof {
        assert(first_key_idx(orig, key@) is None);
    }
    let ghost before = pair_views(hs@);
    hs.push((key, value));
    proof {
        assert(pair_views(hs@) =~= before.push((key@, value@)));
    }
}

} // verus!
