//! Verified building blocks for the string processing the client does:
//! first-occurrence search, splitting on a separator, whitespace trimming
//! and character-wise equality, each tied to a specification-level model.
use vstd::prelude::*;

verus! {

/// The pattern `pat` occurs in `s` at position `i`.
pub open spec fn pat_at(s: Seq<char>, pat: Seq<char>, i: int) -> bool {
    &&& 0 <= i
    &&& i + pat.len() <= s.len()
    &&& s.subrange(i, i + pat.len()) == pat
}

/// The first position at or after `i` where `pat` occurs in `s`, if any.
pub open spec fn first_occ_from(s: Seq<char>, pat: Seq<char>, i: int) -> Option<int>
    decreases s.len() + 1 - i,
{
    if i < 0 || i + pat.len() > s.len() {
        None
    } else if s.subrange(i, i + pat.len()) == pat {
        Some(i)
    } else {
        first_occ_from(s, pat, i + 1)
    }
}

/// The first position where `pat` occurs in `s`, if any.
pub open spec fn first_occ(s: Seq<char>, pat: Seq<char>) -> Option<int> {
    first_occ_from(s, pat, 0)
}

/// `first_occ_from` finds exactly the earliest occurrence at or after `i0`.
pub proof fn lemma_first_occ_from_props(s: Seq<char>, pat: Seq<char>, i0: int)
    requires
        0 <= i0,
    ensures
        match first_occ_from(s, pat, i0) {
            Some(i) => i0 <= i && pat_at(s, pat, i) && (forall|j: int|
                i0 <= j < i ==> !pat_at(s, pat, j)),
            None => forall|j: int| i0 <= j ==> !pat_at(s, pat, j),
        },
    decreases s.len() + 1 - i0,
{
    if i0 + pat.len() > s.len() {
    } else if s.subrange(i0, i0 + pat.len() as int) == pat {
    } else {
        lemma_first_occ_from_props(s, pat, i0 + 1);
    }
}

/// `first_occ` finds exactly the earliest occurrence.
pub proof fn lemma_first_occ_props(s: Seq<char>, pat: Seq<char>)
    ensures
        match first_occ(s, pat) {
            Some(i) => pat_at(s, pat, i) && (forall|j: int| 0 <= j < i ==> !pat_at(s, pat, j)),
            None => forall|j: int| !pat_at(s, pat, j),
        },
{
    lemma_first_occ_from_props(s, pat, 0);
    if first_occ(s, pat) is None {
        assert(forall|j: int| j < 0 ==> !pat_at(s, pat, j));
    }
}

/// Whether `pat` occurs somewhere in `s`.
pub open spec fn contains_pat(s: Seq<char>, pat: Seq<char>) -> bool {
    first_occ(s, pat) is Some
}

/// An occurrence anywhere implies `first_occ` finds one, and conversely.
pub proof fn lemma_contains_iff_occurrence(s: Seq<char>, pat: Seq<char>)
    ensures
        contains_pat(s, pat) <==> exists|i: int| pat_at(s, pat, i),
{
    lemma_first_occ_props(s, pat);
    if first_occ(s, pat) is Some {
        let i = first_occ(s, pat)->0;
        assert(pat_at(s, pat, i));
    }
}

/// Splitting `s` on every occurrence of `sep`, left to right. With no
/// occurrence the result is the single piece `s`; a separator is never part
/// of any piece.
pub open spec fn split_on(s: Seq<char>, sep: Seq<char>) -> Seq<Seq<char>>
    decreases s.len(),
{
    if sep.len() == 0 {
        seq![s]
    } else {
        match first_occ(s, sep) {
            Some(i) => {
                if 0 <= i && i + sep.len() <= s.len() {
                    seq![s.subrange(0, i)] + split_on(
                        s.subrange(i + sep.len(), s.len() as int),
                        sep,
                    )
                } else {
                    seq![s]
                }
            },
            None => seq![s],
        }
    }
}

/// A split always yields at least one piece.
pub proof fn lemma_split_on_nonempty(s: Seq<char>, sep: Seq<char>)
    ensures
        split_on(s, sep).len() >= 1,
    decreases s.len(),
{
    if sep.len() > 0 {
        match first_occ(s, sep) {
            Some(i) => {
                if 0 <= i && i + sep.len() <= s.len() {
                    lemma_split_on_nonempty(s.subrange(i + sep.len(), s.len() as int), sep);
                }
            },
            None => {},
        }
    }
}

/// The views of a sequence of owned strings.
pub open spec fn views_of(ss: Seq<String>) -> Seq<Seq<char>> {
    ss.map_values(|x: String| x@)
}

/// True when the character is Unicode white space, as `str::trim` sees it.
pub open spec fn is_space_char(c: char) -> bool {
    let u = c as u32;
    ||| u == 0x20
    ||| (0x9 <= u && u <= 0xd)
    ||| u == 0x85
    ||| u == 0xa0
    ||| u == 0x1680
    ||| (0x2000 <= u && u <= 0x200a)
    ||| u == 0x2028
    ||| u == 0x2029
    ||| u == 0x202f
    ||| u == 0x205f
    ||| u == 0x3000
}

/// `s` with leading white space removed.
pub open spec fn trim_start_spec(s: Seq<char>) -> Seq<char>
    decreases s.len(),
{
    if s.len() > 0 && is_space_char(s[0]) {
        trim_start_spec(s.drop_first())
    } else {
        s
    }
}

/// `s` with trailing white space removed.
pub open spec fn trim_end_spec(s: Seq<char>) -> Seq<char>
    decreases s.len(),
{
    if s.len() > 0 && is_space_char(s[s.len() - 1]) {
        trim_end_spec(s.drop_last())
    } else {
        s
    }
}

/// `s` with white space removed at both ends.
pub open spec fn trim_spec(s: Seq<char>) -> Seq<char> {
    trim_end_spec(trim_start_spec(s))
}

/// Decides whether the character counts as white space.
pub fn is_space(c: char) -> (r: bool)
    ensures
        r == is_space_char(c),
{
    let u = c as u32;
    u == 0x20 || (0x9 <= u && u <= 0xd) || u == 0x85 || u == 0xa0 || u == 0x1680 || (0x2000 <= u
        && u <= 0x200a) || u == 0x2028 || u == 0x2029 || u == 0x202f || u == 0x205f || u == 0x3000
}

/// Decides whether `pat` occurs in `s` at position `i`.
pub fn pat_matches_at(s: &str, pat: &str, i: usize, n: usize, m: usize) -> (r: bool)
    requires
        n == s@.len(),
        m == pat@.len(),
        i + m <= n,
    ensures
        r == pat_at(s@, pat@, i as int),
{
    let mut j: usize = 0;
    while j < m
        invariant
            j <= m,
            n == s@.len(),
            m == pat@.len(),
            i + m <= n,
            forall|k: int| 0 <= k < j ==> s@[i + k] == pat@[k],
        decreases m - j,
    {
        if s.get_char(i + j) != pat.get_char(j) {
            assert(s@.subrange(i as int, i + m) != pat@) by {
                assert(s@.subrange(i as int, i + m)[j as int] != pat@[j as int]);
            }
            return false;
        }
        j += 1;
    }
    assert(s@.subrange(i as int, i + m) =~= pat@);
    true
}

/// Finds the first occurrence of `pat` in `s`, if there is one.
pub fn find_first(s: &str, pat: &str) -> (r: Option<usize>)
    ensures
        match r {
            Some(i) => first_occ(s@, pat@) == Some(i as int) && pat_at(s@, pat@, i as int),
            None => first_occ(s@, pat@) is None,
        },
{
    let n = s.unicode_len();
    let m = pat.unicode_len();
    if m > n {
        return None;
    }
    if m == 0 {
        assert(s@.subrange(0, 0) =~= pat@);
        return Some(0);
    }
    let limit = n - m;
    let mut i: usize = 0;
    while i <= limit
        invariant
            n == s@.len(),
            m == pat@.len(),
            1 <= m <= n,
            limit == n - m,
            i <= limit + 1,
            first_occ(s@, pat@) == first_occ_from(s@, pat@, i as int),
        decreases n - i,
    {
        if pat_matches_at(s, pat, i, n, m) {
            return Some(i);
        }
        i += 1;
    }
    assert(first_occ_from(s@, pat@, i as int) is None);
    None
}

/// Splits `s` on every occurrence of `sep`, left to right.
pub fn split_str(s: &str, sep: &str) -> (r: Vec<String>)
    requires
        sep@.len() > 0,
    ensures
        views_of(r@) == split_on(s@, sep@),
{
    let sep_len = sep.unicode_len();
    let mut rest: String = s.to_owned();
    let mut out: Vec<String> = Vec::new();
    loop
        invariant
            sep_len == sep@.len(),
            sep@.len() > 0,
            split_on(s@, sep@) == views_of(out@) + split_on(rest@, sep@),
        decreases rest@.len(),
    {
        let rest_len = rest.as_str().unicode_len();
        match find_first(rest.as_str(), sep) {
            Some(i) => {
                let left = rest.as_str().substring_char(0, i).to_owned();
                let right = rest.as_str().substring_char(i + sep_len, rest_len).to_owned();
                proof {
                    assert(split_on(rest@, sep@) == seq![rest@.subrange(0, i as int)] + split_on(
                        rest@.subrange(i + sep_len, rest@.len() as int),
                        sep@,
                    ));
                    assert(views_of(out@.push(left)) =~= views_of(out@) + seq![left@]);
                    assert(views_of(out@) + split_on(rest@, sep@) =~= (views_of(out@) + seq![
                        left@,
                    ]) + split_on(right@, sep@));
                }
                out.push(left);
                rest = right;
            },
            None => {
                proof {
                    assert(split_on(rest@, sep@) == seq![rest@]);
                    assert(views_of(out@.push(rest)) =~= views_of(out@) + seq![rest@]);
                    assert(views_of(out@) + seq![rest@] =~= views_of(out@.push(rest)));
                }
                out.push(rest);
                return out;
            },
        }
    }
}

/// Decides character-wise equality of two string slices.
pub fn str_eq(a: &str, b: &str) -> (r: bool)
    ensures
        r == (a@ == b@),
{
    let an = a.unicode_len();
    let bn = b.unicode_len();
    if an != bn {
        return false;
    }
    let mut i: usize = 0;
    while i < an
        invariant
            an == a@.len(),
            an == b@.len(),
            i <= an,
            forall|j: int| 0 <= j < i ==> a@[j] == b@[j],
        decreases an - i,
    {
        if a.get_char(i) != b.get_char(i) {
            assert(a@ != b@) by {
                assert(a@[i as int] != b@[i as int]);
            }
            return false;
        }
        i += 1;
    }
    assert(a@ =~= b@);
    true
}

/// Removes white space from both ends of `s`, as `str::trim` does.
pub fn trim(s: &str) -> (r: String)
    ensures
        r@ == trim_spec(s@),
{
    let n = s.unicode_len();
    proof {
        assert(s@.subrange(0, n as int) =~= s@);
    }
    let mut a: usize = 0;
    while a < n && is_space(s.get_char(a))
        invariant
            n == s@.len(),
            a <= n,
            trim_start_spec(s@) == trim_start_spec(s@.subrange(a as int, n as int)),
        decreases n - a,
    {
        proof {
            assert(s@.subrange(a as int, n as int).drop_first() =~= s@.subrange(
                a + 1,
                n as int,
            ));
        }
        a += 1;
    }
    proof {
        assert(trim_start_spec(s@) == s@.subrange(a as int, n as int));
    }
    let mut b: usize = n;
    while b > a && is_space(s.get_char(b - 1))
        invariant
            n == s@.len(),
            a <= b <= n,
            trim_start_spec(s@) == s@.subrange(a as int, n as int),
            trim_end_spec(s@.subrange(a as int, n as int)) == trim_end_spec(
                s@.subrange(a as int, b as int),
            ),
        decreases b - a,
    {
        proof {
            assert(s@.subrange(a as int, b as int).drop_last() =~= s@.subrange(
                a as int,
                b - 1,
            ));
        }
        b -= 1;
    }
    proof {
        assert(trim_end_spec(s@.subrange(a as int, b as int)) == s@.subrange(a as int, b as int));
    }
    s.substring_char(a, b).to_owned()
}

} // verus!
