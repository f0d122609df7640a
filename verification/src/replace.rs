//! Literal substring search and replacement over character sequences.

use vstd::prelude::*;

verus! {

/// Whether `pat` occurs in `s` at position `i`.
pub open spec fn matches_at(s: Seq<char>, pat: Seq<char>, i: int) -> bool {
    0 <= i && i + pat.len() <= s.len() && s.subrange(i, i + pat.len()) == pat
}

/// The first occurrence of `pat` at or after `i`.
pub open spec fn find_from(s: Seq<char>, pat: Seq<char>, i: nat) -> Option<nat>
    decreases s.len() + 1 - i,
{
    if i + pat.len() > s.len() {
        None
    } else if matches_at(s, pat, i as int) {
        Some(i)
    } else {
        find_from(s, pat, i + 1)
    }
}

/// The first occurrence of `pat` in `s`.
pub open spec fn first_match(s: Seq<char>, pat: Seq<char>) -> Option<nat> {
    find_from(s, pat, 0)
}

/// A found occurrence lies at or after the start of the search and
/// matches.
pub proof fn lemma_find_from_props(s: Seq<char>, pat: Seq<char>, i: nat, j: nat)
    requires
        find_from(s, pat, i) == Some(j),
    ensures
        i <= j,
        matches_at(s, pat, j as int),
    decreases s.len() + 1 - i,
{
    if i + pat.len() <= s.len() && !matches_at(s, pat, i as int) {
        lemma_find_from_props(s, pat, i + 1, j);
    }
}

/// Replace every non-overlapping occurrence of `pat`, left to right.
/// The empty pattern replaces nothing.
pub open spec fn replace_all(s: Seq<char>, pat: Seq<char>, rep: Seq<char>) -> Seq<char>
    decreases s.len(),
    via replace_all_dec
{
    if pat.len() == 0 {
        s
    } else {
        match first_match(s, pat) {
            None => s,
            Some(i) => s.take(i as int) + rep + replace_all(
                s.skip(i as int + pat.len() as int),
                pat,
                rep,
            ),
        }
    }
}

#[via_fn]
proof fn replace_all_dec(s: Seq<char>, pat: Seq<char>, rep: Seq<char>) {
    if pat.len() > 0 {
        match first_match(s, pat) {
            None => {},
            Some(i) => {
                lemma_find_from_props(s, pat, 0, i);
            },
        }
    }
}

/// Decide whether `pat` occurs at position `i`.
fn matches_at_str(s: &str, pat: &str, i: usize) -> (r: bool)
    ensures
        r == matches_at(s@, pat@, i as int),
{
    let n: usize = s.unicode_len();
    let m: usize = pat.unicode_len();
    if i > n || m > n - i {
        return false;
    }
    let mut k: usize = 0;
    while k < m
        invariant
            0 <= k <= m,
            i + m <= n,
            n == s@.len(),
            m == pat@.len(),
            forall|j: int| 0 <= j < k ==> s@[i + j] == pat@[j],
        decreases m - k,
    {
        if s.get_char(i + k) != pat.get_char(k) {
            proof {
                assert(s@.subrange(i as int, i as int + m as int)[k as int] != pat@[k as int]);
            }
            return false;
        }
        k = k + 1;
    }
    proof {
        assert(s@.subrange(i as int, i as int + m as int) =~= pat@);
    }
    true
}

/// Find the first occurrence of `pat` at or after `from`.
fn find_from_str(s: &str, pat: &str, from: usize) -> (r: Option<usize>)
    ensures
        match r {
            Some(j) => find_from(s@, pat@, from as nat) == Some(j as nat),
            None => find_from(s@, pat@, from as nat) is None,
        },
{
    let n: usize = s.unicode_len();
    let m: usize = pat.unicode_len();
    if from > n {
        return None;
    }
    if m == 0 {
        proof {
            assert(s@.subrange(from as int, from as int) =~= pat@);
        }
        return Some(from);
    }
    let mut i: usize = from;
    while m <= n - i
        invariant
            from <= i <= n,
            1 <= m,
            n == s@.len(),
            m == pat@.len(),
            find_from(s@, pat@, from as nat) == find_from(s@, pat@, i as nat),
        decreases n - i,
    {
        if matches_at_str(s, pat, i) {
            return Some(i);
        }
        i = i + 1;
    }
    None
}

/// Whether `pat` occurs anywhere in `s`.
pub fn contains_str(s: &str, pat: &str) -> (r: bool)
    ensures
        r == (first_match(s@, pat@) is Some),
{
    match find_from_str(s, pat, 0) {
        Some(_) => true,
        None => false,
    }
}

/// Replace every non-overlapping occurrence of `pat` with `rep`.
pub fn replace_all_str(s: &str, pat: &str, rep: &str) -> (r: String)
    ensures
        r@ == replace_all(s@, pat@, rep@),
    decreases s@.len(),
{
    let n: usize = s.unicode_len();
    let m: usize = pat.unicode_len();
    if m == 0 {
        return String::from_str(s);
    }
    match find_from_str(s, pat, 0) {
        None => String::from_str(s),
        Some(i) => {
            proof {
                lemma_find_from_props(s@, pat@, 0, i as nat);
            }
            let mut out = String::from_str(s.substring_char(0, i));
            out.append(rep);
            let rest = s.substring_char(i + m, n);
            proof {
                assert(rest@ =~= s@.skip(i as int + m as int));
                assert(s@.subrange(0, i as int) =~= s@.take(i as int));
            }
            let tail = replace_all_str(rest, pat, rep);
            out.append(tail.as_str());
            out
        },
    }
}

} // verus!
