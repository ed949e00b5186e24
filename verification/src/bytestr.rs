//! Substring search and replacement over byte strings.
//!
//! Listen addresses travel through the session core as their textual form
//! taken as bytes. Rewriting a wildcard bind address to a concrete one is
//! a replacement of every occurrence of one byte pattern by another, done
//! left to right over non-overlapping matches, exactly as these functions
//! define it.

use vstd::prelude::*;

verus! {

/// The pattern occurs in `s` at position `i`.
pub open spec fn is_match_at(s: Seq<u8>, pat: Seq<u8>, i: int) -> bool {
    0 <= i && i + pat.len() <= s.len() && s.subrange(i, i + pat.len()) == pat
}

/// The pattern occurs somewhere in `s`.
pub open spec fn contains_seq(s: Seq<u8>, pat: Seq<u8>) -> bool {
    exists|i: int| is_match_at(s, pat, i)
}

/// `s` with every occurrence of `pat` replaced by `sub`, scanning left to
/// right over non-overlapping matches. An empty pattern matches nowhere.
pub open spec fn replace_seq(s: Seq<u8>, pat: Seq<u8>, sub: Seq<u8>) -> Seq<u8>
    decreases s.len(),
{
    if pat.len() == 0 || s.len() < pat.len() {
        s
    } else if s.take(pat.len() as int) == pat {
        sub + replace_seq(s.skip(pat.len() as int), pat, sub)
    } else {
        s.take(1) + replace_seq(s.skip(1), pat, sub)
    }
}

/// A copy of `s[from..to]`.
pub fn copy_range(s: &Vec<u8>, from: usize, to: usize) -> (r: Vec<u8>)
    requires
        from <= to <= s.len(),
    ensures
        r@ == s@.subrange(from as int, to as int),
{
    let mut out: Vec<u8> = Vec::new();
    let mut i: usize = from;
    while i < to
        invariant
            from <= i <= to <= s.len(),
            out@ =~= s@.subrange(from as int, i as int),
        decreases to - i,
    {
        out.push(s[i]);
        i += 1;
    }
    proof {
        assert(out@ =~= s@.subrange(from as int, to as int));
    }
    out
}

/// Whether the pattern occurs in `s` at position `i`.
fn match_at(s: &Vec<u8>, pat: &Vec<u8>, i: usize) -> (r: bool)
    requires
        i + pat.len() <= s.len(),
    ensures
        r == is_match_at(s@, pat@, i as int),
{
    let mut j: usize = 0;
    while j < pat.len()
        invariant
            i + pat.len() <= s.len(),
            0 <= j <= pat.len(),
            forall|k: int| 0 <= k < j ==> s@[i + k] == pat@[k],
        decreases pat.len() - j,
    {
        if s[i + j] != pat[j] {
            proof {
                assert(s@.subrange(i as int, i + pat@.len())[j as int] != pat@[j as int]);
            }
            return false;
        }
        j += 1;
    }
    proof {
        assert(s@.subrange(i as int, i + pat@.len()) =~= pat@);
    }
    true
}

/// Whether the pattern occurs anywhere in `s`.
pub fn contains_bytes(s: &Vec<u8>, pat: &Vec<u8>) -> (r: bool)
    ensures
        r == contains_seq(s@, pat@),
{
    if pat.len() == 0 {
        proof {
            assert(s@.subrange(0, 0) =~= pat@);
            assert(is_match_at(s@, pat@, 0));
        }
        return true;
    }
    if pat.len() > s.len() {
        return false;
    }
    let mut i: usize = 0;
    while i <= s.len() - pat.len()
        invariant
            1 <= pat.len() <= s.len(),
            0 <= i <= s.len() - pat.len() + 1,
            forall|j: int| 0 <= j < i ==> !is_match_at(s@, pat@, j),
        decreases s.len() - i,
    {
        if match_at(s, pat, i) {
            return true;
        }
        i += 1;
    }
    false
}

/// `replace_bytes` from position `i` on.
fn replace_from(s: &Vec<u8>, pat: &Vec<u8>, sub: &Vec<u8>, i: usize) -> (r: Vec<u8>)
    requires
        i <= s.len(),
        pat.len() > 0,
    ensures
        r@ == replace_seq(s@.skip(i as int), pat@, sub@),
    decreases s.len() - i,
{
    let ghost tail = s@.skip(i as int);
    if s.len() - i < pat.len() {
        copy_range(s, i, s.len())
    } else if match_at(s, pat, i) {
        proof {
            assert(tail.take(pat@.len() as int) =~= s@.subrange(i as int, i + pat@.len()));
            assert(tail.skip(pat@.len() as int) =~= s@.skip(i + pat@.len()));
        }
        let mut out = copy_range(sub, 0, sub.len());
        let mut rest = replace_from(s, pat, sub, i + pat.len());
        out.append(&mut rest);
        proof {
            assert(sub@.subrange(0, sub@.len() as int) =~= sub@);
        }
        out
    } else {
        proof {
            assert(tail.take(pat@.len() as int) =~= s@.subrange(i as int, i + pat@.len()));
            assert(tail.skip(1) =~= s@.skip(i + 1));
            assert(tail.take(1) =~= seq![s@[i as int]]);
        }
        let mut out: Vec<u8> = Vec::new();
        out.push(s[i]);
        let mut rest = replace_from(s, pat, sub, i + 1);
        out.append(&mut rest);
        proof {
            assert(Seq::<u8>::empty().push(s@[i as int]) =~= seq![s@[i as int]]);
        }
        out
    }
}

/// `s` with every occurrence of `pat` replaced by `sub`, scanning left to
/// right over non-overlapping matches.
pub fn replace_bytes(s: &Vec<u8>, pat: &Vec<u8>, sub: &Vec<u8>) -> (r: Vec<u8>)
    ensures
        r@ == replace_seq(s@, pat@, sub@),
{
    if pat.len() == 0 {
        let r = copy_range(s, 0, s.len());
        proof {
            assert(s@.subrange(0, s@.len() as int) =~= s@);
        }
        r
    } else {
        let r = replace_from(s, pat, sub, 0);
        proof {
            assert(s@.skip(0) =~= s@);
        }
        r
    }
}

} // verus!
