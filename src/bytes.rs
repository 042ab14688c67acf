//! Byte-sequence helpers shared by the wire codec.
use vstd::prelude::*;

verus! {

/// Appends `s` to `out`.
pub fn extend(out: &mut Vec<u8>, s: &[u8])
    ensures
        final(out)@ == old(out)@ + s@,
{
    let mut i: usize = 0;
    while i < s.len()
        invariant
            i <= s@.len(),
            out@ == old(out)@ + s@.subrange(0, i as int),
        decreases s@.len() - i,
    {
        out.push(s[i]);
        i = i + 1;
        assert(s@.subrange(0, i as int) =~= s@.subrange(0, i - 1 as int).push(s@[i - 1]));
    }
    assert(s@.subrange(0, s@.len() as int) =~= s@);
}

/// Whether `a` holds `pat` at `lo`.
pub fn holds_at(a: &[u8], lo: usize, pat: &[u8]) -> (r: bool)
    ensures
        r == (lo + pat@.len() <= a@.len() && a@.subrange(lo as int, lo + pat@.len()) == pat@),
{
    if lo > a.len() || pat.len() > a.len() - lo {
        return false;
    }
    let mut i: usize = 0;
    while i < pat.len()
        invariant
            i <= pat@.len(),
            lo + pat@.len() <= a@.len(),
            a@.len() == a.len(),
            pat@.len() == pat.len(),
            forall|j: int| 0 <= j < i ==> a@[lo + j] == pat@[j],
        decreases pat@.len() - i,
    {
        if a[lo + i] != pat[i] {
            assert(a@.subrange(lo as int, lo + pat@.len())[i as int] != pat@[i as int]);
            return false;
        }
        i = i + 1;
    }
    assert(a@.subrange(lo as int, lo + pat@.len()) =~= pat@);
    true
}

/// Whether two byte sequences are equal.
pub fn bytes_eq(a: &[u8], b: &[u8]) -> (r: bool)
    ensures
        r == (a@ == b@),
{
    if a.len() != b.len() {
        return false;
    }
    let r = holds_at(a, 0, b);
    assert(a@.subrange(0, b@.len() as int) =~= a@);
    r
}

/// A copy of `a[lo..hi]`.
pub fn copy_range(a: &[u8], lo: usize, hi: usize) -> (r: Vec<u8>)
    requires
        lo <= hi <= a@.len(),
    ensures
        r@ == a@.subrange(lo as int, hi as int),
{
    let mut r: Vec<u8> = Vec::new();
    let mut i: usize = lo;
    while i < hi
        invariant
            lo <= i <= hi <= a@.len(),
            r@ == a@.subrange(lo as int, i as int),
        decreases hi - i,
    {
        r.push(a[i]);
        i = i + 1;
        assert(a@.subrange(lo as int, i as int) =~= a@.subrange(lo as int, i - 1 as int).push(a@[i - 1]));
    }
    r
}

} // verus!
