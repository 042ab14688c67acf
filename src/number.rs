//! Decimal text of unsigned integers, as JSON writes them.
use vstd::prelude::*;
use vstd::utf8::{
    encode_utf8, encode_utf8_decode_utf8, encode_utf8_valid_utf8, is_ascii_chars,
    is_ascii_chars_encode_utf8,
};
use crate::ack::string_from_utf8;

verus! {

/// Whether `b` is an ASCII decimal digit.
pub open spec fn is_digit(b: u8) -> bool {
    48 <= b <= 57
}

/// The shortest decimal text of `n`.
pub open spec fn dec(n: nat) -> Seq<u8>
    decreases n,
{
    if n < 10 {
        seq![(48 + n) as u8]
    } else {
        dec(n / 10).push((48 + n % 10) as u8)
    }
}

/// The number that a run of decimal digits stands for.
pub open spec fn digits_val(s: Seq<u8>) -> nat
    decreases s.len(),
{
    if s.len() == 0 {
        0
    } else {
        digits_val(s.drop_last()) * 10 + (s.last() - 48) as nat
    }
}

/// `dec` writes digits only, and reads back as the number written.
pub proof fn lemma_dec(n: nat)
    ensures
        dec(n).len() >= 1,
        forall|i: int| 0 <= i < dec(n).len() ==> is_digit(#[trigger] dec(n)[i]),
        digits_val(dec(n)) == n,
    decreases n,
{
    if n >= 10 {
        lemma_dec(n / 10);
        let d = dec(n / 10);
        assert(dec(n).drop_last() =~= d);
        assert forall|i: int| 0 <= i < dec(n).len() implies is_digit(#[trigger] dec(n)[i]) by {
            if i < d.len() {
                assert(dec(n)[i] == d[i]);
            }
        }
        assert(dec(n).last() == (48 + n % 10) as u8);
        assert((dec(n).last() - 48) as nat == n % 10);
        assert(digits_val(dec(n)) == digits_val(d) * 10 + (dec(n).last() - 48) as nat);
        assert((n / 10) * 10 + n % 10 == n);
    } else {
        assert(dec(n).drop_last() =~= Seq::<u8>::empty());
        assert(dec(n).last() == (48 + n) as u8);
        assert((dec(n).last() - 48) as nat == n);
        assert(digits_val(dec(n)) == digits_val(dec(n).drop_last()) * 10 + (dec(n).last() - 48) as nat);
    }
}

/// Appends the decimal text of `n` to `out`.
pub fn write_dec(out: &mut Vec<u8>, n: u32)
    ensures
        final(out)@ == old(out)@ + dec(n as nat),
    decreases n,
{
    if n >= 10 {
        write_dec(out, n / 10);
    }
    out.push(48 + (n % 10) as u8);
    assert(final(out)@ =~= old(out)@ + dec(n as nat));
}

/// The digit run that starts at `lo`: where it ends, and its value if that
/// fits in a `u32`.
pub fn read_digits(a: &[u8], lo: usize) -> (r: (usize, Option<u32>))
    requires
        lo <= a@.len(),
    ensures
        lo <= r.0 <= a@.len(),
        forall|j: int| lo <= j < r.0 ==> is_digit(#[trigger] a@[j]),
        r.0 < a@.len() ==> !is_digit(a@[r.0 as int]),
        r.1 matches Some(v) ==> v as nat == digits_val(a@.subrange(lo as int, r.0 as int)),
        digits_val(a@.subrange(lo as int, r.0 as int)) <= u32::MAX ==> r.1 is Some,
{
    let mut i: usize = lo;
    let mut v: u64 = 0;
    let mut fits = true;
    while i < a.len() && 48 <= a[i] && a[i] <= 57
        invariant
            lo <= i <= a@.len(),
            a@.len() == a.len(),
            forall|j: int| lo <= j < i ==> is_digit(#[trigger] a@[j]),
            fits ==> v as nat == digits_val(a@.subrange(lo as int, i as int)) && v <= u32::MAX,
            !fits ==> digits_val(a@.subrange(lo as int, i as int)) > u32::MAX,
        decreases a@.len() - i,
    {
        let ghost before = a@.subrange(lo as int, i as int);
        let d = (a[i] - 48) as u64;
        let ghost after = a@.subrange(lo as int, i + 1);
        assert(after.drop_last() =~= before);
        if fits {
            let w = v * 10 + d;
            if w > 4294967295 {
                fits = false;
            } else {
                v = w;
            }
        }
        i = i + 1;
    }
    if fits {
        (i, Some(v as u32))
    } else {
        (i, None)
    }
}

/// A digit run that is the decimal text of `n` and is followed by a
/// non-digit reads back as `n`.
pub proof fn lemma_read_back(a: Seq<u8>, lo: int, n: nat)
    requires
        0 <= lo,
        lo + dec(n).len() < a.len(),
        a.subrange(lo, lo + dec(n).len()) == dec(n),
        !is_digit(a[lo + dec(n).len()]),
    ensures
        forall|e: int| #![auto] lo <= e <= a.len()
            && (forall|j: int| lo <= j < e ==> is_digit(#[trigger] a[j]))
            && (e < a.len() ==> !is_digit(a[e]))
            ==> e == lo + dec(n).len() && digits_val(a.subrange(lo, e)) == n,
{
    lemma_dec(n);
    let k = lo + dec(n).len();
    assert forall|e: int| #![auto] lo <= e <= a.len()
        && (forall|j: int| lo <= j < e ==> is_digit(#[trigger] a[j]))
        && (e < a.len() ==> !is_digit(a[e]))
        implies e == k && digits_val(a.subrange(lo, e)) == n by {
        if e < k {
            assert(a[e] == dec(n)[e - lo]);
        } else if e > k {
            assert(is_digit(a[k]));
        }
    }
}

/// The shortest decimal text of `n`, as characters.
pub open spec fn dec_chars(n: nat) -> Seq<char> {
    dec(n).map_values(|b: u8| b as char)
}

/// The decimal text of `n`, as `to_string` writes it.
pub fn decimal_text(n: u32) -> (r: String)
    ensures
        r@ == dec_chars(n as nat),
{
    let mut bytes: Vec<u8> = Vec::new();
    write_dec(&mut bytes, n);
    proof {
        let chars = dec_chars(n as nat);
        lemma_dec(n as nat);
        assert(bytes@ =~= dec(n as nat));
        assert forall|i: int| 0 <= i < chars.len() implies '\0' <= #[trigger] chars[i] <= '\u{7f}' by {
            assert(is_digit(dec(n as nat)[i]));
        }
        assert(is_ascii_chars(chars));
        is_ascii_chars_encode_utf8(chars);
        assert(encode_utf8(chars) =~= bytes@);
        encode_utf8_valid_utf8(chars);
        encode_utf8_decode_utf8(chars);
    }
    match string_from_utf8(bytes) {
        Some(s) => s,
        None => {
            proof {
                assert(false);
            }
            String::new()
        },
    }
}

} // verus!
