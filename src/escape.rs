//! JSON string escaping of UTF-8 bytes, in the canonical form: `\\`, `\"`,
//! the short escapes of backspace, tab, line feed, form feed and carriage
//! return, `\u00XX` with upper-case hex for the other control bytes, and
//! every other byte as it is.
use vstd::prelude::*;

verus! {

/// Upper-case hex digit of `n < 16`.
pub open spec fn hex_digit(n: u8) -> u8 {
    if n < 10 {
        (48 + n) as u8
    } else {
        (55 + n) as u8
    }
}

/// Whether `c` is an upper-case hex digit.
pub open spec fn is_hex(c: u8) -> bool {
    (48 <= c <= 57) || (65 <= c <= 70)
}

/// The value of an upper-case hex digit.
pub open spec fn hex_val(c: u8) -> u8 {
    if 48 <= c <= 57 {
        (c - 48) as u8
    } else {
        (c - 55) as u8
    }
}

/// The escaped text of one byte.
pub open spec fn escape_byte(b: u8) -> Seq<u8> {
    if b == 92 {
        seq![92u8, 92u8]
    } else if b == 34 {
        seq![92u8, 34u8]
    } else if b == 8 {
        seq![92u8, 98u8]
    } else if b == 9 {
        seq![92u8, 116u8]
    } else if b == 10 {
        seq![92u8, 110u8]
    } else if b == 12 {
        seq![92u8, 102u8]
    } else if b == 13 {
        seq![92u8, 114u8]
    } else if b < 32 {
        seq![92u8, 117u8, 48u8, 48u8, hex_digit(b / 16), hex_digit(b % 16)]
    } else {
        seq![b]
    }
}

/// The escaped text of a byte string.
pub open spec fn escape(s: Seq<u8>) -> Seq<u8>
    decreases s.len(),
{
    if s.len() == 0 {
        Seq::empty()
    } else {
        escape(s.drop_last()) + escape_byte(s.last())
    }
}

/// One step of reading escaped text: the byte that its start stands for,
/// and how many bytes that takes.
pub open spec fn unescape_step(s: Seq<u8>) -> (u8, int) {
    if s[0] == 92 && s.len() >= 2 {
        let c = s[1];
        if c == 92 {
            (92u8, 2)
        } else if c == 34 {
            (34u8, 2)
        } else if c == 98 {
            (8u8, 2)
        } else if c == 116 {
            (9u8, 2)
        } else if c == 110 {
            (10u8, 2)
        } else if c == 102 {
            (12u8, 2)
        } else if c == 114 {
            (13u8, 2)
        } else if c == 117 && s.len() >= 6 && s[2] == 48 && s[3] == 48 && is_hex(s[4]) && is_hex(
            s[5],
        ) {
            ((hex_val(s[4]) * 16 + hex_val(s[5])) as u8, 6)
        } else {
            (s[0], 1)
        }
    } else {
        (s[0], 1)
    }
}

/// The bytes that escaped text stands for; a stray backslash reads as itself.
pub open spec fn unescape(s: Seq<u8>) -> Seq<u8>
    decreases s.len(),
{
    if s.len() == 0 {
        Seq::empty()
    } else {
        let (b, n) = unescape_step(s);
        seq![b] + unescape(s.subrange(n, s.len() as int))
    }
}

proof fn lemma_escape_concat(a: Seq<u8>, b: Seq<u8>)
    ensures
        escape(a + b) == escape(a) + escape(b),
    decreases b.len(),
{
    if b.len() == 0 {
        assert(a + b =~= a);
    } else {
        lemma_escape_concat(a, b.drop_last());
        assert((a + b).drop_last() =~= a + b.drop_last());
    }
}

proof fn lemma_unescape_byte(b: u8, rest: Seq<u8>)
    ensures
        unescape(escape_byte(b) + rest) == seq![b] + unescape(rest),
{
    let s = escape_byte(b) + rest;
    let n = escape_byte(b).len() as int;
    assert(s.subrange(n, s.len() as int) =~= rest);
    if b < 32 && b != 8 && b != 9 && b != 10 && b != 12 && b != 13 {
        assert(hex_val(hex_digit(b / 16)) * 16 + hex_val(hex_digit(b % 16)) == b) by (bit_vector)
            requires
                b < 32,
        ;
    }
    assert(unescape_step(s) == (b, n));
}

/// Reading escaped text gives back what was escaped.
pub proof fn lemma_unescape_escape(m: Seq<u8>)
    ensures
        unescape(escape(m)) == m,
    decreases m.len(),
{
    if m.len() > 0 {
        let rest = m.drop_first();
        assert(m =~= seq![m[0]] + rest);
        lemma_escape_concat(seq![m[0]], rest);
        let one = seq![m[0]];
        assert(one.drop_last() =~= Seq::<u8>::empty());
        assert(one.last() == m[0]);
        assert(escape(one.drop_last()) =~= Seq::<u8>::empty());
        assert(escape(one) == escape(one.drop_last()) + escape_byte(one.last()));
        assert(escape(one) =~= escape_byte(m[0]));
        lemma_unescape_byte(m[0], escape(rest));
        lemma_unescape_escape(rest);
    }
}

fn hex_digit_exec(n: u8) -> (r: u8)
    requires
        n < 16,
    ensures
        r == hex_digit(n),
{
    if n < 10 {
        48 + n
    } else {
        55 + n
    }
}

/// Appends the escaped text of `s` to `out`.
pub fn write_escaped(out: &mut Vec<u8>, s: &[u8])
    ensures
        final(out)@ == old(out)@ + escape(s@),
{
    let mut i: usize = 0;
    while i < s.len()
        invariant
            i <= s@.len(),
            s@.len() == s.len(),
            out@ == old(out)@ + escape(s@.subrange(0, i as int)),
        decreases s@.len() - i,
    {
        let b = s[i];
        let ghost prev = out@;
        if b == 92 || b == 34 {
            out.push(92);
            out.push(b);
        } else if b == 8 {
            out.push(92);
            out.push(98);
        } else if b == 9 {
            out.push(92);
            out.push(116);
        } else if b == 10 {
            out.push(92);
            out.push(110);
        } else if b == 12 {
            out.push(92);
            out.push(102);
        } else if b == 13 {
            out.push(92);
            out.push(114);
        } else if b < 32 {
            out.push(92);
            out.push(117);
            out.push(48);
            out.push(48);
            out.push(hex_digit_exec(b / 16));
            out.push(hex_digit_exec(b % 16));
        } else {
            out.push(b);
        }
        assert(out@ =~= prev + escape_byte(b));
        let ghost t = s@.subrange(0, i + 1);
        assert(t.drop_last() =~= s@.subrange(0, i as int));
        i = i + 1;
    }
    assert(s@.subrange(0, s@.len() as int) =~= s@);
}

fn hex_val_exec(c: u8) -> (r: u8)
    requires
        is_hex(c),
    ensures
        r == hex_val(c),
{
    if c <= 57 {
        c - 48
    } else {
        c - 55
    }
}

/// The bytes that the escaped text `s` stands for.
pub fn read_escaped(s: &[u8]) -> (r: Vec<u8>)
    ensures
        r@ == unescape(s@),
{
    let mut out: Vec<u8> = Vec::new();
    let mut i: usize = 0;
    let n = s.len();
    assert(s@.subrange(0, n as int) =~= s@);
    while i < n
        invariant
            i <= n,
            n == s@.len(),
            unescape(s@) == out@ + unescape(s@.subrange(i as int, n as int)),
        decreases n - i,
    {
        let ghost rest = s@.subrange(i as int, n as int);
        let mut b: u8 = s[i];
        let mut k: usize = 1;
        if s[i] == 92 && n - i >= 2 {
            let c = s[i + 1];
            if c == 92 {
                b = 92;
                k = 2;
            } else if c == 34 {
                b = 34;
                k = 2;
            } else if c == 98 {
                b = 8;
                k = 2;
            } else if c == 116 {
                b = 9;
                k = 2;
            } else if c == 110 {
                b = 10;
                k = 2;
            } else if c == 102 {
                b = 12;
                k = 2;
            } else if c == 114 {
                b = 13;
                k = 2;
            } else if c == 117 && n - i >= 6 && s[i + 2] == 48 && s[i + 3] == 48 && (48 <= s[i + 4]
                && s[i + 4] <= 57 || 65 <= s[i + 4] && s[i + 4] <= 70) && (48 <= s[i + 5] && s[i
                + 5] <= 57 || 65 <= s[i + 5] && s[i + 5] <= 70) {
                let hi = hex_val_exec(s[i + 4]);
                let lo = hex_val_exec(s[i + 5]);
                assert(hi < 16 && lo < 16);
                b = hi * 16 + lo;
                k = 6;
            }
        }
        assert(unescape_step(rest) == (b, k as int));
        assert(rest.subrange(k as int, rest.len() as int) =~= s@.subrange(i + k, n as int));
        out.push(b);
        i = i + k;
    }
    out
}

} // verus!
