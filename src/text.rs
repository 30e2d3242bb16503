//! Character-level helpers shared by the codecs and the renderers.

use vstd::prelude::*;

verus! {

/// Relies on `FromIterator<char> for String`: the string holds the characters in order.
#[verifier::external_body]
pub(crate) fn string_from_chars(chars: &Vec<char>) -> (r: String)
    ensures
        r@ == chars@,
{
    chars.iter().collect()
}

/// The characters of `s`, in order.
pub(crate) fn chars_of(s: &str) -> (r: Vec<char>)
    ensures
        r@ == s@,
{
    let n = s.unicode_len();
    let mut out: Vec<char> = Vec::new();
    let mut i: usize = 0;
    while i < n
        invariant
            n == s@.len(),
            i <= n,
            out@ == s@.subrange(0, i as int),
        decreases n - i,
    {
        out.push(s.get_char(i));
        i = i + 1;
        assert(out@ =~= s@.subrange(0, i as int));
    }
    assert(out@ =~= s@);
    out
}

pub open spec fn is_hex_digit(c: char) -> bool {
    ('0' <= c && c <= '9') || ('a' <= c && c <= 'f') || ('A' <= c && c <= 'F')
}

/// The value of a hexadecimal digit, in either case.
pub open spec fn hex_value(c: char) -> int {
    if '0' <= c && c <= '9' {
        c as int - '0' as int
    } else if 'a' <= c && c <= 'f' {
        c as int - 'a' as int + 10
    } else {
        c as int - 'A' as int + 10
    }
}

/// The lower-case digit for a value below sixteen.
pub open spec fn hex_char(v: nat) -> char {
    if v < 10 {
        ((v + '0' as nat) as u32) as char
    } else {
        ((v - 10 + 'a' as nat) as u32) as char
    }
}

pub open spec fn pow16(w: nat) -> nat
    decreases w,
{
    if w == 0 {
        1
    } else {
        16 * pow16((w - 1) as nat)
    }
}

/// The `w` lowest hexadecimal digits of `n`, most significant first, zero-padded.
pub open spec fn hex_digits(n: nat, w: nat) -> Seq<char>
    decreases w,
{
    if w == 0 {
        Seq::empty()
    } else {
        hex_digits(n / 16, (w - 1) as nat).push(hex_char(n % 16))
    }
}

/// The number that the hexadecimal digits `s[lo..hi]` spell, most significant first.
pub open spec fn hex_number(s: Seq<char>, lo: int, hi: int) -> int
    decreases hi - lo,
{
    if hi <= lo {
        0
    } else {
        hex_number(s, lo, hi - 1) * 16 + hex_value(s[hi - 1])
    }
}

/// The decimal digits of `n`, without leading zeros ("0" for zero).
pub open spec fn decimal_digits(n: nat) -> Seq<char>
    decreases n,
{
    if n < 10 {
        seq![((n + '0' as nat) as u32) as char]
    } else {
        decimal_digits(n / 10).push((((n % 10) + '0' as nat) as u32) as char)
    }
}

pub(crate) fn hex_char_of(v: u64) -> (c: char)
    requires
        v < 16,
    ensures
        c == hex_char(v as nat),
        is_hex_digit(c),
        hex_value(c) == v,
{
    if v < 10 {
        let c = ((v as u32) + ('0' as u32)) as u8 as char;
        c
    } else {
        let c = ((v as u32 - 10) + ('a' as u32)) as u8 as char;
        c
    }
}

/// Appends the `width` lowest hexadecimal digits of `n`.
pub(crate) fn push_hex(out: &mut Vec<char>, n: u64, width: usize)
    ensures
        final(out)@ == old(out)@ + hex_digits(n as nat, width as nat),
    decreases width,
{
    if width > 0 {
        push_hex(out, n / 16, width - 1);
        let c = hex_char_of(n % 16);
        out.push(c);
        assert(final(out)@ =~= old(out)@ + hex_digits(n as nat, width as nat));
    } else {
        assert(final(out)@ =~= old(out)@ + hex_digits(n as nat, width as nat));
    }
}

/// Appends the decimal digits of `n`.
pub(crate) fn push_decimal(out: &mut Vec<char>, n: u64)
    ensures
        final(out)@ == old(out)@ + decimal_digits(n as nat),
    decreases n,
{
    if n >= 10 {
        push_decimal(out, n / 10);
    }
    let c = (((n % 10) as u32) + ('0' as u32)) as u8 as char;
    out.push(c);
    assert(final(out)@ =~= old(out)@ + decimal_digits(n as nat));
}

pub proof fn lemma_hex_digits_len(n: nat, w: nat)
    ensures
        hex_digits(n, w).len() == w,
    decreases w,
{
    if w > 0 {
        lemma_hex_digits_len(n / 16, (w - 1) as nat);
    }
}

pub proof fn lemma_hex_char(v: nat)
    requires
        v < 16,
    ensures
        is_hex_digit(hex_char(v)),
        hex_value(hex_char(v)) == v,
{
}

/// Reading back `w` digits written by `hex_digits` gives the number, when it fits.
pub proof fn lemma_hex_round_trip(s: Seq<char>, lo: int, n: nat, w: nat)
    requires
        0 <= lo,
        lo + w <= s.len(),
        s.subrange(lo, lo + w) == hex_digits(n, w),
        n < pow16(w),
    ensures
        hex_number(s, lo, lo + w) == n,
        forall|i: int| lo <= i < lo + w ==> is_hex_digit(#[trigger] s[i]),
    decreases w,
{
    if w > 0 {
        let w1 = (w - 1) as nat;
        lemma_hex_digits_len(n / 16, w1);
        assert(s.subrange(lo, lo + w1) =~= s.subrange(lo, lo + w).subrange(0, w1 as int));
        assert(s.subrange(lo, lo + w1) =~= hex_digits(n / 16, w1));
        assert(s[lo + w1] == s.subrange(lo, lo + w)[w1 as int]);
        lemma_hex_char(n % 16);
        lemma_hex_round_trip(s, lo, n / 16, w1);
        assert forall|i: int| lo <= i < lo + w implies is_hex_digit(#[trigger] s[i]) by {
            if i < lo + w1 {
            } else {
                assert(i == lo + w1);
            }
        }
    }
}

/// White space as `char::is_whitespace` defines it (the Unicode `White_Space` property).
pub open spec fn is_white_space(c: char) -> bool {
    ('\t' <= c && c <= '\r') || c == ' ' || c == '\u{85}' || c == '\u{a0}' || c == '\u{1680}'
        || ('\u{2000}' <= c && c <= '\u{200a}') || c == '\u{2028}' || c == '\u{2029}'
        || c == '\u{202f}' || c == '\u{205f}' || c == '\u{3000}'
}

pub(crate) fn white_space(c: char) -> (r: bool)
    ensures
        r == is_white_space(c),
{
    ('\t' <= c && c <= '\r') || c == ' ' || c == '\u{85}' || c == '\u{a0}' || c == '\u{1680}'
        || ('\u{2000}' <= c && c <= '\u{200a}') || c == '\u{2028}' || c == '\u{2029}'
        || c == '\u{202f}' || c == '\u{205f}' || c == '\u{3000}'
}

/// The number of hexadecimal digits of `n`, without leading zeros (one for zero).
pub open spec fn hex_len(n: nat) -> nat
    decreases n,
{
    if n < 16 {
        1
    } else {
        1 + hex_len(n / 16)
    }
}

/// `n` in the alternate hexadecimal form: `0x`, then the digits zero-padded so that
/// the whole takes at least `width` characters.
pub open spec fn alt_hex(n: nat, width: nat) -> Seq<char> {
    let w = if width >= 2 + hex_len(n) {
        (width - 2) as nat
    } else {
        hex_len(n)
    };
    seq!['0', 'x'] + hex_digits(n, w)
}

pub(crate) fn hex_len_of(n: u64) -> (r: usize)
    ensures
        r == hex_len(n as nat),
        r <= 16,
    decreases n,
{
    proof {
        reveal_with_fuel(pow16, 17);
        lemma_hex_len_le(n as nat, 16);
    }
    if n < 16 {
        1
    } else {
        1 + hex_len_of(n / 16)
    }
}

proof fn lemma_hex_len_le(n: nat, k: nat)
    requires
        k >= 1,
        n < pow16(k),
    ensures
        hex_len(n) <= k,
    decreases k,
{
    if n >= 16 {
        assert(pow16(1) == 16) by {
            reveal_with_fuel(pow16, 2);
        }
        assert(k >= 2);
        assert(n / 16 < pow16((k - 1) as nat));
        lemma_hex_len_le(n / 16, (k - 1) as nat);
    }
}

/// Appends the alternate hexadecimal form of `n` padded to `width` characters.
pub(crate) fn push_alt_hex(out: &mut Vec<char>, n: u64, width: usize)
    ensures
        final(out)@ == old(out)@ + alt_hex(n as nat, width as nat),
{
    let len = hex_len_of(n);
    let w = if width >= 2 + len {
        width - 2
    } else {
        len
    };
    out.push('0');
    out.push('x');
    push_hex(out, n, w);
    assert(final(out)@ =~= old(out)@ + alt_hex(n as nat, width as nat));
}

/// Appends the characters of `s`.
pub(crate) fn push_str(out: &mut Vec<char>, s: &str)
    ensures
        final(out)@ == old(out)@ + s@,
{
    let cs = chars_of(s);
    let mut i: usize = 0;
    let ghost start = out@;
    while i < cs.len()
        invariant
            i <= cs@.len(),
            cs@ == s@,
            out@ == start + s@.subrange(0, i as int),
        decreases cs@.len() - i,
    {
        out.push(cs[i]);
        i = i + 1;
        assert(out@ =~= start + s@.subrange(0, i as int));
    }
    assert(s@.subrange(0, i as int) =~= s@);
}

} // verus!
