//! Text renderings of a variable: a decimal listing of its payload and a verbose
//! report with a hex dump.

use crate::attributes::EfiVariableAttribute;
use crate::guid::guid_text;
use crate::text::{
    decimal_digits, hex_digits, hex_len, hex_len_of, push_decimal, push_hex, push_str,
    string_from_chars,
};
use crate::variable::EfiVariable;
use vstd::prelude::*;

verus! {

/// The payload of a variable in decimal.
pub struct Decimal<'a>(pub &'a EfiVariable);

/// A report of a variable: GUID, name, attributes and a hex dump of the payload.
pub struct Verbose<'a>(pub &'a EfiVariable);

/// The text for byte `i` of `n`: groups of sixteen split in halves of eight.
pub open spec fn decimal_piece(i: int, n: int, b: u8) -> Seq<char> {
    let last = i == n - 1;
    let sep = if i > 0 && !last && i % 16 == 0 {
        "  "@
    } else {
        Seq::empty()
    };
    let body = if i % 16 < 8 {
        decimal_digits(b as nat) + if !last {
            " "@
        } else {
            Seq::empty()
        }
    } else {
        " "@ + decimal_digits(b as nat)
    };
    sep + body
}

/// The decimal text of the first `k` bytes of `data`.
pub open spec fn decimal_text(data: Seq<u8>, k: int) -> Seq<char>
    decreases k,
{
    if k <= 0 {
        Seq::empty()
    } else {
        decimal_text(data, k - 1) + decimal_piece(k - 1, data.len() as int, data[k - 1])
    }
}

/// `n` in hexadecimal, zero-padded to at least `w` digits.
pub open spec fn padded_hex(n: nat, w: nat) -> Seq<char> {
    hex_digits(n, if w >= hex_len(n) { w } else { hex_len(n) })
}

fn push_padded_hex(out: &mut Vec<char>, n: u64, w: usize)
    ensures
        final(out)@ == old(out)@ + padded_hex(n as nat, w as nat),
{
    let len = hex_len_of(n);
    let width = if w >= len {
        w
    } else {
        len
    };
    push_hex(out, n, width);
}

/// `s` ordered by value, ties kept in their order.
pub open spec fn sorted_by_value(s: Seq<EfiVariableAttribute>) -> Seq<EfiVariableAttribute>
    decreases s.len(),
{
    if s.len() == 0 {
        s
    } else {
        insert_by_value(sorted_by_value(s.drop_last()), s.last())
    }
}

/// `x` placed into `s` before the first element of a greater value.
pub open spec fn insert_by_value(s: Seq<EfiVariableAttribute>, x: EfiVariableAttribute) -> Seq<
    EfiVariableAttribute,
>
    decreases s.len(),
{
    if s.len() == 0 {
        seq![x]
    } else if s[0].value > x.value {
        seq![x] + s
    } else {
        seq![s[0]] + insert_by_value(s.drop_first(), x)
    }
}

proof fn lemma_insert_at(s: Seq<EfiVariableAttribute>, x: EfiVariableAttribute, p: int)
    requires
        0 <= p <= s.len(),
        forall|j: int| 0 <= j < p ==> (#[trigger] s[j]).value <= x.value,
        p < s.len() ==> s[p].value > x.value,
    ensures
        insert_by_value(s, x) == s.insert(p, x),
    decreases s.len(),
{
    if s.len() == 0 {
        assert(s.insert(p, x) =~= seq![x]);
    } else if p == 0 {
        assert(s.insert(p, x) =~= seq![x] + s);
    } else {
        let t = s.drop_first();
        assert forall|j: int| 0 <= j < p - 1 implies (#[trigger] t[j]).value <= x.value by {
            assert(t[j] == s[j + 1]);
        }
        lemma_insert_at(t, x, p - 1);
        assert(s.insert(p, x) =~= seq![s[0]] + t.insert(p - 1, x));
    }
}

fn sort_by_value(attrs: &Vec<EfiVariableAttribute>) -> (r: Vec<EfiVariableAttribute>)
    ensures
        r@ == sorted_by_value(attrs@),
{
    let mut out: Vec<EfiVariableAttribute> = Vec::new();
    let mut i: usize = 0;
    while i < attrs.len()
        invariant
            i <= attrs@.len(),
            out@ == sorted_by_value(attrs@.subrange(0, i as int)),
        decreases attrs@.len() - i,
    {
        let x = attrs[i];
        let mut p: usize = 0;
        while p < out.len() && out[p].value <= x.value
            invariant
                p <= out@.len(),
                forall|j: int| 0 <= j < p ==> (#[trigger] out@[j]).value <= x.value,
            decreases out@.len() - p,
        {
            p = p + 1;
        }
        proof {
            lemma_insert_at(out@, x, p as int);
            assert(attrs@.subrange(0, i + 1).drop_last() =~= attrs@.subrange(0, i as int));
        }
        out.insert(p, x);
        i = i + 1;
    }
    assert(attrs@.subrange(0, i as int) =~= attrs@);
    out
}

/// The attribute lines of the report: a tab, the name and a line break each.
pub open spec fn attribute_lines(s: Seq<EfiVariableAttribute>, k: int) -> Seq<char>
    decreases k,
{
    if k <= 0 {
        Seq::empty()
    } else {
        attribute_lines(s, k - 1) + "\t"@ + s[k - 1].name@ + "\n"@
    }
}

/// The shown form of a byte in the dump's text column.
pub open spec fn shown_char(b: u8) -> char {
    if 0x1f < b && b < 0x7f {
        (b as u32) as char
    } else {
        '.'
    }
}

/// Column `j` of the hex part of the dump line at offset `i`.
pub open spec fn hex_column(data: Seq<u8>, i: int, j: int) -> Seq<char> {
    if i + j < data.len() {
        if j < 8 {
            hex_digits(data[i + j] as nat, 2) + " "@
        } else {
            " "@ + hex_digits(data[i + j] as nat, 2)
        }
    } else {
        "   "@
    }
}

pub open spec fn hex_columns(data: Seq<u8>, i: int, k: int) -> Seq<char>
    decreases k,
{
    if k <= 0 {
        Seq::empty()
    } else {
        hex_columns(data, i, k - 1) + hex_column(data, i, k - 1)
    }
}

pub open spec fn text_columns(data: Seq<u8>, i: int, k: int) -> Seq<char>
    decreases k,
{
    if k <= 0 {
        Seq::empty()
    } else {
        text_columns(data, i, k - 1).push(
            if i + k - 1 < data.len() {
                shown_char(data[i + k - 1])
            } else {
                ' '
            },
        )
    }
}

/// The dump line for the sixteen bytes at offset `i`.
pub open spec fn dump_line(data: Seq<u8>, i: int) -> Seq<char> {
    padded_hex(i as nat, 8) + "  "@ + hex_columns(data, i, 16) + "  |"@ + text_columns(data, i, 16)
        + "|\n"@
}

/// The first `k` dump lines.
pub open spec fn dump_lines(data: Seq<u8>, k: int) -> Seq<char>
    decreases k,
{
    if k <= 0 {
        Seq::empty()
    } else {
        dump_lines(data, k - 1) + dump_line(data, 16 * (k - 1))
    }
}

pub open spec fn line_count(n: nat) -> int {
    ((n + 15) / 16) as int
}

/// The whole report.
pub open spec fn verbose_text(v: EfiVariable) -> Seq<char> {
    "GUID: "@ + guid_text(v.guid) + "\n"@ + "Name: \""@ + v.name@ + "\"\n"@ + "Attributes:\n"@
        + attribute_lines(sorted_by_value(v.attributes@), v.attributes@.len() as int)
        + "Value:\n"@ + dump_lines(v.data@, line_count(v.data@.len())) + padded_hex(
        v.data@.len() as nat,
        8,
    )
}

impl<'a> Decimal<'a> {
    /// The bytes in decimal, space-separated, with a wider gap between halves of
    /// eight and between groups of sixteen.
    pub fn to_string(&self) -> (r: String)
        ensures
            r@ == decimal_text(self.0.data@, self.0.data@.len() as int),
    {
        let data = &self.0.data;
        let n = data.len();
        let mut out: Vec<char> = Vec::new();
        let mut i: usize = 0;
        while i < n
            invariant
                n == data@.len(),
                i <= n,
                out@ == decimal_text(data@, i as int),
            decreases n - i,
        {
            let b = data[i];
            let ghost before = out@;
            let last = i == n - 1;
            if i > 0 && !last && i % 16 == 0 {
                push_str(&mut out, "  ");
            }
            if i % 16 < 8 {
                push_decimal(&mut out, b as u64);
                if !last {
                    push_str(&mut out, " ");
                }
            } else {
                push_str(&mut out, " ");
                push_decimal(&mut out, b as u64);
            }
            assert(out@ =~= before + decimal_piece(i as int, n as int, b));
            i = i + 1;
        }
        string_from_chars(&out)
    }
}

impl<'a> Verbose<'a> {
    /// The report: `GUID:`, `Name:` and `Attributes:` lines (attributes ordered by
    /// value), then `Value:` and a hex dump of sixteen bytes a line with offsets and
    /// printable characters, closed by the payload length.
    pub fn to_string(&self) -> (r: String)
        ensures
            r@ == verbose_text(*self.0),
    {
        let v = self.0;
        let mut out: Vec<char> = Vec::new();
        push_str(&mut out, "GUID: ");
        let g = v.guid.to_string();
        push_str(&mut out, g.as_str());
        push_str(&mut out, "\n");
        push_str(&mut out, "Name: \"");
        push_str(&mut out, v.name.as_str());
        push_str(&mut out, "\"\n");
        push_str(&mut out, "Attributes:\n");
        let sorted = sort_by_value(&v.attributes);
        let ghost head = out@;
        let mut k: usize = 0;
        proof {
            lemma_sorted_len(v.attributes@);
        }
        while k < sorted.len()
            invariant
                k <= sorted@.len(),
                sorted@ == sorted_by_value(v.attributes@),
                out@ == head + attribute_lines(sorted@, k as int),
            decreases sorted@.len() - k,
        {
            push_str(&mut out, "\t");
            push_str(&mut out, sorted[k].name);
            push_str(&mut out, "\n");
            assert(out@ =~= head + attribute_lines(sorted@, k + 1));
            k = k + 1;
        }
        push_str(&mut out, "Value:\n");
        let data = &v.data;
        let n = data.len();
        let ghost mid = out@;
        let mut line: usize = 0;
        let mut i: usize = 0;
        while i < n
            invariant
                n == data@.len(),
                (i == 16 * line && i < n && line < line_count(n as nat)) || (i == n && line
                    == line_count(n as nat)),
                out@ == mid + dump_lines(data@, line as int),
            decreases n - i,
        {
            push_line(&mut out, data, i);
            assert(out@ =~= mid + dump_lines(data@, line + 1));
            if n - i > 16 {
                i = i + 16;
            } else {
                i = n;
            }
            line = line + 1;
        }
        push_padded_hex(&mut out, n as u64, 8);
        assert(out@ =~= verbose_text(*v));
        string_from_chars(&out)
    }
}

proof fn lemma_sorted_len(s: Seq<EfiVariableAttribute>)
    ensures
        sorted_by_value(s).len() == s.len(),
    decreases s.len(),
{
    if s.len() > 0 {
        lemma_sorted_len(s.drop_last());
        lemma_insert_len(sorted_by_value(s.drop_last()), s.last());
    }
}

proof fn lemma_insert_len(s: Seq<EfiVariableAttribute>, x: EfiVariableAttribute)
    ensures
        insert_by_value(s, x).len() == s.len() + 1,
    decreases s.len(),
{
    if s.len() > 0 {
        lemma_insert_len(s.drop_first(), x);
    }
}

/// Appends the dump line for the bytes at offset `i`.
fn push_line(out: &mut Vec<char>, data: &Vec<u8>, i: usize)
    requires
        i < data@.len(),
    ensures
        final(out)@ == old(out)@ + dump_line(data@, i as int),
{
    let n = data.len();
    push_padded_hex(out, i as u64, 8);
    push_str(out, "  ");
    let ghost start = out@;
    let mut j: usize = 0;
    while j < 16
        invariant
            n == data@.len(),
            i < n,
            j <= 16,
            out@ == start + hex_columns(data@, i as int, j as int),
        decreases 16 - j,
    {
        if j < n - i {
            let b = data[i + j];
            if j < 8 {
                push_hex(out, b as u64, 2);
                push_str(out, " ");
            } else {
                push_str(out, " ");
                push_hex(out, b as u64, 2);
            }
        } else {
            push_str(out, "   ");
        }
        assert(out@ =~= start + hex_columns(data@, i as int, j + 1));
        j = j + 1;
    }
    push_str(out, "  |");
    let ghost start2 = out@;
    let mut k: usize = 0;
    while k < 16
        invariant
            n == data@.len(),
            i < n,
            k <= 16,
            out@ == start2 + text_columns(data@, i as int, k as int),
        decreases 16 - k,
    {
        let c = if k < n - i {
            let b = data[i + k];
            if 0x1f < b && b < 0x7f {
                b as char
            } else {
                '.'
            }
        } else {
            ' '
        };
        out.push(c);
        assert(out@ =~= start2 + text_columns(data@, i as int, k + 1));
        k = k + 1;
    }
    push_str(out, "|\n");
    assert(final(out)@ =~= old(out)@ + dump_line(data@, i as int));
}

} // verus!
