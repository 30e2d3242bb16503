//! The 128-bit GUID: its binary and text codecs and its total order.

use crate::text::{
    chars_of, hex_digits, hex_number, hex_value, is_hex_digit, lemma_hex_digits_len,
    lemma_hex_round_trip, pow16, push_hex, string_from_chars,
};
use vstd::prelude::*;

verus! {

/// Why a GUID could not be built.
#[derive(Debug, Clone, Copy, PartialEq, Eq, Structural)]
pub enum EfiGuidError {
    BadFormat,
    SliceLengthTooLong,
    SliceLengthTooShort,
    VecLengthTooLong,
    VecLengthTooShort,
}

/// The sentence that describes each error.
pub open spec fn guid_error_text(e: EfiGuidError) -> Seq<char> {
    match e {
        EfiGuidError::BadFormat => "bad format. Correct format is xxxxxxxx-xxxx-xxxx-xxxx-xxxxxxxxxxxx"@,
        EfiGuidError::SliceLengthTooLong => "source slice too long. Slice must have a size of 16"@,
        EfiGuidError::SliceLengthTooShort => "source slice too short. Slice must have a size of 16"@,
        EfiGuidError::VecLengthTooLong => "source vector too long. Vector must have a size of 16"@,
        EfiGuidError::VecLengthTooShort => "source vector too short. Vector must have a size of 16"@,
    }
}

impl EfiGuidError {
    /// A sentence describing the error.
    pub fn message(&self) -> (r: &'static str)
        ensures
            r@ == guid_error_text(*self),
    {
        match self {
            EfiGuidError::BadFormat => "bad format. Correct format is xxxxxxxx-xxxx-xxxx-xxxx-xxxxxxxxxxxx",
            EfiGuidError::SliceLengthTooLong => "source slice too long. Slice must have a size of 16",
            EfiGuidError::SliceLengthTooShort => "source slice too short. Slice must have a size of 16",
            EfiGuidError::VecLengthTooLong => "source vector too long. Vector must have a size of 16",
            EfiGuidError::VecLengthTooShort => "source vector too short. Vector must have a size of 16",
        }
    }
}

/// A GUID in the mixed-endian layout of UEFI: a 32-bit field, two 16-bit
/// fields and eight trailing bytes.
#[derive(Debug, Clone, Copy, Eq)]
pub struct EfiGuid {
    pub a: u32,
    pub b: u16,
    pub c: u16,
    pub d: [u8; 8],
}

pub open spec fn le_u16(b0: u8, b1: u8) -> u16 {
    (b0 as int + 256 * b1 as int) as u16
}

pub open spec fn le_u32(b0: u8, b1: u8, b2: u8, b3: u8) -> u32 {
    (b0 as int + 256 * b1 as int + 65536 * b2 as int + 16777216 * b3 as int) as u32
}

/// The GUID stored in the sixteen bytes `v`: `a`, `b` and `c` little-endian,
/// the tail verbatim.
pub open spec fn guid_from_bytes(v: Seq<u8>) -> EfiGuid {
    EfiGuid {
        a: le_u32(v[0], v[1], v[2], v[3]),
        b: le_u16(v[4], v[5]),
        c: le_u16(v[6], v[7]),
        d: [v[8], v[9], v[10], v[11], v[12], v[13], v[14], v[15]],
    }
}

pub open spec fn signed_as_bytes(v: Seq<i8>) -> Seq<u8> {
    v.map_values(|x: i8| x as u8)
}

pub open spec fn is_hyphen_pos(i: int) -> bool {
    i == 8 || i == 13 || i == 18 || i == 23
}

/// Text of the shape `xxxxxxxx-xxxx-xxxx-xxxx-xxxxxxxxxxxx`, in hexadecimal digits of either case.
pub open spec fn is_guid_text(s: Seq<char>) -> bool {
    &&& s.len() == 36
    &&& forall|i: int|
        0 <= i < 36 ==> if is_hyphen_pos(i) {
            #[trigger] s[i] == '-'
        } else {
            is_hex_digit(s[i])
        }
}

/// The GUID that well-formed text spells: digit groups taken as written, without
/// the byte swapping of the binary form.
pub open spec fn guid_from_text(s: Seq<char>) -> EfiGuid {
    EfiGuid {
        a: hex_number(s, 0, 8) as u32,
        b: hex_number(s, 9, 13) as u16,
        c: hex_number(s, 14, 18) as u16,
        d: [
            hex_number(s, 19, 21) as u8,
            hex_number(s, 21, 23) as u8,
            hex_number(s, 24, 26) as u8,
            hex_number(s, 26, 28) as u8,
            hex_number(s, 28, 30) as u8,
            hex_number(s, 30, 32) as u8,
            hex_number(s, 32, 34) as u8,
            hex_number(s, 34, 36) as u8,
        ],
    }
}

/// The outcome of parsing `s`.
pub open spec fn parse_spec(s: Seq<char>) -> Result<EfiGuid, EfiGuidError> {
    if is_guid_text(s) {
        Ok(guid_from_text(s))
    } else {
        Err(EfiGuidError::BadFormat)
    }
}

/// The canonical text of `g`: lower case, zero-padded, grouped 8-4-4-4-12.
pub open spec fn guid_text(g: EfiGuid) -> Seq<char> {
    hex_digits(g.a as nat, 8) + seq!['-'] + hex_digits(g.b as nat, 4) + seq!['-'] + hex_digits(
        g.c as nat,
        4,
    ) + seq!['-'] + hex_digits(g.d[0] as nat, 2) + hex_digits(g.d[1] as nat, 2) + seq!['-']
        + hex_digits(g.d[2] as nat, 2) + hex_digits(g.d[3] as nat, 2) + hex_digits(g.d[4] as nat, 2)
        + hex_digits(g.d[5] as nat, 2) + hex_digits(g.d[6] as nat, 2) + hex_digits(
        g.d[7] as nat,
        2,
    )
}

/// The fields in the order in which GUIDs are compared: `a`, `b`, `c`, then the
/// tail from its last byte down to its first.
pub open spec fn order_key(g: EfiGuid) -> Seq<int> {
    seq![
        g.a as int,
        g.b as int,
        g.c as int,
        g.d[7] as int,
        g.d[6] as int,
        g.d[5] as int,
        g.d[4] as int,
        g.d[3] as int,
        g.d[2] as int,
        g.d[1] as int,
        g.d[0] as int,
    ]
}

/// Lexicographic order on sequences of integers.
pub open spec fn lex_less(x: Seq<int>, y: Seq<int>) -> bool
    decreases x.len(),
{
    if x.len() == 0 || y.len() == 0 {
        false
    } else if x[0] != y[0] {
        x[0] < y[0]
    } else {
        lex_less(x.drop_first(), y.drop_first())
    }
}

pub open spec fn guid_less(x: EfiGuid, y: EfiGuid) -> bool {
    lex_less(order_key(x), order_key(y))
}

pub open spec fn same_guid(x: EfiGuid, y: EfiGuid) -> bool {
    x.a == y.a && x.b == y.b && x.c == y.c && x.d@ == y.d@
}

pub open spec fn compare_spec(x: EfiGuid, y: EfiGuid) -> core::cmp::Ordering {
    if guid_less(x, y) {
        core::cmp::Ordering::Less
    } else if same_guid(x, y) {
        core::cmp::Ordering::Equal
    } else {
        core::cmp::Ordering::Greater
    }
}

impl PartialEq for EfiGuid {
    fn eq(&self, other: &EfiGuid) -> (r: bool) {
        let r = self.a == other.a && self.b == other.b && self.c == other.c && self.d[0]
            == other.d[0] && self.d[1] == other.d[1] && self.d[2] == other.d[2] && self.d[3]
            == other.d[3] && self.d[4] == other.d[4] && self.d[5] == other.d[5] && self.d[6]
            == other.d[6] && self.d[7] == other.d[7];
        proof {
            if r {
                assert(self.d@ =~= other.d@);
            } else if self.d@ == other.d@ {
                assert(self.d@[0] == other.d@[0] && self.d@[7] == other.d@[7]);
            }
        }
        r
    }
}

impl vstd::std_specs::cmp::PartialEqSpecImpl for EfiGuid {
    open spec fn obeys_eq_spec() -> bool {
        true
    }

    open spec fn eq_spec(&self, other: &EfiGuid) -> bool {
        same_guid(*self, *other)
    }
}

impl PartialOrd for EfiGuid {
    fn partial_cmp(&self, other: &EfiGuid) -> (r: Option<core::cmp::Ordering>) {
        Some(self.compare(other))
    }
}

impl vstd::std_specs::cmp::PartialOrdSpecImpl for EfiGuid {
    open spec fn obeys_partial_cmp_spec() -> bool {
        true
    }

    open spec fn partial_cmp_spec(&self, other: &EfiGuid) -> Option<core::cmp::Ordering> {
        Some(compare_spec(*self, *other))
    }
}

proof fn lemma_lex_skip(x: Seq<int>, y: Seq<int>, k: int)
    requires
        0 <= k <= x.len(),
        x.len() == y.len(),
        x.subrange(0, k) == y.subrange(0, k),
    ensures
        lex_less(x, y) == lex_less(x.subrange(k, x.len() as int), y.subrange(k, y.len() as int)),
    decreases k,
{
    if k > 0 {
        assert(x[0] == x.subrange(0, k)[0]);
        assert(y[0] == y.subrange(0, k)[0]);
        assert(x.drop_first().subrange(0, k - 1) =~= x.subrange(0, k).drop_first());
        assert(y.drop_first().subrange(0, k - 1) =~= y.subrange(0, k).drop_first());
        lemma_lex_skip(x.drop_first(), y.drop_first(), k - 1);
        assert(x.drop_first().subrange(k - 1, x.len() - 1) =~= x.subrange(k, x.len() as int));
        assert(y.drop_first().subrange(k - 1, y.len() - 1) =~= y.subrange(k, y.len() as int));
    } else {
        assert(x.subrange(0, x.len() as int) =~= x);
        assert(y.subrange(0, y.len() as int) =~= y);
    }
}

proof fn lemma_lex_step(x: Seq<int>, y: Seq<int>, k: int)
    requires
        0 <= k < x.len(),
        x.len() == y.len(),
        x.subrange(0, k) == y.subrange(0, k),
    ensures
        x[k] < y[k] ==> lex_less(x, y),
        x[k] > y[k] ==> !lex_less(x, y),
        x[k] == y[k] ==> x.subrange(0, k + 1) == y.subrange(0, k + 1),
{
    lemma_lex_skip(x, y, k);
    let xs = x.subrange(k, x.len() as int);
    let ys = y.subrange(k, y.len() as int);
    assert(xs[0] == x[k]);
    assert(ys[0] == y[k]);
    if x[k] == y[k] {
        assert(x.subrange(0, k + 1) =~= x.subrange(0, k).push(x[k]));
        assert(y.subrange(0, k + 1) =~= y.subrange(0, k).push(y[k]));
    }
}

proof fn lemma_lex_equal_not_less(x: Seq<int>)
    ensures
        !lex_less(x, x),
    decreases x.len(),
{
    if x.len() > 0 {
        lemma_lex_equal_not_less(x.drop_first());
    }
}

proof fn lemma_lex_total(x: Seq<int>, y: Seq<int>)
    requires
        x.len() == y.len(),
    ensures
        x =~= y || lex_less(x, y) || lex_less(y, x),
        !(lex_less(x, y) && lex_less(y, x)),
    decreases x.len(),
{
    if x.len() > 0 && x[0] == y[0] {
        lemma_lex_total(x.drop_first(), y.drop_first());
        if x.drop_first() =~= y.drop_first() {
            assert(x =~= seq![x[0]] + x.drop_first());
            assert(y =~= seq![y[0]] + y.drop_first());
        }
    }
}

proof fn lemma_lex_transitive(x: Seq<int>, y: Seq<int>, z: Seq<int>)
    requires
        x.len() == y.len(),
        y.len() == z.len(),
        lex_less(x, y),
        lex_less(y, z),
    ensures
        lex_less(x, z),
    decreases x.len(),
{
    if x[0] == y[0] && y[0] == z[0] {
        lemma_lex_transitive(x.drop_first(), y.drop_first(), z.drop_first());
    }
}

proof fn lemma_same_guid_key(x: EfiGuid, y: EfiGuid)
    ensures
        same_guid(x, y) <==> order_key(x) == order_key(y),
{
    if order_key(x) == order_key(y) {
        assert(order_key(x)[3] == order_key(y)[3]);
        assert(order_key(x)[0] == order_key(y)[0]);
        assert(order_key(x)[1] == order_key(y)[1]);
        assert(order_key(x)[2] == order_key(y)[2]);
        assert(order_key(x)[4] == order_key(y)[4]);
        assert(order_key(x)[5] == order_key(y)[5]);
        assert(order_key(x)[6] == order_key(y)[6]);
        assert(order_key(x)[7] == order_key(y)[7]);
        assert(order_key(x)[8] == order_key(y)[8]);
        assert(order_key(x)[9] == order_key(y)[9]);
        assert(order_key(x)[10] == order_key(y)[10]);
        assert(x.d@ =~= y.d@);
    }
    if same_guid(x, y) {
        assert(x.d@[0] == y.d@[0] && x.d@[1] == y.d@[1] && x.d@[2] == y.d@[2] && x.d@[3]
            == y.d@[3]);
        assert(x.d@[4] == y.d@[4] && x.d@[5] == y.d@[5] && x.d@[6] == y.d@[6] && x.d@[7]
            == y.d@[7]);
        assert(order_key(x) =~= order_key(y));
    }
}

/// GUIDs are totally ordered: of two GUIDs that differ, exactly one is the smaller.
pub proof fn lemma_guid_order_total(x: EfiGuid, y: EfiGuid)
    ensures
        same_guid(x, y) || guid_less(x, y) || guid_less(y, x),
        !(guid_less(x, y) && guid_less(y, x)),
        same_guid(x, y) ==> !guid_less(x, y),
{
    lemma_lex_total(order_key(x), order_key(y));
    lemma_same_guid_key(x, y);
    lemma_lex_equal_not_less(order_key(x));
}

/// The order of GUIDs is transitive.
pub proof fn lemma_guid_order_transitive(x: EfiGuid, y: EfiGuid, z: EfiGuid)
    requires
        guid_less(x, y),
        guid_less(y, z),
    ensures
        guid_less(x, z),
{
    lemma_lex_transitive(order_key(x), order_key(y), order_key(z));
}

/// The all-zero GUID comes before the all-ones GUID.
pub proof fn lemma_zero_before_ones()
    ensures
        guid_less(
            guid_from_text(
                "00000000-0000-0000-0000-000000000000"@,
            ),
            guid_from_text("ffffffff-ffff-ffff-ffff-ffffffffffff"@),
        ),
{
    reveal_strlit("00000000-0000-0000-0000-000000000000");
    reveal_strlit("ffffffff-ffff-ffff-ffff-ffffffffffff");
    let zeros = "00000000-0000-0000-0000-000000000000"@;
    let ones = "ffffffff-ffff-ffff-ffff-ffffffffffff"@;
    assert(hex_number(zeros, 0, 8) == 0) by {
        reveal_with_fuel(hex_number, 9);
    }
    assert(hex_number(ones, 0, 8) == 0xffffffff) by {
        reveal_with_fuel(hex_number, 9);
    }
}

impl EfiGuid {
    /// The GUID stored in sixteen bytes of binary (mixed-endian) form.
    pub fn from_bytes(v: &[u8; 16]) -> (r: EfiGuid)
        ensures
            r == guid_from_bytes(v@),
    {
        let a: u32 = v[0] as u32 + 256 * (v[1] as u32) + 65536 * (v[2] as u32) + 16777216 * (
        v[3] as u32);
        let b: u16 = v[4] as u16 + 256 * (v[5] as u16);
        let c: u16 = v[6] as u16 + 256 * (v[7] as u16);
        EfiGuid { a, b, c, d: [v[8], v[9], v[10], v[11], v[12], v[13], v[14], v[15]] }
    }

    /// The GUID stored in sixteen signed bytes, each taken as its bit pattern.
    pub fn from_signed_bytes(v: &[i8; 16]) -> (r: EfiGuid)
        ensures
            r == guid_from_bytes(signed_as_bytes(v@)),
    {
        let mut u: [u8; 16] = [0u8; 16];
        let mut i: usize = 0;
        while i < 16
            invariant
                i <= 16,
                forall|j: int| 0 <= j < i ==> u@[j] == v@[j] as u8,
            decreases 16 - i,
        {
            u[i] = v[i] as u8;
            i = i + 1;
        }
        assert(u@ =~= signed_as_bytes(v@));
        EfiGuid::from_bytes(&u)
    }

    /// The GUID stored in a borrowed byte slice, which must hold exactly sixteen bytes.
    pub fn try_from_slice(v: &[u8]) -> (r: Result<EfiGuid, EfiGuidError>)
        ensures
            v@.len() < 16 ==> r == Err::<EfiGuid, EfiGuidError>(EfiGuidError::SliceLengthTooShort),
            v@.len() > 16 ==> r == Err::<EfiGuid, EfiGuidError>(EfiGuidError::SliceLengthTooLong),
            v@.len() == 16 ==> r == Ok::<EfiGuid, EfiGuidError>(guid_from_bytes(v@)),
    {
        if v.len() < 16 {
            return Err(EfiGuidError::SliceLengthTooShort);
        }
        if v.len() > 16 {
            return Err(EfiGuidError::SliceLengthTooLong);
        }
        let mut u: [u8; 16] = [0u8; 16];
        let mut i: usize = 0;
        while i < 16
            invariant
                i <= 16,
                v@.len() == 16,
                forall|j: int| 0 <= j < i ==> u@[j] == v@[j],
            decreases 16 - i,
        {
            u[i] = v[i];
            i = i + 1;
        }
        assert(u@ =~= v@);
        Ok(EfiGuid::from_bytes(&u))
    }

    /// As `try_from_slice`, for signed bytes.
    pub fn try_from_signed_slice(v: &[i8]) -> (r: Result<EfiGuid, EfiGuidError>)
        ensures
            v@.len() < 16 ==> r == Err::<EfiGuid, EfiGuidError>(EfiGuidError::SliceLengthTooShort),
            v@.len() > 16 ==> r == Err::<EfiGuid, EfiGuidError>(EfiGuidError::SliceLengthTooLong),
            v@.len() == 16 ==> r == Ok::<EfiGuid, EfiGuidError>(
                guid_from_bytes(signed_as_bytes(v@)),
            ),
    {
        if v.len() < 16 {
            return Err(EfiGuidError::SliceLengthTooShort);
        }
        if v.len() > 16 {
            return Err(EfiGuidError::SliceLengthTooLong);
        }
        let mut u: [i8; 16] = [0i8; 16];
        let mut i: usize = 0;
        while i < 16
            invariant
                i <= 16,
                v@.len() == 16,
                forall|j: int| 0 <= j < i ==> u@[j] == v@[j],
            decreases 16 - i,
        {
            u[i] = v[i];
            i = i + 1;
        }
        assert(u@ =~= v@);
        Ok(EfiGuid::from_signed_bytes(&u))
    }

    /// The GUID stored in an owned byte vector, which must hold exactly sixteen bytes.
    pub fn try_from_vec(v: Vec<u8>) -> (r: Result<EfiGuid, EfiGuidError>)
        ensures
            v@.len() < 16 ==> r == Err::<EfiGuid, EfiGuidError>(EfiGuidError::VecLengthTooShort),
            v@.len() > 16 ==> r == Err::<EfiGuid, EfiGuidError>(EfiGuidError::VecLengthTooLong),
            v@.len() == 16 ==> r == Ok::<EfiGuid, EfiGuidError>(guid_from_bytes(v@)),
    {
        match EfiGuid::try_from_slice(v.as_slice()) {
            Ok(g) => Ok(g),
            Err(EfiGuidError::SliceLengthTooShort) => Err(EfiGuidError::VecLengthTooShort),
            Err(_) => Err(EfiGuidError::VecLengthTooLong),
        }
    }

    /// As `try_from_vec`, for signed bytes.
    pub fn try_from_signed_vec(v: Vec<i8>) -> (r: Result<EfiGuid, EfiGuidError>)
        ensures
            v@.len() < 16 ==> r == Err::<EfiGuid, EfiGuidError>(EfiGuidError::VecLengthTooShort),
            v@.len() > 16 ==> r == Err::<EfiGuid, EfiGuidError>(EfiGuidError::VecLengthTooLong),
            v@.len() == 16 ==> r == Ok::<EfiGuid, EfiGuidError>(
                guid_from_bytes(signed_as_bytes(v@)),
            ),
    {
        match EfiGuid::try_from_signed_slice(v.as_slice()) {
            Ok(g) => Ok(g),
            Err(EfiGuidError::SliceLengthTooShort) => Err(EfiGuidError::VecLengthTooShort),
            Err(_) => Err(EfiGuidError::VecLengthTooLong),
        }
    }

    /// Parses the text form `xxxxxxxx-xxxx-xxxx-xxxx-xxxxxxxxxxxx` (digits of either case).
    pub fn parse(text: &str) -> (r: Result<EfiGuid, EfiGuidError>)
        ensures
            r == parse_spec(text@),
    {
        let chars = chars_of(text);
        EfiGuid::parse_chars(&chars)
    }

    pub(crate) fn parse_chars(s: &Vec<char>) -> (r: Result<EfiGuid, EfiGuidError>)
        ensures
            r == parse_spec(s@),
    {
        if s.len() != 36 {
            return Err(EfiGuidError::BadFormat);
        }
        let mut i: usize = 0;
        while i < 36
            invariant
                s@.len() == 36,
                i <= 36,
                forall|j: int|
                    0 <= j < i ==> if is_hyphen_pos(j) {
                        #[trigger] s@[j] == '-'
                    } else {
                        is_hex_digit(s@[j])
                    },
            decreases 36 - i,
        {
            let c = s[i];
            if i == 8 || i == 13 || i == 18 || i == 23 {
                if c != '-' {
                    assert(!is_guid_text(s@));
                    return Err(EfiGuidError::BadFormat);
                }
            } else {
                let ok = ('0' <= c && c <= '9') || ('a' <= c && c <= 'f') || ('A' <= c && c <= 'F');
                if !ok {
                    assert(!is_guid_text(s@));
                    return Err(EfiGuidError::BadFormat);
                }
            }
            i = i + 1;
        }
        let a = hex_field(s, 0, 8) as u32;
        let b = hex_field(s, 9, 13) as u16;
        let c = hex_field(s, 14, 18) as u16;
        let d0 = hex_field(s, 19, 21) as u8;
        let d1 = hex_field(s, 21, 23) as u8;
        let d2 = hex_field(s, 24, 26) as u8;
        let d3 = hex_field(s, 26, 28) as u8;
        let d4 = hex_field(s, 28, 30) as u8;
        let d5 = hex_field(s, 30, 32) as u8;
        let d6 = hex_field(s, 32, 34) as u8;
        let d7 = hex_field(s, 34, 36) as u8;
        Ok(EfiGuid { a, b, c, d: [d0, d1, d2, d3, d4, d5, d6, d7] })
    }

    /// The canonical text form: lower case, zero-padded, grouped 8-4-4-4-12.
    pub fn to_string(&self) -> (r: String)
        ensures
            r@ == guid_text(*self),
    {
        let mut out: Vec<char> = Vec::new();
        push_hex(&mut out, self.a as u64, 8);
        out.push('-');
        push_hex(&mut out, self.b as u64, 4);
        out.push('-');
        push_hex(&mut out, self.c as u64, 4);
        out.push('-');
        push_hex(&mut out, self.d[0] as u64, 2);
        push_hex(&mut out, self.d[1] as u64, 2);
        out.push('-');
        push_hex(&mut out, self.d[2] as u64, 2);
        push_hex(&mut out, self.d[3] as u64, 2);
        push_hex(&mut out, self.d[4] as u64, 2);
        push_hex(&mut out, self.d[5] as u64, 2);
        push_hex(&mut out, self.d[6] as u64, 2);
        push_hex(&mut out, self.d[7] as u64, 2);
        assert(out@ =~= guid_text(*self));
        string_from_chars(&out)
    }

    /// Compares `a`, then `b`, then `c`, then the tail from its last byte down to its first.
    pub fn compare(&self, other: &EfiGuid) -> (r: core::cmp::Ordering)
        ensures
            r == compare_spec(*self, *other),
    {
        let ghost x = order_key(*self);
        let ghost y = order_key(*other);
        proof {
            lemma_guid_order_total(*self, *other);
            lemma_same_guid_key(*self, *other);
            assert(x.subrange(0, 0) =~= y.subrange(0, 0));
            lemma_lex_step(x, y, 0);
        }
        if self.a != other.a {
            return if self.a < other.a {
                core::cmp::Ordering::Less
            } else {
                core::cmp::Ordering::Greater
            };
        }
        proof {
            lemma_lex_step(x, y, 1);
        }
        if self.b != other.b {
            return if self.b < other.b {
                core::cmp::Ordering::Less
            } else {
                core::cmp::Ordering::Greater
            };
        }
        proof {
            lemma_lex_step(x, y, 2);
        }
        if self.c != other.c {
            return if self.c < other.c {
                core::cmp::Ordering::Less
            } else {
                core::cmp::Ordering::Greater
            };
        }
        let mut i: usize = 0;
        while i < 8
            invariant
                i <= 8,
                x == order_key(*self),
                y == order_key(*other),
                x.subrange(0, 3 + i) == y.subrange(0, 3 + i),
                same_guid(*self, *other) <==> x == y,
                !(guid_less(*self, *other) && guid_less(*other, *self)),
                same_guid(*self, *other) || guid_less(*self, *other) || guid_less(*other, *self),
            decreases 8 - i,
        {
            let p = self.d[7 - i];
            let q = other.d[7 - i];
            proof {
                assert(x[3 + i] == p);
                assert(y[3 + i] == q);
                lemma_lex_step(x, y, 3 + i);
            }
            if p != q {
                return if p < q {
                    core::cmp::Ordering::Less
                } else {
                    core::cmp::Ordering::Greater
                };
            }
            i = i + 1;
        }
        proof {
            assert(x =~= x.subrange(0, 11));
            assert(y =~= y.subrange(0, 11));
        }
        core::cmp::Ordering::Equal
    }
}

/// The value of the hexadecimal digits `s[lo..hi]`.
fn hex_field(s: &Vec<char>, lo: usize, hi: usize) -> (r: u64)
    requires
        lo <= hi <= s@.len(),
        hi - lo <= 8,
        forall|j: int| lo <= j < hi ==> is_hex_digit(#[trigger] s@[j]),
    ensures
        r == hex_number(s@, lo as int, hi as int),
        r < pow16((hi - lo) as nat),
{
    let mut acc: u64 = 0;
    let mut i: usize = lo;
    proof {
        lemma_pow16_mono(0, 8);
    }
    while i < hi
        invariant
            lo <= i <= hi,
            hi <= s@.len(),
            hi - lo <= 8,
            forall|j: int| lo <= j < hi ==> is_hex_digit(#[trigger] s@[j]),
            acc == hex_number(s@, lo as int, i as int),
            acc < pow16((i - lo) as nat),
            pow16((i - lo) as nat) <= pow16(8),
        decreases hi - i,
    {
        let c = s[i];
        assert(is_hex_digit(c));
        let v: u64 = if '0' <= c && c <= '9' {
            (c as u32 - '0' as u32) as u64
        } else if 'a' <= c && c <= 'f' {
            (c as u32 - 'a' as u32 + 10) as u64
        } else {
            (c as u32 - 'A' as u32 + 10) as u64
        };
        assert(v == hex_value(c));
        assert(pow16(8) == 4294967296) by {
            reveal_with_fuel(pow16, 9);
        }
        proof {
            lemma_pow16_mono((i - lo) as nat, 8);
            if i + 1 - lo <= 8 {
                lemma_pow16_mono((i + 1 - lo) as nat, 8);
            }
        }
        acc = acc * 16 + v;
        i = i + 1;
    }
    acc
}

proof fn lemma_pow16_mono(a: nat, b: nat)
    requires
        a <= b,
    ensures
        pow16(a) <= pow16(b),
    decreases b,
{
    if a < b {
        lemma_pow16_mono(a, (b - 1) as nat);
    }
}

/// Parsing the canonical text of a GUID gives that GUID back.
pub proof fn lemma_text_round_trip(g: EfiGuid)
    ensures
        parse_spec(guid_text(g)) == Ok::<EfiGuid, EfiGuidError>(g),
{
    let s = guid_text(g);
    reveal_with_fuel(pow16, 9);
    lemma_hex_digits_len(g.a as nat, 8);
    lemma_hex_digits_len(g.b as nat, 4);
    lemma_hex_digits_len(g.c as nat, 4);
    lemma_hex_digits_len(g.d[0] as nat, 2);
    lemma_hex_digits_len(g.d[1] as nat, 2);
    lemma_hex_digits_len(g.d[2] as nat, 2);
    lemma_hex_digits_len(g.d[3] as nat, 2);
    lemma_hex_digits_len(g.d[4] as nat, 2);
    lemma_hex_digits_len(g.d[5] as nat, 2);
    lemma_hex_digits_len(g.d[6] as nat, 2);
    lemma_hex_digits_len(g.d[7] as nat, 2);
    assert(hex_digits(g.d[0] as nat, 2).len() == 2);
    assert(hex_digits(g.d[7] as nat, 2).len() == 2);
    assert(s.len() == 36);
    assert(s.subrange(0, 8) =~= hex_digits(g.a as nat, 8));
    assert(s.subrange(9, 13) =~= hex_digits(g.b as nat, 4));
    assert(s.subrange(14, 18) =~= hex_digits(g.c as nat, 4));
    assert(s.subrange(19, 21) =~= hex_digits(g.d[0] as nat, 2));
    assert(s.subrange(21, 23) =~= hex_digits(g.d[1] as nat, 2));
    assert(s.subrange(24, 26) =~= hex_digits(g.d[2] as nat, 2));
    assert(s.subrange(26, 28) =~= hex_digits(g.d[3] as nat, 2));
    assert(s.subrange(28, 30) =~= hex_digits(g.d[4] as nat, 2));
    assert(s.subrange(30, 32) =~= hex_digits(g.d[5] as nat, 2));
    assert(s.subrange(32, 34) =~= hex_digits(g.d[6] as nat, 2));
    assert(s.subrange(34, 36) =~= hex_digits(g.d[7] as nat, 2));
    lemma_hex_round_trip(s, 0, g.a as nat, 8);
    lemma_hex_round_trip(s, 9, g.b as nat, 4);
    lemma_hex_round_trip(s, 14, g.c as nat, 4);
    lemma_hex_round_trip(s, 19, g.d[0] as nat, 2);
    lemma_hex_round_trip(s, 21, g.d[1] as nat, 2);
    lemma_hex_round_trip(s, 24, g.d[2] as nat, 2);
    lemma_hex_round_trip(s, 26, g.d[3] as nat, 2);
    lemma_hex_round_trip(s, 28, g.d[4] as nat, 2);
    lemma_hex_round_trip(s, 30, g.d[5] as nat, 2);
    lemma_hex_round_trip(s, 32, g.d[6] as nat, 2);
    lemma_hex_round_trip(s, 34, g.d[7] as nat, 2);
    assert(s[8] == '-' && s[13] == '-' && s[18] == '-' && s[23] == '-');
    assert(is_guid_text(s));
    let h = guid_from_text(s);
    assert(h.d@ =~= g.d@);
    assert(h.d == g.d);
}

/// For every sixteen bytes, formatting the GUID they hold and parsing the text
/// gives the same GUID.
pub proof fn lemma_bytes_text_round_trip(v: Seq<u8>)
    requires
        v.len() == 16,
    ensures
        parse_spec(guid_text(guid_from_bytes(v))) == Ok::<EfiGuid, EfiGuidError>(
            guid_from_bytes(v),
        ),
{
    lemma_text_round_trip(guid_from_bytes(v));
}

impl From<&[u8; 16]> for EfiGuid {
    fn from(v: &[u8; 16]) -> (r: EfiGuid) {
        EfiGuid::from_bytes(v)
    }
}

impl vstd::std_specs::convert::FromSpecImpl<&[u8; 16]> for EfiGuid {
    open spec fn obeys_from_spec() -> bool {
        true
    }

    open spec fn from_spec(v: &[u8; 16]) -> EfiGuid {
        guid_from_bytes(v@)
    }
}

impl From<&[i8; 16]> for EfiGuid {
    fn from(v: &[i8; 16]) -> (r: EfiGuid) {
        EfiGuid::from_signed_bytes(v)
    }
}

impl vstd::std_specs::convert::FromSpecImpl<&[i8; 16]> for EfiGuid {
    open spec fn obeys_from_spec() -> bool {
        true
    }

    open spec fn from_spec(v: &[i8; 16]) -> EfiGuid {
        guid_from_bytes(signed_as_bytes(v@))
    }
}

/// The outcome of taking a GUID from a sequence of bytes held in a slice.
pub open spec fn slice_spec(v: Seq<u8>) -> Result<EfiGuid, EfiGuidError> {
    if v.len() < 16 {
        Err(EfiGuidError::SliceLengthTooShort)
    } else if v.len() > 16 {
        Err(EfiGuidError::SliceLengthTooLong)
    } else {
        Ok(guid_from_bytes(v))
    }
}

/// The outcome of taking a GUID from a sequence of bytes held in a vector.
pub open spec fn vec_spec(v: Seq<u8>) -> Result<EfiGuid, EfiGuidError> {
    if v.len() < 16 {
        Err(EfiGuidError::VecLengthTooShort)
    } else if v.len() > 16 {
        Err(EfiGuidError::VecLengthTooLong)
    } else {
        Ok(guid_from_bytes(v))
    }
}

impl TryFrom<&[u8]> for EfiGuid {
    type Error = EfiGuidError;

    fn try_from(v: &[u8]) -> (r: Result<EfiGuid, EfiGuidError>) {
        EfiGuid::try_from_slice(v)
    }
}

impl vstd::std_specs::convert::TryFromSpecImpl<&[u8]> for EfiGuid {
    open spec fn obeys_try_from_spec() -> bool {
        true
    }

    open spec fn try_from_spec(v: &[u8]) -> Result<EfiGuid, EfiGuidError> {
        slice_spec(v@)
    }
}

impl TryFrom<&[i8]> for EfiGuid {
    type Error = EfiGuidError;

    fn try_from(v: &[i8]) -> (r: Result<EfiGuid, EfiGuidError>) {
        EfiGuid::try_from_signed_slice(v)
    }
}

impl vstd::std_specs::convert::TryFromSpecImpl<&[i8]> for EfiGuid {
    open spec fn obeys_try_from_spec() -> bool {
        true
    }

    open spec fn try_from_spec(v: &[i8]) -> Result<EfiGuid, EfiGuidError> {
        slice_spec(signed_as_bytes(v@))
    }
}

impl TryFrom<Vec<u8>> for EfiGuid {
    type Error = EfiGuidError;

    fn try_from(v: Vec<u8>) -> (r: Result<EfiGuid, EfiGuidError>) {
        EfiGuid::try_from_vec(v)
    }
}

impl vstd::std_specs::convert::TryFromSpecImpl<Vec<u8>> for EfiGuid {
    open spec fn obeys_try_from_spec() -> bool {
        true
    }

    open spec fn try_from_spec(v: Vec<u8>) -> Result<EfiGuid, EfiGuidError> {
        vec_spec(v@)
    }
}

impl TryFrom<Vec<i8>> for EfiGuid {
    type Error = EfiGuidError;

    fn try_from(v: Vec<i8>) -> (r: Result<EfiGuid, EfiGuidError>) {
        EfiGuid::try_from_signed_vec(v)
    }
}

impl vstd::std_specs::convert::TryFromSpecImpl<Vec<i8>> for EfiGuid {
    open spec fn obeys_try_from_spec() -> bool {
        true
    }

    open spec fn try_from_spec(v: Vec<i8>) -> Result<EfiGuid, EfiGuidError> {
        vec_spec(signed_as_bytes(v@))
    }
}

impl TryFrom<&str> for EfiGuid {
    type Error = EfiGuidError;

    fn try_from(v: &str) -> (r: Result<EfiGuid, EfiGuidError>) {
        EfiGuid::parse(v)
    }
}

impl vstd::std_specs::convert::TryFromSpecImpl<&str> for EfiGuid {
    open spec fn obeys_try_from_spec() -> bool {
        true
    }

    open spec fn try_from_spec(v: &str) -> Result<EfiGuid, EfiGuidError> {
        parse_spec(v@)
    }
}

impl core::str::FromStr for EfiGuid {
    type Err = EfiGuidError;

    fn from_str(v: &str) -> (r: Result<EfiGuid, EfiGuidError>) {
        EfiGuid::parse(v)
    }
}

} // verus!
