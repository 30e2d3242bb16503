//! Attribute flags of a firmware variable and the decoder of the 32-bit attribute word.

use crate::text::{alt_hex, push_alt_hex, push_str, string_from_chars};
use vstd::prelude::*;

verus! {

/// A named bit flag in the attribute word of a variable.
#[derive(Debug, Clone, Copy, PartialEq, Eq, Hash)]
pub struct EfiVariableAttribute {
    pub name: &'static str,
    pub value: u32,
}

/// A named flag with a 64-bit value.
#[derive(Debug, Clone, Copy, PartialEq, Eq)]
pub struct EfivarAttribute {
    pub name: &'static str,
    pub value: u64,
}

pub open spec fn attribute_text(a: EfiVariableAttribute) -> Seq<char> {
    "EfiVariableAttribute {name: \""@ + a.name@ + "\", value: "@ + alt_hex(a.value as nat, 8)
        + "}"@
}

pub open spec fn efivar_attribute_text(a: EfivarAttribute) -> Seq<char> {
    "EfivarAttribute {name: \""@ + a.name@ + "\", value: "@ + alt_hex(a.value as nat, 16) + "}"@
}

impl EfiVariableAttribute {
    pub fn new(name: &'static str, value: u32) -> (r: EfiVariableAttribute)
        ensures
            r.name == name,
            r.value == value,
    {
        EfiVariableAttribute { name, value }
    }

    pub fn name(&self) -> (r: &'static str)
        ensures
            r == self.name,
    {
        self.name
    }

    /// `EfiVariableAttribute {name: "<name>", value: 0x<value>}`, the value padded to six digits.
    pub fn to_string(&self) -> (r: String)
        ensures
            r@ == attribute_text(*self),
    {
        let mut out: Vec<char> = Vec::new();
        push_str(&mut out, "EfiVariableAttribute {name: \"");
        push_str(&mut out, self.name);
        push_str(&mut out, "\", value: ");
        push_alt_hex(&mut out, self.value as u64, 8);
        push_str(&mut out, "}");
        string_from_chars(&out)
    }
}

impl EfivarAttribute {
    pub fn init(name: &'static str, value: u64) -> (r: EfivarAttribute)
        ensures
            r.name == name,
            r.value == value,
    {
        EfivarAttribute { name, value }
    }

    pub fn name(&self) -> (r: &'static str)
        ensures
            r == self.name,
    {
        self.name
    }

    /// `EfivarAttribute {name: "<name>", value: 0x<value>}`, the value padded to fourteen digits.
    pub fn to_string(&self) -> (r: String)
        ensures
            r@ == efivar_attribute_text(*self),
    {
        let mut out: Vec<char> = Vec::new();
        push_str(&mut out, "EfivarAttribute {name: \"");
        push_str(&mut out, self.name);
        push_str(&mut out, "\", value: ");
        push_alt_hex(&mut out, self.value, 16);
        push_str(&mut out, "}");
        string_from_chars(&out)
    }
}

/// The eight attributes that UEFI defines, in ascending order of value.
pub open spec fn known_attribute(k: int) -> EfiVariableAttribute {
    if k == 0 {
        EfiVariableAttribute { name: "Non-Volatile", value: 0x1 }
    } else if k == 1 {
        EfiVariableAttribute { name: "Boot Service Access", value: 0x2 }
    } else if k == 2 {
        EfiVariableAttribute { name: "Runtime Service Access", value: 0x4 }
    } else if k == 3 {
        EfiVariableAttribute { name: "Hardware Error Record", value: 0x8 }
    } else if k == 4 {
        EfiVariableAttribute { name: "Authenticated Write Access", value: 0x10 }
    } else if k == 5 {
        EfiVariableAttribute { name: "Time-Based Authenticated Write Access", value: 0x20 }
    } else if k == 6 {
        EfiVariableAttribute { name: "Append Write", value: 0x40 }
    } else {
        EfiVariableAttribute { name: "Enhanced Authenticated Access", value: 0x80 }
    }
}

pub const KNOWN_ATTRIBUTE_COUNT: usize = 8;

/// The `k`-th defined attribute.
pub fn known(k: usize) -> (r: EfiVariableAttribute)
    requires
        k < KNOWN_ATTRIBUTE_COUNT,
    ensures
        r == known_attribute(k as int),
{
    if k == 0 {
        EfiVariableAttribute { name: "Non-Volatile", value: 0x1 }
    } else if k == 1 {
        EfiVariableAttribute { name: "Boot Service Access", value: 0x2 }
    } else if k == 2 {
        EfiVariableAttribute { name: "Runtime Service Access", value: 0x4 }
    } else if k == 3 {
        EfiVariableAttribute { name: "Hardware Error Record", value: 0x8 }
    } else if k == 4 {
        EfiVariableAttribute { name: "Authenticated Write Access", value: 0x10 }
    } else if k == 5 {
        EfiVariableAttribute { name: "Time-Based Authenticated Write Access", value: 0x20 }
    } else if k == 6 {
        EfiVariableAttribute { name: "Append Write", value: 0x40 }
    } else {
        EfiVariableAttribute { name: "Enhanced Authenticated Access", value: 0x80 }
    }
}

/// The defined attributes among the first `n` whose bit is set in `word`, in ascending order.
pub open spec fn decoded_prefix(word: u32, n: int) -> Seq<EfiVariableAttribute>
    decreases n,
{
    if n <= 0 {
        Seq::empty()
    } else if word & known_attribute(n - 1).value != 0 {
        decoded_prefix(word, n - 1).push(known_attribute(n - 1))
    } else {
        decoded_prefix(word, n - 1)
    }
}

/// The attributes that `word` sets: each defined flag whose bit is set, in ascending
/// order of value; undefined bits are dropped.
pub open spec fn decoded_attributes(word: u32) -> Seq<EfiVariableAttribute> {
    decoded_prefix(word, 8)
}

proof fn lemma_known_distinct(j: int, k: int)
    requires
        0 <= j < 8,
        0 <= k < 8,
        known_attribute(j) == known_attribute(k),
    ensures
        j == k,
{
    assert(known_attribute(j).value == known_attribute(k).value);
}

proof fn lemma_prefix_membership(word: u32, n: int, k: int)
    requires
        0 <= n <= 8,
        0 <= k < 8,
    ensures
        decoded_prefix(word, n).contains(known_attribute(k)) <==> (k < n && word
            & known_attribute(k).value != 0),
    decreases n,
{
    if n > 0 {
        lemma_prefix_membership(word, n - 1, k);
        let prev = decoded_prefix(word, n - 1);
        let x = known_attribute(n - 1);
        if word & x.value != 0 {
            let cur = prev.push(x);
            if cur.contains(known_attribute(k)) {
                let i = choose|i: int| 0 <= i < cur.len() && cur[i] == known_attribute(k);
                if i == prev.len() {
                    lemma_known_distinct(n - 1, k);
                } else {
                    assert(prev[i] == known_attribute(k));
                }
            }
            if k == n - 1 {
                assert(cur[prev.len() as int] == known_attribute(k));
            } else if prev.contains(known_attribute(k)) {
                let i = choose|i: int| 0 <= i < prev.len() && prev[i] == known_attribute(k);
                assert(cur[i] == known_attribute(k));
            }
        } else {
            if k == n - 1 && prev.contains(known_attribute(k)) {
                assert(false);
            }
        }
    }
}

/// The decoded set holds each defined flag exactly when the word has its bit set.
pub proof fn lemma_decoded_flags(word: u32, k: int)
    requires
        0 <= k < 8,
    ensures
        decoded_attributes(word).contains(known_attribute(k)) <==> word & known_attribute(k).value
            != 0,
{
    lemma_prefix_membership(word, 8, k);
}

/// Decodes an attribute word into the defined flags that it sets, in ascending order.
pub fn parse_attributes(value: u32) -> (r: Vec<EfiVariableAttribute>)
    ensures
        r@ == decoded_attributes(value),
{
    let mut out: Vec<EfiVariableAttribute> = Vec::new();
    let mut k: usize = 0;
    while k < KNOWN_ATTRIBUTE_COUNT
        invariant
            k <= 8,
            out@ == decoded_prefix(value, k as int),
        decreases 8 - k,
    {
        let attr = known(k);
        if value & attr.value != 0 {
            out.push(attr);
        }
        k = k + 1;
    }
    out
}

impl From<EfiVariableAttribute> for u128 {
    fn from(attr: EfiVariableAttribute) -> (r: u128) {
        attr.value as u128
    }
}

impl vstd::std_specs::convert::FromSpecImpl<EfiVariableAttribute> for u128 {
    open spec fn obeys_from_spec() -> bool {
        true
    }

    open spec fn from_spec(attr: EfiVariableAttribute) -> u128 {
        attr.value as u128
    }
}

impl From<&EfiVariableAttribute> for u128 {
    fn from(attr: &EfiVariableAttribute) -> (r: u128) {
        attr.value as u128
    }
}

impl vstd::std_specs::convert::FromSpecImpl<&EfiVariableAttribute> for u128 {
    open spec fn obeys_from_spec() -> bool {
        true
    }

    open spec fn from_spec(attr: &EfiVariableAttribute) -> u128 {
        attr.value as u128
    }
}

impl From<EfiVariableAttribute> for u64 {
    fn from(attr: EfiVariableAttribute) -> (r: u64) {
        attr.value as u64
    }
}

impl vstd::std_specs::convert::FromSpecImpl<EfiVariableAttribute> for u64 {
    open spec fn obeys_from_spec() -> bool {
        true
    }

    open spec fn from_spec(attr: EfiVariableAttribute) -> u64 {
        attr.value as u64
    }
}

impl From<&EfiVariableAttribute> for u64 {
    fn from(attr: &EfiVariableAttribute) -> (r: u64) {
        attr.value as u64
    }
}

impl vstd::std_specs::convert::FromSpecImpl<&EfiVariableAttribute> for u64 {
    open spec fn obeys_from_spec() -> bool {
        true
    }

    open spec fn from_spec(attr: &EfiVariableAttribute) -> u64 {
        attr.value as u64
    }
}

impl From<EfiVariableAttribute> for u32 {
    fn from(attr: EfiVariableAttribute) -> (r: u32) {
        attr.value as u32
    }
}

impl vstd::std_specs::convert::FromSpecImpl<EfiVariableAttribute> for u32 {
    open spec fn obeys_from_spec() -> bool {
        true
    }

    open spec fn from_spec(attr: EfiVariableAttribute) -> u32 {
        attr.value as u32
    }
}

impl From<&EfiVariableAttribute> for u32 {
    fn from(attr: &EfiVariableAttribute) -> (r: u32) {
        attr.value as u32
    }
}

impl vstd::std_specs::convert::FromSpecImpl<&EfiVariableAttribute> for u32 {
    open spec fn obeys_from_spec() -> bool {
        true
    }

    open spec fn from_spec(attr: &EfiVariableAttribute) -> u32 {
        attr.value as u32
    }
}

impl From<EfiVariableAttribute> for i128 {
    fn from(attr: EfiVariableAttribute) -> (r: i128) {
        attr.value as i128
    }
}

impl vstd::std_specs::convert::FromSpecImpl<EfiVariableAttribute> for i128 {
    open spec fn obeys_from_spec() -> bool {
        true
    }

    open spec fn from_spec(attr: EfiVariableAttribute) -> i128 {
        attr.value as i128
    }
}

impl From<&EfiVariableAttribute> for i128 {
    fn from(attr: &EfiVariableAttribute) -> (r: i128) {
        attr.value as i128
    }
}

impl vstd::std_specs::convert::FromSpecImpl<&EfiVariableAttribute> for i128 {
    open spec fn obeys_from_spec() -> bool {
        true
    }

    open spec fn from_spec(attr: &EfiVariableAttribute) -> i128 {
        attr.value as i128
    }
}

impl From<EfiVariableAttribute> for i64 {
    fn from(attr: EfiVariableAttribute) -> (r: i64) {
        attr.value as i64
    }
}

impl vstd::std_specs::convert::FromSpecImpl<EfiVariableAttribute> for i64 {
    open spec fn obeys_from_spec() -> bool {
        true
    }

    open spec fn from_spec(attr: EfiVariableAttribute) -> i64 {
        attr.value as i64
    }
}

impl From<&EfiVariableAttribute> for i64 {
    fn from(attr: &EfiVariableAttribute) -> (r: i64) {
        attr.value as i64
    }
}

impl vstd::std_specs::convert::FromSpecImpl<&EfiVariableAttribute> for i64 {
    open spec fn obeys_from_spec() -> bool {
        true
    }

    open spec fn from_spec(attr: &EfiVariableAttribute) -> i64 {
        attr.value as i64
    }
}

impl From<EfiVariableAttribute> for i32 {
    fn from(attr: EfiVariableAttribute) -> (r: i32) {
        attr.value as i32
    }
}

impl vstd::std_specs::convert::FromSpecImpl<EfiVariableAttribute> for i32 {
    open spec fn obeys_from_spec() -> bool {
        true
    }

    open spec fn from_spec(attr: EfiVariableAttribute) -> i32 {
        attr.value as i32
    }
}

impl From<&EfiVariableAttribute> for i32 {
    fn from(attr: &EfiVariableAttribute) -> (r: i32) {
        attr.value as i32
    }
}

impl vstd::std_specs::convert::FromSpecImpl<&EfiVariableAttribute> for i32 {
    open spec fn obeys_from_spec() -> bool {
        true
    }

    open spec fn from_spec(attr: &EfiVariableAttribute) -> i32 {
        attr.value as i32
    }
}

impl From<EfiVariableAttribute> for String {
    fn from(attr: EfiVariableAttribute) -> (r: String) {
        attr.name.to_owned()
    }
}

impl vstd::std_specs::convert::FromSpecImpl<EfiVariableAttribute> for String {
    open spec fn obeys_from_spec() -> bool {
        false
    }

    open spec fn from_spec(attr: EfiVariableAttribute) -> String {
        arbitrary()
    }
}

impl From<&EfiVariableAttribute> for String {
    fn from(attr: &EfiVariableAttribute) -> (r: String) {
        attr.name.to_owned()
    }
}

impl vstd::std_specs::convert::FromSpecImpl<&EfiVariableAttribute> for String {
    open spec fn obeys_from_spec() -> bool {
        false
    }

    open spec fn from_spec(attr: &EfiVariableAttribute) -> String {
        arbitrary()
    }
}

impl From<EfivarAttribute> for u128 {
    fn from(attr: EfivarAttribute) -> (r: u128) {
        attr.value as u128
    }
}

impl vstd::std_specs::convert::FromSpecImpl<EfivarAttribute> for u128 {
    open spec fn obeys_from_spec() -> bool {
        true
    }

    open spec fn from_spec(attr: EfivarAttribute) -> u128 {
        attr.value as u128
    }
}

impl From<&EfivarAttribute> for u128 {
    fn from(attr: &EfivarAttribute) -> (r: u128) {
        attr.value as u128
    }
}

impl vstd::std_specs::convert::FromSpecImpl<&EfivarAttribute> for u128 {
    open spec fn obeys_from_spec() -> bool {
        true
    }

    open spec fn from_spec(attr: &EfivarAttribute) -> u128 {
        attr.value as u128
    }
}

impl From<EfivarAttribute> for u64 {
    fn from(attr: EfivarAttribute) -> (r: u64) {
        attr.value as u64
    }
}

impl vstd::std_specs::convert::FromSpecImpl<EfivarAttribute> for u64 {
    open spec fn obeys_from_spec() -> bool {
        true
    }

    open spec fn from_spec(attr: EfivarAttribute) -> u64 {
        attr.value as u64
    }
}

impl From<&EfivarAttribute> for u64 {
    fn from(attr: &EfivarAttribute) -> (r: u64) {
        attr.value as u64
    }
}

impl vstd::std_specs::convert::FromSpecImpl<&EfivarAttribute> for u64 {
    open spec fn obeys_from_spec() -> bool {
        true
    }

    open spec fn from_spec(attr: &EfivarAttribute) -> u64 {
        attr.value as u64
    }
}

impl From<EfivarAttribute> for u32 {
    fn from(attr: EfivarAttribute) -> (r: u32) {
        attr.value as u32
    }
}

impl vstd::std_specs::convert::FromSpecImpl<EfivarAttribute> for u32 {
    open spec fn obeys_from_spec() -> bool {
        true
    }

    open spec fn from_spec(attr: EfivarAttribute) -> u32 {
        attr.value as u32
    }
}

impl From<&EfivarAttribute> for u32 {
    fn from(attr: &EfivarAttribute) -> (r: u32) {
        attr.value as u32
    }
}

impl vstd::std_specs::convert::FromSpecImpl<&EfivarAttribute> for u32 {
    open spec fn obeys_from_spec() -> bool {
        true
    }

    open spec fn from_spec(attr: &EfivarAttribute) -> u32 {
        attr.value as u32
    }
}

impl From<EfivarAttribute> for u16 {
    fn from(attr: EfivarAttribute) -> (r: u16) {
        attr.value as u16
    }
}

impl vstd::std_specs::convert::FromSpecImpl<EfivarAttribute> for u16 {
    open spec fn obeys_from_spec() -> bool {
        true
    }

    open spec fn from_spec(attr: EfivarAttribute) -> u16 {
        attr.value as u16
    }
}

impl From<&EfivarAttribute> for u16 {
    fn from(attr: &EfivarAttribute) -> (r: u16) {
        attr.value as u16
    }
}

impl vstd::std_specs::convert::FromSpecImpl<&EfivarAttribute> for u16 {
    open spec fn obeys_from_spec() -> bool {
        true
    }

    open spec fn from_spec(attr: &EfivarAttribute) -> u16 {
        attr.value as u16
    }
}

impl From<EfivarAttribute> for i128 {
    fn from(attr: EfivarAttribute) -> (r: i128) {
        attr.value as i128
    }
}

impl vstd::std_specs::convert::FromSpecImpl<EfivarAttribute> for i128 {
    open spec fn obeys_from_spec() -> bool {
        true
    }

    open spec fn from_spec(attr: EfivarAttribute) -> i128 {
        attr.value as i128
    }
}

impl From<&EfivarAttribute> for i128 {
    fn from(attr: &EfivarAttribute) -> (r: i128) {
        attr.value as i128
    }
}

impl vstd::std_specs::convert::FromSpecImpl<&EfivarAttribute> for i128 {
    open spec fn obeys_from_spec() -> bool {
        true
    }

    open spec fn from_spec(attr: &EfivarAttribute) -> i128 {
        attr.value as i128
    }
}

impl From<EfivarAttribute> for i64 {
    fn from(attr: EfivarAttribute) -> (r: i64) {
        attr.value as i64
    }
}

impl vstd::std_specs::convert::FromSpecImpl<EfivarAttribute> for i64 {
    open spec fn obeys_from_spec() -> bool {
        true
    }

    open spec fn from_spec(attr: EfivarAttribute) -> i64 {
        attr.value as i64
    }
}

impl From<&EfivarAttribute> for i64 {
    fn from(attr: &EfivarAttribute) -> (r: i64) {
        attr.value as i64
    }
}

impl vstd::std_specs::convert::FromSpecImpl<&EfivarAttribute> for i64 {
    open spec fn obeys_from_spec() -> bool {
        true
    }

    open spec fn from_spec(attr: &EfivarAttribute) -> i64 {
        attr.value as i64
    }
}

impl From<EfivarAttribute> for i32 {
    fn from(attr: EfivarAttribute) -> (r: i32) {
        attr.value as i32
    }
}

impl vstd::std_specs::convert::FromSpecImpl<EfivarAttribute> for i32 {
    open spec fn obeys_from_spec() -> bool {
        true
    }

    open spec fn from_spec(attr: EfivarAttribute) -> i32 {
        attr.value as i32
    }
}

impl From<&EfivarAttribute> for i32 {
    fn from(attr: &EfivarAttribute) -> (r: i32) {
        attr.value as i32
    }
}

impl vstd::std_specs::convert::FromSpecImpl<&EfivarAttribute> for i32 {
    open spec fn obeys_from_spec() -> bool {
        true
    }

    open spec fn from_spec(attr: &EfivarAttribute) -> i32 {
        attr.value as i32
    }
}

impl From<EfivarAttribute> for String {
    fn from(attr: EfivarAttribute) -> (r: String) {
        attr.name.to_owned()
    }
}

impl vstd::std_specs::convert::FromSpecImpl<EfivarAttribute> for String {
    open spec fn obeys_from_spec() -> bool {
        false
    }

    open spec fn from_spec(attr: EfivarAttribute) -> String {
        arbitrary()
    }
}

impl From<&EfivarAttribute> for String {
    fn from(attr: &EfivarAttribute) -> (r: String) {
        attr.name.to_owned()
    }
}

impl vstd::std_specs::convert::FromSpecImpl<&EfivarAttribute> for String {
    open spec fn obeys_from_spec() -> bool {
        false
    }

    open spec fn from_spec(attr: &EfivarAttribute) -> String {
        arbitrary()
    }
}

} // verus!
