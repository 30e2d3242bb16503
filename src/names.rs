//! Variable names: `<name>-<guid>` file names and the `<guid>-<name>` form callers give.

use crate::error::VarError;
use crate::guid::{guid_from_text, is_guid_text, EfiGuid};
use crate::text::{push_str, chars_of, string_from_chars};
use crate::MIN_VAR_FILE_NAME_LEN;
use vstd::prelude::*;

verus! {

/// A file name of the shape `<name>-<guid>`: at least 38 characters, a hyphen 37
/// characters from the end and a GUID in the last 36.
pub open spec fn is_variable_file_name(s: Seq<char>) -> bool {
    &&& s.len() >= 38
    &&& s[s.len() - 37] == '-'
    &&& is_guid_text(s.subrange(s.len() - 36, s.len() as int))
}

/// A combined name of the shape `<guid>-<name>`: at least 38 characters, a GUID in
/// the first 36 and a hyphen at position 36.
pub open spec fn is_combined_name(s: Seq<char>) -> bool {
    &&& s.len() >= 38
    &&& s[36] == '-'
    &&& is_guid_text(s.subrange(0, 36))
}

/// The `<name>-<guid>` form of a combined name `<guid>-<name>`.
pub open spec fn normalized(s: Seq<char>) -> Seq<char> {
    s.subrange(37, s.len() as int) + seq!['-'] + s.subrange(0, 36)
}

/// The `<guid>-<name>` form of a combined name, as the legacy interface names its directories.
pub open spec fn guid_first(guid_text: Seq<char>, name: Seq<char>) -> Seq<char> {
    guid_text + seq!['-'] + name
}

/// The file names among `s` that name variables, in their order.
pub open spec fn variable_file_names(s: Seq<Seq<char>>) -> Seq<Seq<char>>
    decreases s.len(),
{
    if s.len() == 0 {
        Seq::empty()
    } else if is_variable_file_name(s.last()) {
        variable_file_names(s.drop_last()).push(s.last())
    } else {
        variable_file_names(s.drop_last())
    }
}

pub open spec fn rejected_file_name_text(n: Seq<char>) -> Seq<char> {
    "file name "@ + n + " does not represent an EFI variable name"@
}

/// The parts of a combined name `<guid>-<name>`.
pub struct VariableId {
    pub guid: EfiGuid,
    /// The GUID as the caller wrote it.
    pub guid_text: String,
    pub name: String,
}

/// Whether `s` names a variable (see `is_variable_file_name`).
pub fn is_variable_file(s: &Vec<char>) -> (r: bool)
    ensures
        r == is_variable_file_name(s@),
{
    let n = s.len();
    if n < MIN_VAR_FILE_NAME_LEN {
        return false;
    }
    if s[n - 37] != '-' {
        return false;
    }
    let mut tail: Vec<char> = Vec::new();
    let mut i: usize = n - 36;
    while i < n
        invariant
            n == s@.len(),
            n >= 38,
            n - 36 <= i <= n,
            tail@ == s@.subrange(n - 36, i as int),
        decreases n - i,
    {
        tail.push(s[i]);
        i = i + 1;
        assert(tail@ =~= s@.subrange(n - 36, i as int));
    }
    EfiGuid::parse_chars(&tail).is_ok()
}

/// Checks a directory entry name of the shape `<name>-<guid>` and gives it back in
/// that (normalized) form; other names are refused with a sentence that says so.
pub fn convert_name(name: Option<&str>) -> (r: Result<String, String>)
    ensures
        name is None ==> (r matches Err(m) && m@ == "no name provided"@),
        name matches Some(n) ==> (is_variable_file_name(n@) <==> r is Ok),
        name matches Some(n) ==> (r matches Ok(s) ==> s@ == n@),
        name matches Some(n) ==> (r matches Err(m) ==> m@ == rejected_file_name_text(n@)),
{
    match name {
        None => {
            let mut out: Vec<char> = Vec::new();
            push_str(&mut out, "no name provided");
            Err(string_from_chars(&out))
        },
        Some(n) => {
            let chars = chars_of(n);
            if is_variable_file(&chars) {
                Ok(string_from_chars(&chars))
            } else {
                let mut out: Vec<char> = Vec::new();
                push_str(&mut out, "file name ");
                push_str(&mut out, n);
                push_str(&mut out, " does not represent an EFI variable name");
                Err(string_from_chars(&out))
            }
        },
    }
}

/// The names to list from a directory's entries: those that name variables, in
/// normalized `<name>-<guid>` form, in the order given.
pub fn list_variable_names(file_names: &Vec<String>) -> (r: Vec<String>)
    ensures
        r@.map_values(|s: String| s@) == variable_file_names(
            file_names@.map_values(|s: String| s@),
        ),
{
    let mut out: Vec<String> = Vec::new();
    let mut i: usize = 0;
    let ghost all = file_names@.map_values(|s: String| s@);
    while i < file_names.len()
        invariant
            i <= file_names@.len(),
            all == file_names@.map_values(|s: String| s@),
            out@.map_values(|s: String| s@) == variable_file_names(all.subrange(0, i as int)),
        decreases file_names@.len() - i,
    {
        let converted = convert_name(Some(file_names[i].as_str()));
        proof {
            assert(all.subrange(0, i + 1).drop_last() =~= all.subrange(0, i as int));
            assert(all.subrange(0, i + 1).last() == file_names@[i as int]@);
        }
        match converted {
            Ok(s) => {
                out.push(s);
                assert(out@.map_values(|s: String| s@) =~= variable_file_names(
                    all.subrange(0, i + 1),
                ));
            },
            Err(_) => {},
        }
        i = i + 1;
    }
    assert(all.subrange(0, i as int) =~= all);
    out
}

/// Splits a combined name `<guid>-<name>`, refusing any other shape.
pub fn split_combined_name(combined: &str) -> (r: Result<VariableId, VarError>)
    ensures
        r is Ok <==> is_combined_name(combined@),
        r is Err ==> r == Err::<VariableId, VarError>(VarError::InvalidInput),
        r matches Ok(id) ==> {
            &&& id.guid == guid_from_text(combined@.subrange(0, 36))
            &&& id.guid_text@ == combined@.subrange(0, 36)
            &&& id.name@ == combined@.subrange(37, combined@.len() as int)
        },
{
    let s = chars_of(combined);
    let n = s.len();
    if n < MIN_VAR_FILE_NAME_LEN || s[36] != '-' {
        return Err(VarError::InvalidInput);
    }
    let mut head: Vec<char> = Vec::new();
    let mut i: usize = 0;
    while i < 36
        invariant
            n == s@.len(),
            n >= 38,
            i <= 36,
            head@ == s@.subrange(0, i as int),
        decreases 36 - i,
    {
        head.push(s[i]);
        i = i + 1;
        assert(head@ =~= s@.subrange(0, i as int));
    }
    let guid = match EfiGuid::parse_chars(&head) {
        Ok(g) => g,
        Err(_) => {
            return Err(VarError::InvalidInput);
        },
    };
    let mut rest: Vec<char> = Vec::new();
    let mut j: usize = 37;
    while j < n
        invariant
            n == s@.len(),
            37 <= j <= n,
            rest@ == s@.subrange(37, j as int),
        decreases n - j,
    {
        rest.push(s[j]);
        j = j + 1;
        assert(rest@ =~= s@.subrange(37, j as int));
    }
    Ok(VariableId { guid, guid_text: string_from_chars(&head), name: string_from_chars(&rest) })
}

impl VariableId {
    /// The `<name>-<guid>` form, in which the modern interface names its files.
    pub fn normalized(&self) -> (r: String)
        ensures
            r@ == self.name@ + seq!['-'] + self.guid_text@,
    {
        let mut out: Vec<char> = Vec::new();
        push_str(&mut out, self.name.as_str());
        out.push('-');
        push_str(&mut out, self.guid_text.as_str());
        string_from_chars(&out)
    }
}

/// Gives the `<name>-<guid>` form of a combined name `<guid>-<name>`, refusing any
/// other shape.
pub fn normalize_combined_name(combined: &str) -> (r: Result<String, VarError>)
    ensures
        r is Ok <==> is_combined_name(combined@),
        r is Err ==> r == Err::<String, VarError>(VarError::InvalidInput),
        r matches Ok(s) ==> s@ == normalized(combined@),
{
    match split_combined_name(combined) {
        Ok(id) => {
            let s = id.normalized();
            assert(s@ =~= normalized(combined@));
            Ok(s)
        },
        Err(e) => Err(e),
    }
}

/// No name of fewer than 38 characters is taken for a variable, in either form.
pub proof fn lemma_short_names_rejected(s: Seq<char>)
    requires
        s.len() < 38,
    ensures
        !is_variable_file_name(s),
        !is_combined_name(s),
{
}

} // verus!
