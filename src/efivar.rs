//! The legacy interface: one directory per variable, named `<guid>-<name>`, whose
//! `raw_var` file holds a fixed-layout record sized by the platform word.

use crate::error::VarError;
use crate::guid::{guid_from_text, guid_text, same_guid};
use crate::names::{is_combined_name, list_variable_names, split_combined_name, variable_file_names};
use crate::record::{decodes_to, parse_record, record_error, record_guid, record_len, record_name, RecordReader};
use crate::text::{push_str, chars_of, is_white_space, string_from_chars, white_space};
use crate::variable::EfiVariable;
use vstd::prelude::*;

verus! {

/// Where the kernel exposes the legacy interface.
pub const EFIVARS_PATH: &'static str = "/sys/firmware/efi/vars";

/// The kernel file that gives the firmware's word size in bits.
pub const EFIVARS_FW_PLATFORM_SZ_PATH: &'static str = "/sys/firmware/efi/fw_platform_size";

/// The file, inside a variable's directory, that holds its record.
pub const RAW_VAR_FILE: &'static str = "raw_var";

/// The bytes of a platform word field for a platform of `size` bits, if supported.
pub open spec fn word_width(size: usize) -> Option<nat> {
    if size == 64 {
        Some(8)
    } else if size == 32 {
        Some(4)
    } else {
        None
    }
}

/// `s` up to its first white space.
pub open spec fn first_word(s: Seq<char>) -> Seq<char>
    decreases s.len(),
{
    if s.len() == 0 || is_white_space(s[0]) {
        Seq::empty()
    } else {
        seq![s[0]] + first_word(s.drop_first())
    }
}

pub open spec fn is_digit(c: char) -> bool {
    '0' <= c && c <= '9'
}

/// The number that the decimal digits `s` spell.
pub open spec fn decimal_value(s: Seq<char>) -> nat
    decreases s.len(),
{
    if s.len() == 0 {
        0
    } else {
        decimal_value(s.drop_last()) * 10 + (s.last() as nat - '0' as nat) as nat
    }
}

/// The digits of a word as `usize::from_str` reads it: an optional `+`, then digits.
pub open spec fn unsigned_digits(w: Seq<char>) -> Seq<char> {
    if w.len() > 0 && w[0] == '+' {
        w.drop_first()
    } else {
        w
    }
}

/// The number that the platform size file's text gives: its first word read as an
/// unsigned decimal integer.
pub open spec fn platform_size_of(text: Seq<char>) -> Result<usize, VarError> {
    let d = unsigned_digits(first_word(text));
    if d.len() > 0 && (forall|i: int| 0 <= i < d.len() ==> is_digit(#[trigger] d[i]))
        && decimal_value(d) <= usize::MAX {
        Ok(decimal_value(d) as usize)
    } else {
        Err(VarError::BadPlatformSize)
    }
}

proof fn lemma_decimal_monotone(s: Seq<char>, i: int)
    requires
        0 <= i <= s.len(),
        forall|j: int| 0 <= j < s.len() ==> is_digit(#[trigger] s[j]),
    ensures
        decimal_value(s.subrange(0, i)) <= decimal_value(s),
    decreases s.len() - i,
{
    if i < s.len() {
        lemma_decimal_monotone(s, i + 1);
        assert(s.subrange(0, i + 1).drop_last() =~= s.subrange(0, i));
        assert(is_digit(s[i]));
    } else {
        assert(s.subrange(0, i) =~= s);
    }
}

proof fn lemma_first_word_prefix(s: Seq<char>)
    ensures
        first_word(s).len() <= s.len(),
        first_word(s) == s.subrange(0, first_word(s).len() as int),
        forall|j: int| 0 <= j < first_word(s).len() ==> !is_white_space(#[trigger] s[j]),
        first_word(s).len() < s.len() ==> is_white_space(s[first_word(s).len() as int]),
    decreases s.len(),
{
    if s.len() > 0 && !is_white_space(s[0]) {
        let t = s.drop_first();
        lemma_first_word_prefix(t);
        assert(first_word(s) =~= s.subrange(0, first_word(s).len() as int));
        assert forall|j: int| 0 <= j < first_word(s).len() implies !is_white_space(#[trigger] s[j]) by {
            if j > 0 {
                assert(s[j] == t[j - 1]);
            }
        }
        if first_word(s).len() < s.len() {
            assert(s[first_word(s).len() as int] == t[first_word(t).len() as int]);
        }
    }
}

/// The variables of the legacy interface under a mount point, with the word size
/// of the firmware platform, which fixes the layout of each record.
pub struct EfiVariables {
    pub path: String,
    pub platform_size: usize,
}

impl EfiVariables {
    /// The interface at its usual place, for the platform word size that the text of
    /// the kernel's platform size file gives.
    pub fn new(platform_size_text: &str) -> (r: Result<EfiVariables, VarError>)
        ensures
            match platform_size_of(platform_size_text@) {
                Ok(n) => if word_width(n) is Some {
                    r matches Ok(v) && v.path@ == EFIVARS_PATH@ && v.platform_size == n
                } else {
                    r == Err::<EfiVariables, VarError>(
                        VarError::UnsupportedPlatformSize { size: n },
                    )
                },
                Err(e) => r == Err::<EfiVariables, VarError>(e),
            },
    {
        let size = match EfiVariables::get_firmware_platform_size(platform_size_text) {
            Ok(n) => n,
            Err(e) => {
                return Err(e);
            },
        };
        let mut variables = EfiVariables { path: EFIVARS_PATH.to_owned(), platform_size: 0 };
        match variables.set_firmware_platform_size(size) {
            Ok(()) => Ok(variables),
            Err(e) => Err(e),
        }
    }

    /// Moves the interface to another place.
    pub fn set_path(&mut self, path: String)
        ensures
            final(self).path == path,
            final(self).platform_size == old(self).platform_size,
    {
        self.path = path;
    }

    /// Sets the platform word size in bits; only 32 and 64 are supported.
    pub fn set_firmware_platform_size(&mut self, size: usize) -> (r: Result<(), VarError>)
        ensures
            final(self).path == old(self).path,
            word_width(size) is Some ==> r is Ok && final(self).platform_size == size,
            word_width(size) is None ==> r == Err::<(), VarError>(
                VarError::UnsupportedPlatformSize { size },
            ) && final(self).platform_size == old(self).platform_size,
    {
        if size == 64 || size == 32 {
            self.platform_size = size;
            Ok(())
        } else {
            Err(VarError::UnsupportedPlatformSize { size })
        }
    }

    /// Reads the platform word size from the text of the kernel's platform size
    /// file: its first word, as an unsigned decimal number.
    pub fn get_firmware_platform_size(contents: &str) -> (r: Result<usize, VarError>)
        ensures
            r == platform_size_of(contents@),
    {
        let s = chars_of(contents);
        let mut end: usize = 0;
        proof {
            lemma_first_word_prefix(s@);
        }
        while end < s.len() && !white_space(s[end])
            invariant
                end <= s@.len(),
                end <= first_word(s@).len(),
                first_word(s@).len() <= s@.len(),
                forall|j: int| 0 <= j < first_word(s@).len() ==> !is_white_space(#[trigger] s@[j]),
                first_word(s@).len() < s@.len() ==> is_white_space(s@[first_word(s@).len() as int]),
            decreases s@.len() - end,
        {
            end = end + 1;
        }
        assert(end == first_word(s@).len());
        let ghost w = first_word(s@);
        let start: usize = if end > 0 && s[0] == '+' {
            1
        } else {
            0
        };
        let ghost d = unsigned_digits(w);
        assert(d =~= s@.subrange(start as int, end as int));
        if start >= end {
            return Err(VarError::BadPlatformSize);
        }
        let mut acc: u128 = 0;
        let mut i: usize = start;
        while i < end
            invariant
                start <= i <= end <= s@.len(),
                s@ == contents@,
                d == unsigned_digits(first_word(contents@)),
                d == s@.subrange(start as int, end as int),
                forall|j: int| start <= j < i ==> is_digit(#[trigger] s@[j]),
                acc == decimal_value(s@.subrange(start as int, i as int)),
                acc <= usize::MAX,
            decreases end - i,
        {
            let c = s[i];
            if !('0' <= c && c <= '9') {
                assert(!is_digit(d[i - start]));
                assert(!(forall|j: int| 0 <= j < d.len() ==> is_digit(#[trigger] d[j])));
                return Err(VarError::BadPlatformSize);
            }
            assert(s@.subrange(start as int, i + 1).drop_last() =~= s@.subrange(start as int, i as int));
            acc = acc * 10 + (c as u32 - '0' as u32) as u128;
            i = i + 1;
            assert(acc == decimal_value(s@.subrange(start as int, i as int)));
            if acc > usize::MAX as u128 {
                proof {
                    if forall|j: int| 0 <= j < d.len() ==> is_digit(#[trigger] d[j]) {
                        lemma_decimal_monotone(d, i - start);
                        assert(d.subrange(0, i - start) =~= s@.subrange(start as int, i as int));
                        assert(decimal_value(d) > usize::MAX);
                    }
                }
                return Err(VarError::BadPlatformSize);
            }
        }
        assert(s@.subrange(start as int, i as int) =~= d);
        Ok(acc as usize)
    }

    /// The names to list from the entries of the interface's directory: those that
    /// name variables, in `<name>-<guid>` form, in the order given.
    pub fn list(&self, file_names: &Vec<String>) -> (r: Vec<String>)
        ensures
            r@.map_values(|s: String| s@) == variable_file_names(
                file_names@.map_values(|s: String| s@),
            ),
    {
        list_variable_names(file_names)
    }

    /// The record file, relative to the interface's directory, of the variable named
    /// `<guid>-<name>`: `<guid>-<name>/raw_var`, the GUID in canonical form.
    pub fn variable_file(&self, combined: &str) -> (r: Result<String, VarError>)
        ensures
            r is Ok <==> is_combined_name(combined@),
            r is Err ==> r == Err::<String, VarError>(VarError::InvalidInput),
            r matches Ok(s) ==> s@ == guid_text(guid_from_text(combined@.subrange(0, 36)))
                + seq!['-'] + combined@.subrange(37, combined@.len() as int) + seq!['/']
                + RAW_VAR_FILE@,
    {
        let id = match split_combined_name(combined) {
            Ok(id) => id,
            Err(e) => {
                return Err(e);
            },
        };
        let guid_string = id.guid.to_string();
        let mut out: Vec<char> = Vec::new();
        push_str(&mut out, guid_string.as_str());
        out.push('-');
        push_str(&mut out, id.name.as_str());
        out.push('/');
        push_str(&mut out, RAW_VAR_FILE);
        Ok(string_from_chars(&out))
    }

    /// A reader for one record of this platform's layout.
    pub fn record_reader(&self) -> (r: Result<RecordReader, VarError>)
        ensures
            match word_width(self.platform_size) {
                Some(w) => r matches Ok(rr) && rr.expected == record_len(w)
                    && rr.received@.len() == 0,
                None => r == Err::<RecordReader, VarError>(
                    VarError::UnsupportedPlatformSize { size: self.platform_size },
                ),
            },
    {
        if self.platform_size == 64 {
            Ok(RecordReader::new(2084))
        } else if self.platform_size == 32 {
            Ok(RecordReader::new(2076))
        } else {
            Err(VarError::UnsupportedPlatformSize { size: self.platform_size })
        }
    }

    /// Decodes a record in this platform's layout.
    pub fn parse_payload(&self, rec: &[u8]) -> (r: Result<EfiVariable, VarError>)
        ensures
            match word_width(self.platform_size) {
                None => r == Err::<EfiVariable, VarError>(
                    VarError::UnsupportedPlatformSize { size: self.platform_size },
                ),
                Some(w) => match record_error(w, rec@) {
                    Some(e) => r == Err::<EfiVariable, VarError>(e),
                    None => r matches Ok(v) && decodes_to(w, rec@, v),
                },
            },
    {
        if self.platform_size == 64 {
            parse_record(8, rec)
        } else if self.platform_size == 32 {
            parse_record(4, rec)
        } else {
            Err(VarError::UnsupportedPlatformSize { size: self.platform_size })
        }
    }

    /// The variable named `<guid>-<name>` whose record is `rec`. The record must name
    /// the same variable: a different name or GUID means the kernel served a wrong
    /// or stale record.
    pub fn decode_variable(&self, combined: &str, rec: &[u8]) -> (r: Result<EfiVariable, VarError>)
        ensures
            !is_combined_name(combined@) ==> r == Err::<EfiVariable, VarError>(
                VarError::InvalidInput,
            ),
            is_combined_name(combined@) ==> match word_width(self.platform_size) {
                None => r == Err::<EfiVariable, VarError>(
                    VarError::UnsupportedPlatformSize { size: self.platform_size },
                ),
                Some(w) => match record_error(w, rec@) {
                    Some(e) => r == Err::<EfiVariable, VarError>(e),
                    None => if record_name(rec@) != Some(
                        combined@.subrange(37, combined@.len() as int),
                    ) {
                        r == Err::<EfiVariable, VarError>(VarError::NameMismatch)
                    } else if !same_guid(
                        record_guid(rec@),
                        guid_from_text(combined@.subrange(0, 36)),
                    ) {
                        r == Err::<EfiVariable, VarError>(VarError::GuidMismatch)
                    } else {
                        r matches Ok(v) && decodes_to(w, rec@, v)
                    },
                },
            },
    {
        let id = match split_combined_name(combined) {
            Ok(id) => id,
            Err(e) => {
                return Err(e);
            },
        };
        let variable = match self.parse_payload(rec) {
            Ok(v) => v,
            Err(e) => {
                return Err(e);
            },
        };
        if variable.name != id.name {
            return Err(VarError::NameMismatch);
        }
        if variable.guid != id.guid {
            return Err(VarError::GuidMismatch);
        }
        Ok(variable)
    }
}

} // verus!
