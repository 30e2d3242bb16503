//! The modern interface: one file per variable, named `<name>-<guid>`, holding the
//! attribute word followed by the payload.

use crate::attributes::{decoded_attributes, parse_attributes};
use crate::error::VarError;
use crate::guid::guid_from_text;
use crate::names::{is_combined_name, list_variable_names, normalized, normalize_combined_name, split_combined_name, variable_file_names};
use crate::record::{le_value, read_le};
use crate::variable::EfiVariable;
use vstd::prelude::*;

verus! {

/// Where the kernel mounts the modern interface.
pub const EFIVARFS_PATH: &'static str = "/sys/firmware/efi/efivars";

/// The attribute word at the head of a variable file.
pub open spec fn file_attributes(contents: Seq<u8>) -> u32 {
    le_value(contents.subrange(0, 4)) as u32
}

/// The variables of the modern interface under a mount point.
pub struct EfiVariables {
    pub path: String,
}

impl EfiVariables {
    /// The interface at its usual mount point.
    pub fn new() -> (r: EfiVariables)
        ensures
            r.path@ == EFIVARFS_PATH@,
    {
        EfiVariables { path: EFIVARFS_PATH.to_owned() }
    }

    /// Moves the interface to another mount point.
    pub fn set_path(&mut self, path: String)
        ensures
            final(self).path == path,
    {
        self.path = path;
    }

    /// The names to list from the entries of the mount point: those that name
    /// variables, in `<name>-<guid>` form, in the order given.
    pub fn list(&self, file_names: &Vec<String>) -> (r: Vec<String>)
        ensures
            r@.map_values(|s: String| s@) == variable_file_names(
                file_names@.map_values(|s: String| s@),
            ),
    {
        list_variable_names(file_names)
    }

    /// The file, relative to the mount point, that holds the variable named
    /// `<guid>-<name>`: `<name>-<guid>`.
    pub fn variable_file(&self, combined: &str) -> (r: Result<String, VarError>)
        ensures
            r is Ok <==> is_combined_name(combined@),
            r is Err ==> r == Err::<String, VarError>(VarError::InvalidInput),
            r matches Ok(s) ==> s@ == normalized(combined@),
    {
        normalize_combined_name(combined)
    }

    /// The variable named `<guid>-<name>` whose file holds `contents`: the first four
    /// bytes are the attribute word (little-endian), the rest is the payload.
    pub fn decode_variable(&self, combined: &str, contents: &[u8]) -> (r: Result<
        EfiVariable,
        VarError,
    >)
        ensures
            !is_combined_name(combined@) ==> r == Err::<EfiVariable, VarError>(
                VarError::InvalidInput,
            ),
            is_combined_name(combined@) && contents@.len() < 4 ==> r == Err::<
                EfiVariable,
                VarError,
            >(VarError::TooShort { len: contents@.len() as usize }),
            is_combined_name(combined@) && contents@.len() >= 4 ==> (r matches Ok(v) && {
                &&& v.name@ == combined@.subrange(37, combined@.len() as int)
                &&& v.guid == guid_from_text(combined@.subrange(0, 36))
                &&& v.attributes@ == decoded_attributes(file_attributes(contents@))
                &&& v.data@ == contents@.subrange(4, contents@.len() as int)
            }),
    {
        let id = match split_combined_name(combined) {
            Ok(id) => id,
            Err(e) => {
                return Err(e);
            },
        };
        if contents.len() < 4 {
            return Err(VarError::TooShort { len: contents.len() });
        }
        let word = read_le(contents, 0, 4);
        proof {
            assert(word < 0x1_0000_0000) by {
                crate::record::lemma_le_value_bound(contents@.subrange(0, 4));
                reveal_with_fuel(crate::record::pow256, 5);
            }
        }
        let attributes = parse_attributes(word as u32);
        let mut data: Vec<u8> = Vec::new();
        let mut i: usize = 4;
        while i < contents.len()
            invariant
                4 <= i <= contents@.len(),
                data@ == contents@.subrange(4, i as int),
            decreases contents@.len() - i,
        {
            data.push(contents[i]);
            i = i + 1;
            assert(data@ =~= contents@.subrange(4, i as int));
        }
        Ok(EfiVariable { attributes, guid: id.guid, name: id.name, data })
    }
}

impl Default for EfiVariables {
    fn default() -> (r: EfiVariables)
        ensures
            r.path@ == EFIVARFS_PATH@,
    {
        EfiVariables::new()
    }
}

} // verus!
