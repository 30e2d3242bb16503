//! Reading UEFI firmware variables from the kernel's two variable interfaces:
//! the GUID codec, the attribute flags, variable naming, the decoders of both
//! interfaces and the store that falls back from one to the other.

use vstd::prelude::*;

pub mod text;
pub mod guid;
pub mod attributes;
pub mod error;
pub mod variable;
pub mod names;
pub mod record;
pub mod efivarfs;
pub mod efivar;
pub mod store;
pub mod display;
pub mod guid_list;

verus! {

/// The shortest variable file name: one character of name, a hyphen and a GUID.
pub const MIN_VAR_FILE_NAME_LEN: usize = 38;

} // verus!
