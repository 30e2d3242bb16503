//! A decoded firmware variable.

use crate::attributes::EfiVariableAttribute;
use crate::guid::EfiGuid;
use vstd::prelude::*;

verus! {

/// A variable as read from one of the interfaces: its name, its GUID, the
/// attribute flags it carries (ascending by value) and its payload.
#[derive(Debug, Clone)]
pub struct EfiVariable {
    pub attributes: Vec<EfiVariableAttribute>,
    pub guid: EfiGuid,
    pub name: String,
    pub data: Vec<u8>,
}

} // verus!
