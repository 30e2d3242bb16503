//! Errors of the variable store.

use crate::text::{push_str, decimal_digits, push_decimal, string_from_chars};
use vstd::prelude::*;

verus! {

/// Why a variable could not be listed or read.
#[derive(Debug, Clone, PartialEq, Eq)]
pub enum VarError {
    /// A combined variable name of the wrong shape.
    InvalidInput,
    /// The interface's mount point is absent or is not a directory.
    NotFound,
    /// A file of the modern interface shorter than the four-byte attribute word.
    TooShort { len: usize },
    /// A legacy record of the wrong length: `read` bytes came where `expected` were due.
    ReadCount { read: usize, expected: usize },
    /// A legacy record whose data size exceeds the 1024-byte data field.
    DataSizeExceeded { data_size: u64 },
    /// A legacy record whose status field is not zero.
    Status { code: u64 },
    /// A legacy record whose name is not valid UTF-16.
    InvalidName,
    /// A legacy record whose name is not the one asked for.
    NameMismatch,
    /// A legacy record whose GUID is not the one asked for.
    GuidMismatch,
    /// A platform word size other than 32 or 64 bits.
    UnsupportedPlatformSize { size: usize },
    /// The platform word size file does not hold a number.
    BadPlatformSize,
    /// Any other failure of the underlying file access, described in words.
    Io { message: String },
}

/// The words in which each error is reported.
pub open spec fn error_text(e: VarError) -> Seq<char> {
    match e {
        VarError::InvalidInput => "invalid input parameter"@,
        VarError::NotFound => "entity not found"@,
        VarError::TooShort { .. } => "invalid data"@,
        VarError::ReadCount { read, expected } => "Corrupt variable. Read "@ + decimal_digits(
            read as nat,
        ) + " byte(s) but expected to read "@ + decimal_digits(expected as nat) + "."@,
        VarError::DataSizeExceeded { .. } => "Corrupt variable. Reported data size exceeds maximum"@,
        VarError::Status { code } => "Variable read error. Unexpected status code "@
            + decimal_digits(code as nat),
        VarError::InvalidName => "invalid utf-16: lone surrogate found"@,
        VarError::NameMismatch => "Corrupt variable. Reported name does not match name"@,
        VarError::GuidMismatch => "Corrupt variable. Reported guid does not match guid"@,
        VarError::UnsupportedPlatformSize { size } => "Unsupported platform size: "@
            + decimal_digits(size as nat),
        VarError::BadPlatformSize => "invalid digit found in string"@,
        VarError::Io { message } => message@,
    }
}

impl VarError {
    /// The error in words.
    pub fn to_string(&self) -> (r: String)
        ensures
            r@ == error_text(*self),
    {
        let mut out: Vec<char> = Vec::new();
        match self {
            VarError::InvalidInput => push_str(&mut out, "invalid input parameter"),
            VarError::NotFound => push_str(&mut out, "entity not found"),
            VarError::TooShort { .. } => push_str(&mut out, "invalid data"),
            VarError::ReadCount { read, expected } => {
                push_str(&mut out, "Corrupt variable. Read ");
                push_decimal(&mut out, *read as u64);
                push_str(&mut out, " byte(s) but expected to read ");
                push_decimal(&mut out, *expected as u64);
                push_str(&mut out, ".");
            },
            VarError::DataSizeExceeded { .. } => push_str(
                &mut out,
                "Corrupt variable. Reported data size exceeds maximum",
            ),
            VarError::Status { code } => {
                push_str(&mut out, "Variable read error. Unexpected status code ");
                push_decimal(&mut out, *code);
            },
            VarError::InvalidName => push_str(&mut out, "invalid utf-16: lone surrogate found"),
            VarError::NameMismatch => push_str(
                &mut out,
                "Corrupt variable. Reported name does not match name",
            ),
            VarError::GuidMismatch => push_str(
                &mut out,
                "Corrupt variable. Reported guid does not match guid",
            ),
            VarError::UnsupportedPlatformSize { size } => {
                push_str(&mut out, "Unsupported platform size: ");
                push_decimal(&mut out, *size as u64);
            },
            VarError::BadPlatformSize => push_str(&mut out, "invalid digit found in string"),
            VarError::Io { message } => {
                return message.clone();
            },
        }
        string_from_chars(&out)
    }
}

} // verus!
