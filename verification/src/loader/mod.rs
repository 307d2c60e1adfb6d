//! PE32+ image parsing and mapping.

use vstd::prelude::*;

pub mod mapper;
pub mod pe;

verus! {

/// Why an image could not be parsed, mapped or read.
#[derive(Debug, Clone, Copy, PartialEq, Eq, Structural)]
pub enum LoadError {
    DosHeaderTruncated,
    InvalidDosSignature,
    NtHeadersTruncated,
    InvalidPeSignature,
    OptionalHeaderTruncated,
    NotPe32Plus,
    OptionalHeaderTooSmall,
    SectionHeadersTruncated,
    MissingOptionalHeader,
    ImportDescriptorOutOfBounds,
    ThunkOutOfBounds,
    StringOutOfBounds,
    MissingNulTerminator,
    InvalidUtf8,
}

/// The description of each error.
pub open spec fn error_message(e: LoadError) -> Seq<char> {
    match e {
        LoadError::DosHeaderTruncated => "File too small to contain DOS header"@,
        LoadError::InvalidDosSignature => "Invalid DOS signature"@,
        LoadError::NtHeadersTruncated => "File too small to contain NT headers"@,
        LoadError::InvalidPeSignature => "Invalid PE signature"@,
        LoadError::OptionalHeaderTruncated => "File too small to contain Optional Header"@,
        LoadError::NotPe32Plus => "Only PE32+ (64-bit) binaries are supported"@,
        LoadError::OptionalHeaderTooSmall => "Optional Header too small for 64-bit binary"@,
        LoadError::SectionHeadersTruncated => "File too small to contain all Section Headers"@,
        LoadError::MissingOptionalHeader => "Missing optional header"@,
        LoadError::ImportDescriptorOutOfBounds => "Import descriptor out of bounds"@,
        LoadError::ThunkOutOfBounds => "Thunk data out of bounds"@,
        LoadError::StringOutOfBounds => "RVA out of bounds for string"@,
        LoadError::MissingNulTerminator => "Missing null terminator"@,
        LoadError::InvalidUtf8 => "Invalid UTF-8 in string"@,
    }
}

impl LoadError {
    /// A human-readable description of the error.
    pub fn message(&self) -> (r: &'static str)
        ensures
            r@ == error_message(*self),
    {
        match self {
            LoadError::DosHeaderTruncated => "File too small to contain DOS header",
            LoadError::InvalidDosSignature => "Invalid DOS signature",
            LoadError::NtHeadersTruncated => "File too small to contain NT headers",
            LoadError::InvalidPeSignature => "Invalid PE signature",
            LoadError::OptionalHeaderTruncated => "File too small to contain Optional Header",
            LoadError::NotPe32Plus => "Only PE32+ (64-bit) binaries are supported",
            LoadError::OptionalHeaderTooSmall => "Optional Header too small for 64-bit binary",
            LoadError::SectionHeadersTruncated => "File too small to contain all Section Headers",
            LoadError::MissingOptionalHeader => "Missing optional header",
            LoadError::ImportDescriptorOutOfBounds => "Import descriptor out of bounds",
            LoadError::ThunkOutOfBounds => "Thunk data out of bounds",
            LoadError::StringOutOfBounds => "RVA out of bounds for string",
            LoadError::MissingNulTerminator => "Missing null terminator",
            LoadError::InvalidUtf8 => "Invalid UTF-8 in string",
        }
    }
}

} // verus!
