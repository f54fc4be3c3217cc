//! The errors of the whole-file header decoder.

use vstd::prelude::*;
use crate::metadata::GgufError;

verus! {

/// Why reading a file header, with its metadata, did not succeed.
#[derive(Debug, PartialEq, Eq, Clone)]
pub enum GGUFError {
    /// The file does not start with the bytes `GGUF`.
    InvalidMagic,
    /// The file is of a version other than 3; holds the version.
    UnsupportedVersion(u32),
    /// A metadata value carries an unknown type id; holds the id.
    InvalidValueType(u32),
    /// A tensor carries an unknown type id; holds the id.
    InvalidTensorType(u32),
    /// The declared alignment is below 8; holds the alignment.
    InvalidAlignment(u32),
    /// A string is not valid UTF-8.
    InvalidString,
    /// A tensor name is empty or too long; holds the name.
    InvalidTensorName(String),
    /// The buffer ended before the bytes asked for could be read.
    Io,
    /// The metadata is malformed; holds what is wrong.
    Metadata(String),
    /// A tensor is malformed; holds what is wrong.
    Tensor(String),
}

impl GGUFError {
    /// Whether this error is the report of `fault`, the fault that the
    /// layout assigns to a buffer. A name that is refused is reported with
    /// the name itself, which the fault does not hold: of such a report
    /// this says only that it is of that kind.
    pub open spec fn reports(self, fault: GgufError) -> bool {
        match fault {
            GgufError::Io => self == GGUFError::Io,
            GgufError::InvalidMagic(_) => self == GGUFError::InvalidMagic,
            GgufError::UnsupportedVersion(version) => self == GGUFError::UnsupportedVersion(
                version,
            ),
            GgufError::InvalidAlignment(alignment) => self == GGUFError::InvalidAlignment(
                alignment,
            ),
            GgufError::StringTooLong(_) => self matches GGUFError::Metadata(text) && text@
                == "String too long"@,
            GgufError::InvalidUtf8 => self == GGUFError::InvalidString,
            GgufError::UnsupportedValueType(id) => self == GGUFError::InvalidValueType(id),
            GgufError::NestedArray => self matches GGUFError::Metadata(text) && text@
                == "Nested arrays not supported"@,
            GgufError::InvalidTensorName(_) => self is InvalidTensorName,
            GgufError::UnsupportedTensorType(id) => self == GGUFError::InvalidTensorType(id),
            _ => false,
        }
    }
}

} // verus!
