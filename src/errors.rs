//! The errors that end an analysis.
use vstd::prelude::*;

verus! {

#[derive(Debug)]
pub enum HprofSlurpError {
    /// The input path does not name an existing file.
    InputFileNotFound { name: String },
    /// The number of rows to display is not strictly positive.
    InvalidTopPositiveInt,
    /// The header's identifier size is neither 4 nor 8.
    InvalidIdSize,
    /// The header is not exactly the fixed-size prefix of the file.
    InvalidHeaderSize,
    /// The bytes violate the HPROF grammar.
    InvalidHprofFile { message: String },
    /// The identifier size is recognised but not supported.
    UnsupportedIdSize { message: String },
}

} // verus!
