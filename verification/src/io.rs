//! Errors from reading coordinate files.

use std::num::{ParseFloatError, ParseIntError};
use vstd::prelude::*;
use vstd::std_specs::convert::FromSpecImpl;
use vstd::string::to_string_from_display_ensures;

verus! {

/// Errors when reading files.
#[derive(Debug)]
pub enum GrafenIoError {
    /// Something went wrong when parsing the file.
    ParseError(String),
    /// Not all required data was found in the file.
    EOF(String),
}

impl GrafenIoError {
    /// The text that the error carries.
    pub open spec fn message(self) -> Seq<char> {
        match self {
            GrafenIoError::ParseError(text) => text@,
            GrafenIoError::EOF(text) => text@,
        }
    }
}

/// `std::io::Error`, the error of reading a file. Nothing is claimed of what
/// it holds.
#[verifier::external_type_specification]
#[verifier::external_body]
pub struct ExIoError(std::io::Error);

/// `std::num::ParseFloatError`, the error of parsing a number with a
/// fraction. Nothing is claimed of what it holds.
#[verifier::external_type_specification]
#[verifier::external_body]
pub struct ExParseFloatError(ParseFloatError);

/// `std::num::ParseIntError`, the error of parsing a whole number. Nothing is
/// claimed of what it holds.
#[verifier::external_type_specification]
#[verifier::external_body]
pub struct ExParseIntError(ParseIntError);

/// A file that could not be read is reported as one that ended early.
impl From<std::io::Error> for GrafenIoError {
    fn from(_err: std::io::Error) -> (error: GrafenIoError)
        ensures
            error is EOF,
            error.message() == "Could not read file"@,
    {
        GrafenIoError::EOF("Could not read file".to_owned())
    }
}

/// What `from` returns is stated at `from` itself, by the text of the error:
/// no spec function can name the `String` that holds it.
impl FromSpecImpl<std::io::Error> for GrafenIoError {
    open spec fn obeys_from_spec() -> bool {
        false
    }

    open spec fn from_spec(err: std::io::Error) -> GrafenIoError {
        arbitrary()
    }
}

/// A number that could not be parsed is reported as missing data, with the
/// text that the standard library displays for the failure.
impl From<ParseFloatError> for GrafenIoError {
    fn from(err: ParseFloatError) -> (error: GrafenIoError)
        ensures
            error matches GrafenIoError::EOF(text) && to_string_from_display_ensures::<
                ParseFloatError,
            >(&err, text),
    {
        GrafenIoError::EOF(err.to_string())
    }
}

/// What `from` returns is stated at `from` itself.
impl FromSpecImpl<ParseFloatError> for GrafenIoError {
    open spec fn obeys_from_spec() -> bool {
        false
    }

    open spec fn from_spec(err: ParseFloatError) -> GrafenIoError {
        arbitrary()
    }
}

/// A number that could not be parsed is reported as missing data, with the
/// text that the standard library displays for the failure.
impl From<ParseIntError> for GrafenIoError {
    fn from(err: ParseIntError) -> (error: GrafenIoError)
        ensures
            error matches GrafenIoError::EOF(text) && to_string_from_display_ensures::<
                ParseIntError,
            >(&err, text),
    {
        GrafenIoError::EOF(err.to_string())
    }
}

/// What `from` returns is stated at `from` itself.
impl FromSpecImpl<ParseIntError> for GrafenIoError {
    open spec fn obeys_from_spec() -> bool {
        false
    }

    open spec fn from_spec(err: ParseIntError) -> GrafenIoError {
        arbitrary()
    }
}

} // verus!
