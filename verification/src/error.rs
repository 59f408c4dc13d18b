//! Errors raised while reading a BUFKIT file.
use vstd::prelude::*;
use vstd::string::StringExecFns;

verus! {

/// The structural expectation that a piece of text failed to meet.
#[derive(Debug, Clone, Copy, PartialEq, Eq, Structural)]
pub enum ErrorKind {
    /// A text lacks the boundary that parts it: a file its surface marker, an
    /// upper-air record its blank lines, a surface section its first row.
    SectionBoundaryNotFound,
    /// A station-info key that must be present could not be located.
    MissingRequiredField,
    /// The surface header lacks the station number or the valid time column.
    MissingRequiredColumn,
    /// A profile header names a column outside the known vocabulary.
    UnrecognizedColumn,
    /// A key is absent, or no value follows it.
    MalformedKeyValue,
    /// A time stamp is not of the shape `YYMMDD/HHMM`, or names no real time.
    InvalidTimestamp,
    /// A token is no number of the expected type, or does not fit it.
    NumericConversion,
    /// The profile columns of one upper-air record differ in length.
    InconsistentProfileLength,
    /// The text ends inside a group of tokens.
    TokenCountError,
    /// A surface row holds a token that its column cannot take.
    RowDecodeError,
}

impl ErrorKind {
    /// What the kind means, in words.
    pub open spec fn spec_description(&self) -> Seq<char> {
        match self {
            ErrorKind::SectionBoundaryNotFound => "a boundary between two parts of the text was not found"@,
            ErrorKind::MissingRequiredField => "a required field of a station is missing"@,
            ErrorKind::MissingRequiredColumn => "a required column of the surface table is missing"@,
            ErrorKind::UnrecognizedColumn => "a column of a profile table is not known"@,
            ErrorKind::MalformedKeyValue => "a key or its value is missing"@,
            ErrorKind::InvalidTimestamp => "a valid time is not a real time of the shape YYMMDD/HHMM"@,
            ErrorKind::NumericConversion => "a value is not a number that fits"@,
            ErrorKind::InconsistentProfileLength => "the columns of a profile differ in length"@,
            ErrorKind::TokenCountError => "the text ends inside a row"@,
            ErrorKind::RowDecodeError => "a row of the surface table does not decode"@,
        }
    }

    /// What the kind means, in words.
    pub fn description(&self) -> (s: &'static str)
        ensures
            s@ == self.spec_description(),
    {
        match self {
            ErrorKind::SectionBoundaryNotFound => "a boundary between two parts of the text was not found",
            ErrorKind::MissingRequiredField => "a required field of a station is missing",
            ErrorKind::MissingRequiredColumn => "a required column of the surface table is missing",
            ErrorKind::UnrecognizedColumn => "a column of a profile table is not known",
            ErrorKind::MalformedKeyValue => "a key or its value is missing",
            ErrorKind::InvalidTimestamp => "a valid time is not a real time of the shape YYMMDD/HHMM",
            ErrorKind::NumericConversion => "a value is not a number that fits",
            ErrorKind::InconsistentProfileLength => "the columns of a profile differ in length",
            ErrorKind::TokenCountError => "the text ends inside a row",
            ErrorKind::RowDecodeError => "a row of the surface table does not decode",
        }
    }
}

/// An error met while parsing a BUFKIT file.
#[derive(Debug, Clone, Copy, PartialEq, Eq, Structural)]
pub struct BufkitFileError {
    /// What went wrong.
    pub kind: ErrorKind,
}

impl BufkitFileError {
    /// Creates an error of the given kind.
    pub fn new(kind: ErrorKind) -> (e: BufkitFileError)
        ensures
            e.kind == kind,
    {
        BufkitFileError { kind }
    }

    /// The kind of this error.
    pub fn kind(&self) -> (k: ErrorKind)
        ensures
            k == self.kind,
    {
        self.kind
    }

    /// A description for a person to read: that a BUFKIT file did not parse,
    /// and what was wrong with it.
    pub fn message(&self) -> (s: String)
        ensures
            s@ == "Error parsing bufkit file: "@ + self.kind.spec_description(),
    {
        let mut s = "Error parsing bufkit file: ".to_owned();
        s.append(self.kind.description());
        s
    }
}

} // verus!
