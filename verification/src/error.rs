//! The ways in which an operation can fail.

use vstd::prelude::*;

verus! {

/// Why an operation was given up. Each variant carries the text that is
/// reported for it.
#[derive(Debug)]
pub enum QsvError {
    /// The statement text could not be read, or is not exactly one query.
    Parse(String),
    /// A file could not be opened, read or decompressed.
    Io(String),
    /// A record of delimited text could not be read.
    CsvFormat(String),
    /// A file is of a kind that cannot be read as delimited text.
    MimeUnsupported(String),
    /// A function was applied to a value it is not defined for.
    UdfType(String),
    /// A cell does not hold a value of its column's type.
    ParseValue(String),
    /// The relational engine reported an error.
    Engine(String),
}

impl QsvError {
    /// The text that is reported for the error.
    pub open spec fn text(self) -> Seq<char> {
        match self {
            QsvError::Parse(m) => m@,
            QsvError::Io(m) => m@,
            QsvError::CsvFormat(m) => m@,
            QsvError::MimeUnsupported(m) => m@,
            QsvError::UdfType(m) => m@,
            QsvError::ParseValue(m) => m@,
            QsvError::Engine(m) => m@,
        }
    }

    /// The text that is reported for the error.
    pub fn message(&self) -> (r: String)
        ensures
            r@ == self.text(),
    {
        match self {
            QsvError::Parse(m) => m.clone(),
            QsvError::Io(m) => m.clone(),
            QsvError::CsvFormat(m) => m.clone(),
            QsvError::MimeUnsupported(m) => m.clone(),
            QsvError::UdfType(m) => m.clone(),
            QsvError::ParseValue(m) => m.clone(),
            QsvError::Engine(m) => m.clone(),
        }
    }
}

/// The text reported for statement text that holds no statement or more
/// than one.
pub open spec fn expected_one_statement() -> Seq<char> {
    "Expected exactly one SQL statement in query input"@
}

/// The text reported for a statement that is not a query.
pub open spec fn unrecognized_statement() -> Seq<char> {
    "Unrecognized statement: only queries can be run"@
}

/// The text reported for a cell that does not hold a value of its column's
/// type.
pub open spec fn error_parsing_type() -> Seq<char> {
    "Error parsing type"@
}

} // verus!
