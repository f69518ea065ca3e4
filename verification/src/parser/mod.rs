//! The dialect under which statements are read: close to SQLite's, with
//! identifiers that may be written like file paths.

use vstd::prelude::*;

pub mod ast;
pub mod collector;
pub mod proofs;
pub mod rewriter;

verus! {

/// A dialect whose identifiers may start with, and hold, `.` and `/`, so
/// that a file's path can stand where a table is named.
#[derive(Debug, Default)]
pub struct CsvDialect;

impl CsvDialect {
    /// The characters that open a delimited identifier.
    pub open spec fn delimited_identifier_start(ch: char) -> bool {
        ch == '`' || ch == '"' || ch == '['
    }

    /// The characters that an identifier may start with: ASCII letters, `_`,
    /// `$`, every character from U+007F on, and `.` and `/`.
    pub open spec fn identifier_start(ch: char) -> bool {
        ||| 'a' <= ch <= 'z'
        ||| 'A' <= ch <= 'Z'
        ||| ch == '_'
        ||| ch == '$'
        ||| ch >= '\u{007f}'
        ||| ch == '.'
        ||| ch == '/'
    }

    /// The characters that an identifier may go on with: those it may start
    /// with, and decimal digits.
    pub open spec fn identifier_part(ch: char) -> bool {
        Self::identifier_start(ch) || '0' <= ch <= '9'
    }

    /// Whether `ch` opens a delimited identifier.
    pub fn starts_delimited_identifier(ch: char) -> (r: bool)
        ensures
            r == Self::delimited_identifier_start(ch),
    {
        ch == '`' || ch == '"' || ch == '['
    }

    /// Whether an identifier may start with `ch`.
    pub fn starts_identifier(ch: char) -> (r: bool)
        ensures
            r == Self::identifier_start(ch),
    {
        (ch >= 'a' && ch <= 'z') || (ch >= 'A' && ch <= 'Z') || ch == '_' || ch == '$' || ch
            >= '\u{007f}' || ch == '.' || ch == '/'
    }

    /// Whether an identifier may go on with `ch`.
    pub fn continues_identifier(ch: char) -> (r: bool)
        ensures
            r == Self::identifier_part(ch),
    {
        Self::starts_identifier(ch) || (ch >= '0' && ch <= '9')
    }
}

impl sqlparser::dialect::Dialect for CsvDialect {
    /// Whether `ch` opens a delimited identifier: a backtick, a double
    /// quote or a left square bracket does.
    fn is_delimited_identifier_start(&self, ch: char) -> (r: bool)
        ensures
            r == CsvDialect::delimited_identifier_start(ch),
    {
        CsvDialect::starts_delimited_identifier(ch)
    }

    /// Whether an identifier may start with `ch`.
    fn is_identifier_start(&self, ch: char) -> (r: bool)
        ensures
            r == CsvDialect::identifier_start(ch),
    {
        CsvDialect::starts_identifier(ch)
    }

    /// Whether an identifier may go on with `ch`.
    fn is_identifier_part(&self, ch: char) -> (r: bool)
        ensures
            r == CsvDialect::identifier_part(ch),
    {
        CsvDialect::continues_identifier(ch)
    }
}

} // verus!
