//! Reading delimited text with the `csv` crate from bytes held in memory.
//!
//! Nothing in this file is proved: each item states what the `csv` crate
//! does, and the rest of the library is proved from these statements.

use crate::text::views;
use std::io::Cursor;
use vstd::prelude::*;

verus! {

/// `csv::Reader`: a reader of delimited text. What it has read and what it
/// has still to yield is told by `reader_records` and `reader_pending`.
#[verifier::external_type_specification]
#[verifier::external_body]
#[verifier::reject_recursive_types(R)]
pub struct ExReader<R>(::csv::Reader<R>);

/// `std::io::Cursor`: bytes in memory with a position in them.
#[verifier::external_type_specification]
#[verifier::external_body]
#[verifier::reject_recursive_types(T)]
pub struct ExCursor<T>(Cursor<T>);

/// `csv::Error`: an error of the reader, of which nothing is known here.
#[verifier::external_type_specification]
#[verifier::external_body]
pub struct ExCsvError(::csv::Error);

/// The records that the `csv` crate reads from `bytes` with the given
/// delimiter, with or without trimming of whitespace. The first is the
/// header record as `Reader::headers` returns it, the others are the data
/// records in the order in which `Reader::records` yields them. `None`
/// stands for a record that the crate reports an error for.
pub uninterp spec fn csv_records(bytes: Seq<u8>, delimiter: u8, trim: bool) -> Seq<
    Option<Seq<Seq<char>>>,
>;

/// The records of the text that `reader` was opened on: the header record
/// first, then the data records.
pub uninterp spec fn reader_records(reader: ::csv::Reader<Cursor<Vec<u8>>>) -> Seq<
    Option<Seq<Seq<char>>>,
>;

/// The records that `reader` has still to yield, the next one first.
pub uninterp spec fn reader_pending(reader: ::csv::Reader<Cursor<Vec<u8>>>) -> Seq<
    Option<Seq<Seq<char>>>,
>;

/// The data records among `records`: all but the first.
pub open spec fn after_header(records: Seq<Option<Seq<Seq<char>>>>) -> Seq<Option<Seq<Seq<char>>>> {
    if records.len() == 0 {
        records
    } else {
        records.skip(1)
    }
}

/// `csv::ReaderBuilder::from_reader` on a cursor over a copy of `bytes`, with headers
/// and with records of one width. A reader that has read nothing yet yields
/// the data records: it keeps the header record to itself.
#[verifier::external_body]
pub(crate) fn open_reader(bytes: &[u8], delimiter: u8, trim: bool, capacity: usize) -> (reader:
    ::csv::Reader<Cursor<Vec<u8>>>)
    requires
        capacity > 0,
    ensures
        reader_records(reader) == csv_records(bytes@, delimiter, trim),
        reader_pending(reader) == after_header(reader_records(reader)),
{
    let trim = if trim { ::csv::Trim::All } else { ::csv::Trim::None };
    ::csv::ReaderBuilder::new()
        .buffer_capacity(capacity)
        .delimiter(delimiter)
        .trim(trim)
        .from_reader(Cursor::new(bytes.to_vec()))
}

/// `csv::Reader::headers`: the header record, or an error where it cannot
/// be read as text. Text without any record has an empty header record.
/// What the reader has still to yield stays the same.
#[verifier::external_body]
pub(crate) fn read_headers(reader: &mut ::csv::Reader<Cursor<Vec<u8>>>) -> (r: Result<
    Vec<String>,
    ::csv::Error,
>)
    ensures
        reader_records(*final(reader)) == reader_records(*old(reader)),
        reader_pending(*final(reader)) == reader_pending(*old(reader)),
        match r {
            Ok(headers) => if reader_records(*old(reader)).len() == 0 {
                headers@.len() == 0
            } else {
                reader_records(*old(reader))[0] == Some(views(headers@))
            },
            Err(_) => reader_records(*old(reader)).len() > 0 && reader_records(*old(reader))[0]
                is None,
        },
{
    Ok(reader.headers()?.iter().map(String::from).collect())
}

/// `csv::Reader::records`, advanced by one: the next record, an error for a
/// record that cannot be read, or nothing at the end of the text. After an
/// error the reader goes on with the record that follows.
#[verifier::external_body]
pub(crate) fn next_record(reader: &mut ::csv::Reader<Cursor<Vec<u8>>>) -> (r: Option<
    Result<Vec<String>, ::csv::Error>,
>)
    ensures
        reader_records(*final(reader)) == reader_records(*old(reader)),
        match r {
            Some(Ok(record)) => reader_pending(*old(reader)).len() > 0 && reader_pending(
                *old(reader),
            )[0] == Some(views(record@)) && reader_pending(*final(reader)) == reader_pending(
                *old(reader),
            ).skip(1),
            Some(Err(_)) => reader_pending(*old(reader)).len() > 0 && reader_pending(
                *old(reader),
            )[0] is None && reader_pending(*final(reader)) == reader_pending(*old(reader)).skip(
                1,
            ),
            None => reader_pending(*old(reader)).len() == 0 && reader_pending(*final(reader))
                == reader_pending(*old(reader)),
        },
{
    let next = reader.records().next();
    next.map(|result| result.map(|record| record.iter().map(String::from).collect()))
}

/// `csv::Reader::seek` to the start of the text. The reader then yields
/// the first record of the text as it does any other, and after it the
/// data records. On a cursor over bytes in memory it does not fail: it
/// reads the header record where that was not read yet, which fails on an
/// error of the source only, and it moves the cursor to its start.
#[verifier::external_body]
pub(crate) fn seek_to_start(reader: &mut ::csv::Reader<Cursor<Vec<u8>>>) -> (r: Result<
    (),
    ::csv::Error,
>)
    ensures
        r is Ok,
        reader_records(*final(reader)) == reader_records(*old(reader)),
        reader_pending(*final(reader)).len() == reader_records(*old(reader)).len(),
        after_header(reader_pending(*final(reader))) == after_header(reader_records(*old(reader))),
{
    reader.seek(::csv::Position::new())
}

/// `csv::Error`'s own description of itself.
#[verifier::external_body]
pub(crate) fn error_message(error: &::csv::Error) -> (message: String) {
    error.to_string()
}

} // verus!
