//! Tabular data as it is held in memory: cell types, parsed cells and whole
//! documents.

use crate::csv::reader::{
    after_header, csv_records, error_message, next_record, open_reader, read_headers,
    reader_pending, reader_records, seek_to_start,
};
use crate::error::QsvError;
use crate::text::views;
use std::io::Cursor;
use vstd::prelude::*;
use vstd::string::StringExecFns;

verus! {

/// The type that a cell, or a whole column, is taken to have.
#[derive(Debug, Eq, Hash, Clone, Copy, PartialEq, Structural)]
pub enum CsvType {
    Integer,
    Float,
    String,
}

impl CsvType {
    /// Position in the order `Integer < Float < String`.
    pub open spec fn rank(self) -> int {
        match self {
            CsvType::Integer => 0,
            CsvType::Float => 1,
            CsvType::String => 2,
        }
    }

    /// Least upper bound of two types: the one of greater rank.
    pub open spec fn join_spec(self, other: CsvType) -> CsvType {
        if self.rank() >= other.rank() {
            self
        } else {
            other
        }
    }

    /// Least upper bound of two types under `Integer < Float < String`.
    pub fn join(self, other: CsvType) -> (r: CsvType)
        ensures
            r == self.join_spec(other),
    {
        match (self, other) {
            (CsvType::String, _) => CsvType::String,
            (_, CsvType::String) => CsvType::String,
            (CsvType::Float, _) => CsvType::Float,
            (_, CsvType::Float) => CsvType::Float,
            (CsvType::Integer, CsvType::Integer) => CsvType::Integer,
        }
    }

    /// The name under which the type is reported.
    pub open spec fn name_spec(self) -> Seq<char> {
        match self {
            CsvType::Integer => "integer"@,
            CsvType::Float => "float"@,
            CsvType::String => "text"@,
        }
    }

    /// The name under which the type is reported: `integer`, `float` or
    /// `text`.
    pub fn name(&self) -> (r: &'static str)
        ensures
            r@ == self.name_spec(),
    {
        match self {
            CsvType::Integer => "integer",
            CsvType::Float => "float",
            CsvType::String => "text",
        }
    }
}

/// A parsed cell. A `Float` cell keeps the decimal literal it was read from.
#[derive(Debug, PartialEq)]
pub enum CsvWrapper {
    Integer(i64),
    Float(String),
    String(String),
}

impl CsvWrapper {
    /// The type of the cell.
    pub open spec fn type_spec(self) -> CsvType {
        match self {
            CsvWrapper::Integer(_) => CsvType::Integer,
            CsvWrapper::Float(_) => CsvType::Float,
            CsvWrapper::String(_) => CsvType::String,
        }
    }

    /// The type of the cell.
    pub fn get_type(&self) -> (r: CsvType)
        ensures
            r == self.type_spec(),
    {
        match self {
            CsvWrapper::Integer(_) => CsvType::Integer,
            CsvWrapper::Float(_) => CsvType::Float,
            CsvWrapper::String(_) => CsvType::String,
        }
    }
}

/// The cells of each record, as text.
pub open spec fn rows_view(records: Seq<Vec<String>>) -> Seq<Seq<Seq<char>>> {
    records.map_values(|r: Vec<String>| views(r@))
}

/// A document held in memory: the header record, the data records in file
/// order, and the path it was read from.
#[derive(Debug)]
pub struct CsvData {
    pub records: Vec<Vec<String>>,
    pub headers: Vec<String>,
    pub filename: String,
}

impl CsvData {
    /// The column names, in file order.
    pub open spec fn names(&self) -> Seq<Seq<char>> {
        views(self.headers@)
    }

    /// The data records, in file order.
    pub open spec fn rows(&self) -> Seq<Seq<Seq<char>>> {
        rows_view(self.records@)
    }

    /// The document as a value.
    pub open spec fn view(&self) -> Document {
        Document { names: self.names(), rows: self.rows() }
    }

    /// Every record is as wide as the header.
    pub open spec fn wf(&self) -> bool {
        forall|r: int|
            0 <= r < self.records@.len() ==> (#[trigger] self.records@[r])@.len()
                == self.headers@.len()
    }

    /// Whether every record is as wide as the header.
    pub fn is_well_formed(&self) -> (ok: bool)
        ensures
            ok == self.wf(),
    {
        let width = self.headers.len();
        let mut r: usize = 0;
        while r < self.records.len()
            invariant
                r <= self.records.len(),
                width == self.headers@.len(),
                forall|q: int|
                    0 <= q < r ==> (#[trigger] self.records@[q])@.len() == self.headers@.len(),
            decreases self.records.len() - r,
        {
            if self.records[r].len() != width {
                return false;
            }
            r += 1;
        }
        true
    }
}

/// The size of the buffer through which delimited text is read: 16 KiB.
pub const BUFFER_CAPACITY: usize = 16384;

/// Every record can be read.
pub open spec fn readable(records: Seq<Option<Seq<Seq<char>>>>) -> bool {
    forall|i: int| 0 <= i < records.len() ==> (#[trigger] records[i]) is Some
}

/// The records themselves, where every one can be read.
pub open spec fn unwrapped(records: Seq<Option<Seq<Seq<char>>>>) -> Seq<Seq<Seq<char>>> {
    records.map_values(|r: Option<Seq<Seq<char>>>| r.unwrap())
}

/// The header record among `records`; it is empty where there is no
/// record at all.
pub open spec fn header_of(records: Seq<Option<Seq<Seq<char>>>>) -> Option<Seq<Seq<char>>> {
    if records.len() == 0 {
        Some(Seq::empty())
    } else {
        records[0]
    }
}

/// Every data record is as wide as the header record.
pub open spec fn uniform(records: Seq<Option<Seq<Seq<char>>>>) -> bool {
    forall|i: int|
        1 <= i < records.len() ==> (#[trigger] records[i]).unwrap().len() == records[0].unwrap().len()
}

/// A document as a value: the column names and the data records, in file
/// order.
pub struct Document {
    pub names: Seq<Seq<char>>,
    pub rows: Seq<Seq<Seq<char>>>,
}

/// The document that `records` make, where every one of them can be read
/// and every data record is as wide as the header record.
pub open spec fn document_of(records: Seq<Option<Seq<Seq<char>>>>) -> Option<Document> {
    if readable(records) && uniform(records) {
        Some(
            Document {
                names: header_of(records).unwrap(),
                rows: unwrapped(after_header(records)),
            },
        )
    } else {
        None
    }
}

/// The byte that stands for a delimiter: the low eight bits of its code.
pub open spec fn delimiter_byte(delimiter: char) -> u8 {
    (delimiter as u32 % 256) as u8
}

fn delimiter_of(delimiter: char) -> (b: u8)
    ensures
        b == delimiter_byte(delimiter),
{
    ((delimiter as u32) % 256) as u8
}

impl CsvData {
    /// `r` is what reading `bytes` as a document gives: the document made
    /// of the header record and of every data record, where every record
    /// can be read and is as wide as the header; else a format error.
    pub open spec fn read_from(
        bytes: Seq<u8>,
        filename: Seq<char>,
        delimiter: char,
        trim: bool,
        r: Result<CsvData, QsvError>,
    ) -> bool {
        let records = csv_records(bytes, delimiter_byte(delimiter), trim);
        match r {
            Ok(data) => {
                &&& document_of(records) == Some(data@)
                &&& data.filename@ == filename
                &&& data.wf()
            },
            Err(e) => e is CsvFormat && document_of(records) is None,
        }
    }

    /// Reads a whole document from `bytes`: the header record and every
    /// data record. It fails where a record cannot be read as text or is
    /// not as wide as the header.
    pub fn from_reader(bytes: &[u8], filename: &str, delimiter: char, trim: bool) -> (r: Result<
        CsvData,
        QsvError,
    >)
        ensures
            Self::read_from(bytes@, filename@, delimiter, trim, r),
    {
        let ghost records = csv_records(bytes@, delimiter_byte(delimiter), trim);
        let ghost data = after_header(records);
        let mut reader = open_reader(bytes, delimiter_of(delimiter), trim, BUFFER_CAPACITY);
        let mut rows: Vec<Vec<String>> = Vec::new();
        let mut done = false;
        while !done
            invariant
                records == csv_records(bytes@, delimiter_byte(delimiter), trim),
                reader_records(reader) == records,
                data == after_header(records),
                rows@.len() <= data.len(),
                done ==> rows@.len() == data.len(),
                reader_pending(reader) == data.skip(rows@.len() as int),
                forall|j: int| 0 <= j < rows@.len() ==> data[j] == Some(#[trigger] views(rows@[j]@)),
            decreases data.len() - rows@.len() + if done { 0int } else { 1int },
        {
            match next_record(&mut reader) {
                None => {
                    done = true;
                },
                Some(Ok(record)) => {
                    proof {
                        assert(data.skip(rows@.len() as int)[0] == data[rows@.len() as int]);
                        assert(data.skip(rows@.len() as int).skip(1) =~= data.skip(
                            rows@.len() as int + 1,
                        ));
                    }
                    rows.push(record);
                },
                Some(Err(error)) => {
                    proof {
                        assert(data.skip(rows@.len() as int)[0] == data[rows@.len() as int]);
                        assert(records.len() > 0);
                        assert(data[rows@.len() as int] == records[rows@.len() as int + 1]);
                        assert(records[rows@.len() as int + 1] is None);
                        assert(!readable(records));
                    }
                    return Err(QsvError::CsvFormat(error_message(&error)));
                },
            }
        }
        let headers = match read_headers(&mut reader) {
            Ok(headers) => headers,
            Err(error) => {
                return Err(QsvError::CsvFormat(error_message(&error)));
            },
        };
        proof {
            assert(rows@.len() == data.len());
            assert forall|i: int| 0 <= i < records.len() implies (#[trigger] records[i]) is Some by {
                if i > 0 {
                    assert(data[i - 1] == records[i]);
                    assert(data[i - 1] == Some(views(rows@[i - 1]@)));
                }
            }
            assert(rows_view(rows@) =~= unwrapped(data));
        }
        let csv = CsvData { records: rows, headers, filename: filename.to_owned() };
        if csv.is_well_formed() {
            proof {
                assert forall|i: int| 1 <= i < records.len() implies (#[trigger] records[i]).unwrap().len()
                    == records[0].unwrap().len() by {
                    assert(data[i - 1] == records[i]);
                    assert(csv.records@[i - 1]@.len() == csv.headers@.len());
                    assert(views(csv.records@[i - 1]@).len() == csv.records@[i - 1]@.len());
                }
                assert(uniform(records));
                if records.len() == 0 {
                    assert(csv.names() =~= Seq::<Seq<char>>::empty());
                }
                assert(document_of(records) == Some(csv@));
            }
            Ok(csv)
        } else {
            proof {
                if uniform(records) {
                    assert forall|r: int| 0 <= r < csv.records@.len() implies (
                    #[trigger] csv.records@[r])@.len() == csv.headers@.len() by {
                        assert(data[r] == records[r + 1]);
                        assert(records[r + 1].unwrap().len() == records[0].unwrap().len());
                        assert(views(csv.records@[r]@).len() == csv.records@[r]@.len());
                    }
                    assert(csv.wf());
                }
                assert(!uniform(records));
            }
            Err(QsvError::CsvFormat(String::from_str("found a record of another width than the header")))
        }
    }
}

/// Delimited text that is read record by record and can be read again from
/// its first data record.
#[derive(Debug)]
pub struct CsvStream {
    pub headers: Vec<String>,
    pub filename: String,
    pub stream: ::csv::Reader<Cursor<Vec<u8>>>,
}

impl CsvStream {
    /// The column names, in file order.
    pub open spec fn names(&self) -> Seq<Seq<char>> {
        views(self.headers@)
    }

    /// The data records of the text, in file order; `None` stands for a
    /// record that cannot be read.
    pub open spec fn rows(&self) -> Seq<Option<Seq<Seq<char>>>> {
        after_header(reader_records(self.stream))
    }

    /// The records that the stream has still to yield.
    pub open spec fn pending(&self) -> Seq<Option<Seq<Seq<char>>>> {
        reader_pending(self.stream)
    }

    /// The two streams are over the same text, under the same name and with
    /// the same headers.
    pub open spec fn same_text(&self, other: &CsvStream) -> bool {
        &&& reader_records(self.stream) == reader_records(other.stream)
        &&& self.headers == other.headers
        &&& self.filename == other.filename
    }

    /// `r` is what opening a stream on `bytes` gives: a stream over the
    /// records of the text that has every data record still to yield, where
    /// the header record can be read; else a format error.
    pub open spec fn opened_on(
        bytes: Seq<u8>,
        filename: Seq<char>,
        delimiter: char,
        trim: bool,
        r: Result<CsvStream, QsvError>,
    ) -> bool {
        let records = csv_records(bytes, delimiter_byte(delimiter), trim);
        match r {
            Ok(stream) => {
                &&& reader_records(stream.stream) == records
                &&& header_of(records) == Some(stream.names())
                &&& stream.pending() == stream.rows()
                &&& stream.filename@ == filename
            },
            Err(e) => e is CsvFormat && header_of(records) is None,
        }
    }

    /// Opens a stream on `bytes` and reads the header record. The first
    /// record that the stream yields is the first data record. It fails
    /// where the header record cannot be read as text.
    pub fn from_reader(bytes: &[u8], filename: &str, delimiter: char, trim: bool) -> (r: Result<
        CsvStream,
        QsvError,
    >)
        ensures
            Self::opened_on(bytes@, filename@, delimiter, trim, r),
    {
        let mut stream = open_reader(bytes, delimiter_of(delimiter), trim, BUFFER_CAPACITY);
        match read_headers(&mut stream) {
            Ok(headers) => {
                assert(headers@.len() == 0 ==> views(headers@) =~= Seq::<Seq<char>>::empty());
                Ok(CsvStream { headers, filename: filename.to_owned(), stream })
            },
            Err(error) => Err(QsvError::CsvFormat(error_message(&error))),
        }
    }

    /// The next record of the stream: its cells, an error for a record that
    /// cannot be read, or nothing at the end of the text.
    pub fn next(&mut self) -> (r: Option<Result<Vec<String>, QsvError>>)
        ensures
            final(self).same_text(old(self)),
            match r {
                Some(Ok(record)) => old(self).pending().len() > 0 && old(self).pending()[0]
                    == Some(views(record@)) && final(self).pending() == old(self).pending().skip(
                    1,
                ),
                Some(Err(e)) => e is CsvFormat && old(self).pending().len() > 0 && old(
                    self,
                ).pending()[0] is None && final(self).pending() == old(self).pending().skip(1),
                None => old(self).pending().len() == 0 && final(self).pending() == old(
                    self,
                ).pending(),
            },
    {
        match next_record(&mut self.stream) {
            Some(Ok(record)) => Some(Ok(record)),
            Some(Err(error)) => Some(Err(QsvError::CsvFormat(error_message(&error)))),
            None => None,
        }
    }
}

/// Takes the stream back to its first data record: to the start of the
/// text, and then past one record. Wherever the stream stood before, it
/// then has all its data records to yield again; a second reset changes
/// nothing more.
pub fn reset_stream(csv_stream: &mut CsvStream) -> (r: Result<(), QsvError>)
    ensures
        r is Ok,
        final(csv_stream).same_text(old(csv_stream)),
        final(csv_stream).pending() == final(csv_stream).rows(),
{
    match seek_to_start(&mut csv_stream.stream) {
        Ok(()) => {},
        Err(error) => {
            return Err(QsvError::Io(error_message(&error)));
        },
    }
    let ghost all = csv_stream.pending();
    let skipped = next_record(&mut csv_stream.stream);
    proof {
        if all.len() > 0 {
            assert(csv_stream.pending() == all.skip(1));
        } else {
            assert(csv_stream.pending() =~= csv_stream.rows());
        }
    }
    Ok(())
}

} // verus!
