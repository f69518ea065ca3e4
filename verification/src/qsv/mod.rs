//! What the three operations share: their options, and how a file's bytes
//! are read according to the kind of file.

use crate::csv::csv_data::{delimiter_byte, document_of, CsvData, CsvStream, Document};
use crate::csv::reader::csv_records;
use crate::error::QsvError;
use crate::text::{join, join_strings, str_eq, views};
use flate2::read::GzDecoder;
use std::io::Read;
use vstd::prelude::*;
use vstd::string::StringExecFns;

pub mod accumulators;
pub mod analysis;
pub mod query;
pub mod statistics;
pub mod util;

verus! {

/// How files are read: the delimiter between cells, whether whitespace
/// around cells is dropped, and whether every column is taken as text.
#[derive(Debug, Clone, Copy)]
pub struct Options {
    pub delimiter: char,
    pub trim: bool,
    pub textonly: bool,
}

/// A file that a statement names and that exists: the identifier it is
/// named by, the kind of file it is, and its bytes.
#[derive(Debug)]
pub struct FileSource {
    pub identifier: String,
    pub mime_type: String,
    pub bytes: Vec<u8>,
}

/// The first of `sources` that is named by `identifier`, if there is one.
pub open spec fn source_of(sources: Seq<FileSource>, identifier: Seq<char>) -> Option<FileSource>
    decreases sources.len(),
{
    if sources.len() == 0 {
        None
    } else if sources[0].identifier@ == identifier {
        Some(sources[0])
    } else {
        source_of(sources.skip(1), identifier)
    }
}

/// The first of `sources` that is named by `identifier`, if there is one.
pub fn find_source<'a>(sources: &'a Vec<FileSource>, identifier: &str) -> (r: Option<
    &'a FileSource,
>)
    ensures
        match r {
            Some(source) => source_of(sources@, identifier@) == Some(*source),
            None => source_of(sources@, identifier@) is None,
        },
{
    let mut i: usize = 0;
    assert(sources@.skip(0) =~= sources@);
    while i < sources.len()
        invariant
            i <= sources.len(),
            source_of(sources@, identifier@) == source_of(sources@.skip(i as int), identifier@),
        decreases sources.len() - i,
    {
        assert(sources@.skip(i as int)[0] == sources@[i as int]);
        assert(sources@.skip(i as int).skip(1) =~= sources@.skip(i as int + 1));
        if str_eq(sources[i].identifier.as_str(), identifier) {
            return Some(&sources[i]);
        }
        i += 1;
    }
    None
}

/// The line that a record of a result is written as: its values with a
/// comma between each two, and a line feed at the end. Nothing is quoted.
pub open spec fn output_line(record: Seq<Seq<char>>) -> Seq<char> {
    join(record, ","@) + "\n"@
}

/// The line that a record of a result is written as.
pub fn format_row(record: &Vec<String>) -> (line: String)
    ensures
        line@ == output_line(views(record@)),
{
    let mut line = join_strings(record, ",");
    line.append("\n");
    line
}

/// What `flate2` decompresses the gzip member at the start of `bytes` to,
/// or nothing where it reports an error.
pub uninterp spec fn gzip_decoded(bytes: Seq<u8>) -> Option<Seq<u8>>;

/// `flate2::read::GzDecoder` over `bytes`, read to its end: the
/// decompressed bytes, or the text of the error it reports.
#[verifier::external_body]
fn gunzip(bytes: &[u8]) -> (r: Result<Vec<u8>, String>)
    ensures
        match r {
            Ok(decoded) => gzip_decoded(bytes@) == Some(decoded@),
            Err(_) => gzip_decoded(bytes@) is None,
        },
{
    let mut decoded = Vec::new();
    match GzDecoder::new(bytes).read_to_end(&mut decoded) {
        Ok(_) => Ok(decoded),
        Err(error) => Err(error.to_string()),
    }
}

/// The text reported for a file of a kind that cannot be read.
pub open spec fn unsupported_mime(mime_type: Seq<char>, filename: Seq<char>) -> Seq<char> {
    "Unsupported MIME type "@ + mime_type + " for file "@ + filename
}

fn unsupported(mime_type: &str, filename: &str) -> (e: QsvError)
    ensures
        e is MimeUnsupported,
        e.text() == unsupported_mime(mime_type@, filename@),
{
    let mut message = String::from_str("Unsupported MIME type ");
    message.append(mime_type);
    message.append(" for file ");
    message.append(filename);
    QsvError::MimeUnsupported(message)
}

/// Why the bytes of a file cannot be read as delimited text.
pub enum Failure {
    /// The file is compressed and cannot be decompressed.
    Io,
    /// A record cannot be read, or is not as wide as the header.
    CsvFormat,
    /// The file is neither plain text nor gzip.
    MimeUnsupported,
}

/// The delimited text in a file of kind `mime_type`: what a gzip file
/// decompresses to, and a plain text file as it is.
pub open spec fn text_of(bytes: Seq<u8>, mime_type: Seq<char>) -> Result<Seq<u8>, Failure> {
    if mime_type == "application/gzip"@ {
        match gzip_decoded(bytes) {
            Some(decoded) => Ok(decoded),
            None => Err(Failure::Io),
        }
    } else if mime_type == "text/plain"@ {
        Ok(bytes)
    } else {
        Err(Failure::MimeUnsupported)
    }
}

/// The document in a file of kind `mime_type`, read under `options`.
pub open spec fn document_in(bytes: Seq<u8>, mime_type: Seq<char>, options: Options) -> Result<
    Document,
    Failure,
> {
    match text_of(bytes, mime_type) {
        Ok(text) => match document_of(
            csv_records(text, delimiter_byte(options.delimiter), options.trim),
        ) {
            Some(document) => Ok(document),
            None => Err(Failure::CsvFormat),
        },
        Err(failure) => Err(failure),
    }
}

/// The error `e` reports the failure `failure` for the file `filename` of
/// kind `mime_type`.
pub open spec fn reports(
    e: QsvError,
    failure: Failure,
    mime_type: Seq<char>,
    filename: Seq<char>,
) -> bool {
    match failure {
        Failure::Io => e is Io,
        Failure::CsvFormat => e is CsvFormat,
        Failure::MimeUnsupported => e is MimeUnsupported && e.text() == unsupported_mime(
            mime_type,
            filename,
        ),
    }
}

/// Reads the bytes of a file of kind `mime_type` as a whole document. A
/// gzip file is decompressed first; a plain text file is read as it is; a
/// file of any other kind is refused.
pub fn csv_data_from_mime_type(
    bytes: &[u8],
    filename: &str,
    mime_type: &str,
    options: &Options,
) -> (r: Result<CsvData, QsvError>)
    ensures
        match r {
            Ok(data) => document_in(bytes@, mime_type@, *options) == Ok::<Document, Failure>(data@)
                && data.filename@ == filename@ && data.wf(),
            Err(e) => document_in(bytes@, mime_type@, *options) is Err && reports(
                e,
                document_in(bytes@, mime_type@, *options)->Err_0,
                mime_type@,
                filename@,
            ),
        },
{
    if str_eq(mime_type, "application/gzip") {
        match gunzip(bytes) {
            Ok(decoded) => CsvData::from_reader(
                decoded.as_slice(),
                filename,
                options.delimiter,
                options.trim,
            ),
            Err(message) => Err(QsvError::Io(message)),
        }
    } else if str_eq(mime_type, "text/plain") {
        CsvData::from_reader(bytes, filename, options.delimiter, options.trim)
    } else {
        Err(unsupported(mime_type, filename))
    }
}

/// `r` is what opening a stream on the bytes of a file of kind `mime_type`
/// gives. Only a plain text file can be streamed; a file of any other kind
/// is refused.
pub open spec fn stream_from(
    bytes: Seq<u8>,
    filename: Seq<char>,
    mime_type: Seq<char>,
    options: Options,
    r: Result<CsvStream, QsvError>,
) -> bool {
    if mime_type == "text/plain"@ {
        CsvStream::opened_on(bytes, filename, options.delimiter, options.trim, r)
    } else {
        r matches Err(e) && e is MimeUnsupported && e.text() == unsupported_mime(
            mime_type,
            filename,
        )
    }
}

/// Opens a stream on the bytes of a file of kind `mime_type`.
pub fn csv_stream_from_mime_type(
    bytes: &[u8],
    filename: &str,
    mime_type: &str,
    options: &Options,
) -> (r: Result<CsvStream, QsvError>)
    ensures
        stream_from(bytes@, filename@, mime_type@, *options, r),
{
    if str_eq(mime_type, "text/plain") {
        CsvStream::from_reader(bytes, filename, options.delimiter, options.trim)
    } else {
        Err(unsupported(mime_type, filename))
    }
}

} // verus!
