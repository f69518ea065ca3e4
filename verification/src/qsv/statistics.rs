//! Statistics of the columns of a file, computed while the file is read
//! once for each column.

use crate::csv::csv_data::{reset_stream, CsvStream, CsvType};
use crate::csv::csv_data::{delimiter_byte, header_of};
use crate::csv::inference::{
    distinct, last_index, parse, parse_integer, stream_column_type, ColumnInference,
};
use crate::csv::reader::{after_header, csv_records, reader_records};
use crate::csv::csv_data::CsvWrapper;
use crate::error::{error_parsing_type, QsvError};
use crate::qsv::accumulators::{
    add_extreme, add_integer, add_text, add_to_online_stats, extreme_samples, integer_cardinality,
    integer_samples, is_greatest, is_least, maximum, minimum, most_frequent_integers,
    most_frequent_texts, new_integer_frequencies, new_min_max, new_online_stats,
    new_text_frequencies, online_size, ranking_view, ranks, text_cardinality, text_samples,
};
use crate::qsv::{csv_stream_from_mime_type, Options};
use crate::text::{decimal, i64_to_string, push_decimal_digits, views};
use stats::OnlineStats;
use vstd::multiset::Multiset;
use vstd::prelude::*;
use vstd::string::StringExecFns;

verus! {

/// How many of the most frequent values are reported.
pub const TOP: usize = 10;

/// Why the cells of a column cannot be gone through.
pub enum ColumnFailure {
    /// A record cannot be read, or does not reach the column.
    Format,
    /// A cell does not hold a value of the column's type.
    Value,
}

/// The cells of column `index` of `items`, in order; or why they cannot be
/// gone through, as it shows at the first record that fails.
pub open spec fn text_cells(items: Seq<Option<Seq<Seq<char>>>>, index: int) -> Result<
    Seq<Seq<char>>,
    ColumnFailure,
>
    decreases items.len(),
{
    if items.len() == 0 {
        Ok(Seq::empty())
    } else {
        match text_cells(items.drop_last(), index) {
            Err(failure) => Err(failure),
            Ok(cells) => match items.last() {
                None => Err(ColumnFailure::Format),
                Some(record) => if index >= record.len() {
                    Err(ColumnFailure::Format)
                } else {
                    Ok(cells.push(record[index]))
                },
            },
        }
    }
}

/// The integers in column `index` of `items`, in order; or why they cannot
/// be gone through, as it shows at the first record that fails.
pub open spec fn integer_cells(items: Seq<Option<Seq<Seq<char>>>>, index: int) -> Result<
    Seq<i64>,
    ColumnFailure,
>
    decreases items.len(),
{
    if items.len() == 0 {
        Ok(Seq::empty())
    } else {
        match integer_cells(items.drop_last(), index) {
            Err(failure) => Err(failure),
            Ok(values) => match items.last() {
                None => Err(ColumnFailure::Format),
                Some(record) => if index >= record.len() {
                    Err(ColumnFailure::Format)
                } else {
                    match parse_integer(record[index]) {
                        Some(value) => Ok(values.push(value)),
                        None => Err(ColumnFailure::Value),
                    }
                },
            },
        }
    }
}

/// One line of the list of most frequent values.
pub open spec fn frequency_line(value: Seq<char>, count: u64) -> Seq<char> {
    "element: "@ + value + ", count: "@ + decimal(count as int)
}

/// The lines for the first ten entries of a ranking, or for all of them
/// where there are fewer.
pub open spec fn top_lines(ranking: Seq<(Seq<char>, u64)>) -> Seq<Seq<char>> {
    Seq::new(
        if ranking.len() < TOP {
            ranking.len()
        } else {
            TOP as nat
        },
        |i: int| frequency_line(ranking[i].0, ranking[i].1),
    )
}

/// The ranking with every integer written in decimal.
pub open spec fn written(ranking: Seq<(i64, u64)>) -> Seq<(Seq<char>, u64)> {
    ranking.map_values(|entry: (i64, u64)| (decimal(entry.0 as int), entry.1))
}

/// The lines for the ten most frequent values of a ranking.
pub fn format_top_10(ranking: &Vec<(String, u64)>) -> (lines: Vec<String>)
    ensures
        views(lines@) == top_lines(ranking_view(ranking@)),
{
    let mut lines: Vec<String> = Vec::new();
    let mut i: usize = 0;
    while i < ranking.len() && i < TOP
        invariant
            i <= ranking.len(),
            i <= TOP,
            lines@.len() == i,
            forall|j: int|
                0 <= j < i ==> (#[trigger] lines@[j])@ == frequency_line(
                    ranking@[j].0@,
                    ranking@[j].1,
                ),
        decreases ranking.len() - i,
    {
        let mut line = String::from_str("element: ");
        line.append(ranking[i].0.as_str());
        line.append(", count: ");
        push_decimal_digits(&mut line, ranking[i].1 as u128);
        assert(line@ =~= frequency_line(ranking@[i as int].0@, ranking@[i as int].1));
        lines.push(line);
        i += 1;
    }
    assert(views(lines@) =~= top_lines(ranking_view(ranking@)));
    lines
}

fn write_ranking(ranking: &Vec<(i64, u64)>) -> (out: Vec<(String, u64)>)
    ensures
        ranking_view(out@) == written(ranking@),
{
    let mut out: Vec<(String, u64)> = Vec::new();
    let mut i: usize = 0;
    while i < ranking.len()
        invariant
            i <= ranking.len(),
            out@.len() == i,
            forall|j: int|
                0 <= j < i ==> (#[trigger] out@[j]).0@ == decimal(ranking@[j].0 as int)
                    && out@[j].1 == ranking@[j].1,
        decreases ranking.len() - i,
    {
        out.push((i64_to_string(ranking[i].0), ranking[i].1));
        i += 1;
    }
    assert(ranking_view(out@) =~= written(ranking@));
    out
}

/// The statistics of one column. Which of them there are depends on the
/// type of the column: an integer column has them all; a text column has
/// its most frequent values and the number of its distinct values; of a
/// float column only its name, type and place are given, for the caller
/// to aggregate its cells as floating-point numbers.
pub struct Statistics {
    pub column: String,
    pub kind: CsvType,
    pub index: usize,
    pub stats: Option<OnlineStats>,
    pub top_10: Option<Vec<String>>,
    pub min: Option<i64>,
    pub max: Option<i64>,
    pub cardinality: Option<u64>,
}

impl Statistics {
    /// The lines for the most frequent values, as text.
    pub open spec fn lines(&self) -> Option<Seq<Seq<char>>> {
        match self.top_10 {
            Some(lines) => Some(views(lines@)),
            None => None,
        }
    }

    /// What is reported of the column besides its mean and deviation: a
    /// line for the least value, for the greatest, and for the number of
    /// distinct values, then a heading and the lines for the most frequent
    /// values; each of them only where the column has it, and each after a
    /// tab.
    pub open spec fn report(&self) -> Seq<Seq<char>> {
        (match self.min {
            Some(least) => seq!["\tMin: "@ + decimal(least as int)],
            None => Seq::empty(),
        }) + (match self.max {
            Some(greatest) => seq!["\tMax: "@ + decimal(greatest as int)],
            None => Seq::empty(),
        }) + (match self.cardinality {
            Some(n) => seq!["\tUnique: "@ + decimal(n as int)],
            None => Seq::empty(),
        }) + (match self.lines() {
            Some(lines) => seq!["\tTop ten most common occurrences:"@] + lines.map_values(
                |line: Seq<char>| "\t"@ + line,
            ),
            None => Seq::empty(),
        })
    }

    /// What is reported of the column besides its mean and deviation, line
    /// by line.
    pub fn describe(&self) -> (text: Vec<String>)
        ensures
            views(text@) == self.report(),
    {
        let mut text: Vec<String> = Vec::new();
        match self.min {
            Some(least) => {
                let mut line = String::from_str("\tMin: ");
                line.append(i64_to_string(least).as_str());
                text.push(line);
            },
            None => {},
        }
        match self.max {
            Some(greatest) => {
                let mut line = String::from_str("\tMax: ");
                line.append(i64_to_string(greatest).as_str());
                text.push(line);
            },
            None => {},
        }
        match self.cardinality {
            Some(n) => {
                let mut line = String::from_str("\tUnique: ");
                push_decimal_digits(&mut line, n as u128);
                text.push(line);
            },
            None => {},
        }
        let ghost before = views(text@);
        match &self.top_10 {
            Some(lines) => {
                text.push(String::from_str("\tTop ten most common occurrences:"));
                let ghost head = views(text@);
                let mut i: usize = 0;
                while i < lines.len()
                    invariant
                        i <= lines.len(),
                        text@.len() == head.len() + i,
                        forall|j: int| 0 <= j < head.len() ==> (#[trigger] text@[j])@ == head[j],
                        forall|k: int|
                            head.len() <= k < head.len() + i ==> (#[trigger] text@[k])@ == "\t"@
                                + lines@[k - head.len()]@,
                    decreases lines.len() - i,
                {
                    let mut line = String::from_str("\t");
                    line.append(lines[i].as_str());
                    text.push(line);
                    i += 1;
                }
                assert(head =~= before + seq!["\tTop ten most common occurrences:"@]);
                assert(views(text@) =~= head + views(lines@).map_values(
                    |line: Seq<char>| "\t"@ + line,
                ));
            },
            None => {},
        }
        assert(views(text@) =~= self.report());
        text
    }

    /// The statistics are those of an integer column that holds `values`:
    /// the least and the greatest of them, the number of distinct ones, the
    /// lines for the most frequent ones, and a running state that has taken
    /// in every one.
    pub open spec fn of_integers(&self, column: Seq<char>, index: int, values: Seq<i64>) -> bool {
        &&& self.column@ == column
        &&& self.kind == CsvType::Integer
        &&& self.index == index
        &&& self.stats matches Some(state) && online_size(state) == values.len()
        &&& is_least(values.to_multiset(), self.min)
        &&& is_greatest(values.to_multiset(), self.max)
        &&& self.cardinality matches Some(n) && n == values.to_multiset().dom().len()
        &&& self.lines() matches Some(lines) && exists|ranking: Seq<(i64, u64)>|
            ranks(values.to_multiset(), ranking) && lines == #[trigger] top_lines(written(ranking))
    }

    /// The statistics are those of a text column that holds `cells`: the
    /// number of distinct ones and the lines for the most frequent ones.
    pub open spec fn of_texts(&self, column: Seq<char>, index: int, cells: Seq<Seq<char>>) -> bool {
        &&& self.column@ == column
        &&& self.kind == CsvType::String
        &&& self.index == index
        &&& self.stats is None
        &&& self.min is None
        &&& self.max is None
        &&& self.cardinality matches Some(n) && n == cells.to_multiset().dom().len()
        &&& self.lines() matches Some(lines) && exists|ranking: Seq<(Seq<char>, u64)>|
            ranks(cells.to_multiset(), ranking) && lines == #[trigger] top_lines(ranking)
    }

    /// Nothing but the name, the type and the place of a float column.
    pub open spec fn of_floats(&self, column: Seq<char>, index: int) -> bool {
        &&& self.column@ == column
        &&& self.kind == CsvType::Float
        &&& self.index == index
        &&& self.stats is None
        &&& self.min is None
        &&& self.max is None
        &&& self.cardinality is None
        &&& self.lines() is None
    }
}

/// `r` is what going through a column that holds `cells` gives: the
/// statistics, where the cells can be gone through and are fewer than a
/// counter can count; else the error for the first record that fails.
pub open spec fn integer_outcome(
    r: Result<Statistics, QsvError>,
    column: Seq<char>,
    index: int,
    cells: Result<Seq<i64>, ColumnFailure>,
) -> bool {
    match cells {
        Ok(values) => if values.len() < u64::MAX {
            r matches Ok(s) && s.of_integers(column, index, values)
        } else {
            r matches Err(e) && e is CsvFormat
        },
        Err(ColumnFailure::Format) => r matches Err(e) && e is CsvFormat,
        Err(ColumnFailure::Value) => r matches Err(e) && e is ParseValue && e.text()
            == error_parsing_type(),
    }
}

/// `r` is what going through a text column that holds `cells` gives.
pub open spec fn text_outcome(
    r: Result<Statistics, QsvError>,
    column: Seq<char>,
    index: int,
    cells: Result<Seq<Seq<char>>, ColumnFailure>,
) -> bool {
    match cells {
        Ok(texts) => if texts.len() < u64::MAX {
            r matches Ok(s) && s.of_texts(column, index, texts)
        } else {
            r matches Err(e) && e is CsvFormat
        },
        Err(_) => r matches Err(e) && e is CsvFormat,
    }
}

/// The text reported for a column with more records than a counter of 64
/// bits can count.
pub open spec fn too_many_records_text() -> Seq<char> {
    "found more records than can be counted"@
}

/// The text reported for a record that does not reach the column asked for.
pub open spec fn narrow_record_text() -> Seq<char> {
    "found a record that is narrower than the header"@
}

fn too_many_records() -> (e: QsvError)
    ensures
        e is CsvFormat,
        e.text() == too_many_records_text(),
{
    QsvError::CsvFormat(String::from_str("found more records than can be counted"))
}

fn narrow_record() -> (e: QsvError)
    ensures
        e is CsvFormat,
        e.text() == narrow_record_text(),
{
    QsvError::CsvFormat(String::from_str("found a record that is narrower than the header"))
}

/// The statistics of an integer column, from the records that the stream
/// has still to yield: mean and deviation, least and greatest value, the
/// number of distinct values and the ten most frequent ones. The first cell
/// that is no integer ends it with `Error parsing type`.
pub fn integer_statistics(csv_stream: &mut CsvStream, index: usize, column: &str) -> (r: Result<
    Statistics,
    QsvError,
>)
    ensures
        final(csv_stream).same_text(old(csv_stream)),
        integer_outcome(
            r,
            column@,
            index as int,
            integer_cells(old(csv_stream).pending(), index as int),
        ),
{
    let ghost items = csv_stream.pending();
    let ghost mut values: Seq<i64> = Seq::empty();
    let ghost mut k: int = 0;
    let mut statistics = new_online_stats();
    let mut frequencies = new_integer_frequencies();
    let mut minmax = new_min_max();
    let mut count: u64 = 0;
    let mut full = false;
    proof {
        assert(items.take(0) =~= Seq::<Option<Seq<Seq<char>>>>::empty());
        assert(items.skip(0) =~= items);
        values.to_multiset_ensures();
        assert(values.to_multiset() =~= Multiset::<i64>::empty());
    }
    loop
        invariant
            csv_stream.same_text(old(csv_stream)),
            items == old(csv_stream).pending(),
            0 <= k <= items.len(),
            csv_stream.pending() == items.skip(k),
            integer_cells(items.take(k), index as int) == Ok::<Seq<i64>, ColumnFailure>(values),
            full ==> values.len() >= u64::MAX,
            !full ==> {
                &&& values.len() == count
                &&& count < u64::MAX
                &&& online_size(statistics) == values.len()
                &&& integer_samples(frequencies) == values.to_multiset()
                &&& extreme_samples(minmax) == values.to_multiset()
            },
        decreases items.len() - k,
    {
        let ghost next = items.take(k + 1);
        match csv_stream.next() {
            None => {
                proof {
                    assert(items.skip(k).len() == 0);
                    assert(items.take(k) =~= items);
                }
                if full {
                    return Err(too_many_records());
                }
                let ranking = most_frequent_integers(&frequencies);
                let lines = format_top_10(&write_ranking(&ranking));
                let result = Statistics {
                    column: String::from_str(column),
                    kind: CsvType::Integer,
                    index,
                    stats: Some(statistics),
                    top_10: Some(lines),
                    min: minimum(&minmax),
                    max: maximum(&minmax),
                    cardinality: Some(integer_cardinality(&frequencies)),
                };
                proof {
                    assert(ranks(values.to_multiset(), ranking@));
                    assert(result.lines() == Some(top_lines(written(ranking@))));
                    assert(result.of_integers(column@, index as int, values));
                }
                return Ok(result);
            },
            Some(Err(error)) => {
                proof {
                    assert(items.skip(k)[0] == items[k]);
                    assert(next.drop_last() =~= items.take(k));
                    assert(next.last() == items[k]);
                    lemma_integer_cells_failure(items, index as int, k + 1);
                }
                return Err(error);
            },
            Some(Ok(record)) => {
                proof {
                    assert(items.skip(k)[0] == items[k]);
                    assert(items.skip(k).skip(1) =~= items.skip(k + 1));
                    assert(next.drop_last() =~= items.take(k));
                    assert(next.last() == items[k]);
                }
                if index >= record.len() {
                    proof {
                        lemma_integer_cells_failure(items, index as int, k + 1);
                    }
                    return Err(narrow_record());
                }
                let value = match parse(record[index].as_str()) {
                    CsvWrapper::Integer(value) => value,
                    _ => {
                        proof {
                            lemma_integer_cells_failure(items, index as int, k + 1);
                        }
                        return Err(QsvError::ParseValue(String::from_str("Error parsing type")));
                    },
                };
                if !full && count == u64::MAX - 1 {
                    full = true;
                }
                if !full {
                    proof {
                        values.to_multiset_ensures();
                    }
                    add_to_online_stats(&mut statistics, value);
                    add_integer(&mut frequencies, value);
                    add_extreme(&mut minmax, value);
                    count += 1;
                }
                proof {
                    values = values.push(value);
                    k = k + 1;
                }
            },
        }
    }
}

/// The statistics of a text column, from the records that the stream has
/// still to yield: the number of distinct values and the ten most frequent
/// ones.
pub fn text_statistics(csv_stream: &mut CsvStream, index: usize, column: &str) -> (r: Result<
    Statistics,
    QsvError,
>)
    ensures
        final(csv_stream).same_text(old(csv_stream)),
        text_outcome(r, column@, index as int, text_cells(old(csv_stream).pending(), index as int)),
{
    let ghost items = csv_stream.pending();
    let ghost mut cells: Seq<Seq<char>> = Seq::empty();
    let ghost mut k: int = 0;
    let mut frequencies = new_text_frequencies();
    let mut count: u64 = 0;
    let mut full = false;
    proof {
        assert(items.take(0) =~= Seq::<Option<Seq<Seq<char>>>>::empty());
        assert(items.skip(0) =~= items);
        cells.to_multiset_ensures();
        assert(cells.to_multiset() =~= Multiset::<Seq<char>>::empty());
    }
    loop
        invariant
            csv_stream.same_text(old(csv_stream)),
            items == old(csv_stream).pending(),
            0 <= k <= items.len(),
            csv_stream.pending() == items.skip(k),
            text_cells(items.take(k), index as int) == Ok::<Seq<Seq<char>>, ColumnFailure>(cells),
            full ==> cells.len() >= u64::MAX,
            !full ==> {
                &&& cells.len() == count
                &&& count < u64::MAX
                &&& text_samples(frequencies) == cells.to_multiset()
            },
        decreases items.len() - k,
    {
        let ghost next = items.take(k + 1);
        match csv_stream.next() {
            None => {
                proof {
                    assert(items.skip(k).len() == 0);
                    assert(items.take(k) =~= items);
                }
                if full {
                    return Err(too_many_records());
                }
                let ranking = most_frequent_texts(&frequencies);
                let lines = format_top_10(&ranking);
                let result = Statistics {
                    column: String::from_str(column),
                    kind: CsvType::String,
                    index,
                    stats: None,
                    top_10: Some(lines),
                    min: None,
                    max: None,
                    cardinality: Some(text_cardinality(&frequencies)),
                };
                proof {
                    assert(ranks(cells.to_multiset(), ranking_view(ranking@)));
                    assert(result.lines() == Some(top_lines(ranking_view(ranking@))));
                    assert(result.of_texts(column@, index as int, cells));
                }
                return Ok(result);
            },
            Some(Err(error)) => {
                proof {
                    assert(items.skip(k)[0] == items[k]);
                    assert(next.drop_last() =~= items.take(k));
                    assert(next.last() == items[k]);
                    lemma_text_cells_failure(items, index as int, k + 1);
                }
                return Err(error);
            },
            Some(Ok(record)) => {
                proof {
                    assert(items.skip(k)[0] == items[k]);
                    assert(items.skip(k).skip(1) =~= items.skip(k + 1));
                    assert(next.drop_last() =~= items.take(k));
                    assert(next.last() == items[k]);
                }
                if index >= record.len() {
                    proof {
                        lemma_text_cells_failure(items, index as int, k + 1);
                    }
                    return Err(narrow_record());
                }
                if !full && count == u64::MAX - 1 {
                    full = true;
                }
                let ghost cell = record@[index as int]@;
                if !full {
                    proof {
                        cells.to_multiset_ensures();
                    }
                    add_text(&mut frequencies, record[index].clone());
                    count += 1;
                }
                proof {
                    cells = cells.push(cell);
                    k = k + 1;
                }
            },
        }
    }
}

proof fn lemma_text_cells_failure(items: Seq<Option<Seq<Seq<char>>>>, index: int, n: int)
    requires
        0 <= n <= items.len(),
        text_cells(items.take(n), index) is Err,
    ensures
        text_cells(items, index) == text_cells(items.take(n), index),
        text_cells(items, index) matches Err(failure) && failure is Format,
    decreases items.len() - n,
{
    lemma_text_cells_format(items.take(n), index);
    if n < items.len() {
        assert(items.take(n + 1).drop_last() =~= items.take(n));
        lemma_text_cells_failure(items, index, n + 1);
    } else {
        assert(items.take(n) =~= items);
    }
}

proof fn lemma_text_cells_format(items: Seq<Option<Seq<Seq<char>>>>, index: int)
    ensures
        text_cells(items, index) matches Err(failure) ==> failure is Format,
    decreases items.len(),
{
    if items.len() > 0 {
        lemma_text_cells_format(items.drop_last(), index);
    }
}

/// Once a prefix of the records fails, the whole fails in the same way.
proof fn lemma_integer_cells_failure(items: Seq<Option<Seq<Seq<char>>>>, index: int, n: int)
    requires
        0 <= n <= items.len(),
        integer_cells(items.take(n), index) is Err,
    ensures
        integer_cells(items, index) == integer_cells(items.take(n), index),
    decreases items.len() - n,
{
    if n < items.len() {
        assert(items.take(n + 1).drop_last() =~= items.take(n));
        lemma_integer_cells_failure(items, index, n + 1);
    } else {
        assert(items.take(n) =~= items);
    }
}

/// The type that column `index` of a stream over `rows` is taken to have
/// under `options`.
pub open spec fn stream_type(rows: Seq<Option<Seq<Seq<char>>>>, index: int, options: Options) -> CsvType {
    if options.textonly {
        CsvType::String
    } else {
        stream_column_type(rows, index, false, false).unwrap()
    }
}

/// `s` holds the statistics of the column called `name`, which stands at
/// `index` among the columns of `rows` and has the type `kind`.
pub open spec fn describes_column(
    s: Statistics,
    name: Seq<char>,
    index: int,
    kind: CsvType,
    rows: Seq<Option<Seq<Seq<char>>>>,
) -> bool {
    match kind {
        CsvType::Integer => integer_cells(rows, index) matches Ok(values) && s.of_integers(
            name,
            index,
            values,
        ),
        CsvType::Float => s.of_floats(name, index),
        CsvType::String => text_cells(rows, index) matches Ok(cells) && s.of_texts(
            name,
            index,
            cells,
        ),
    }
}

/// Why the statistics of a column of type `kind` cannot be computed from
/// `rows`, if they cannot: a record cannot be read or does not reach the
/// column, a cell of an integer column is no integer, or there are more
/// records than a counter can count.
pub open spec fn column_failure(
    rows: Seq<Option<Seq<Seq<char>>>>,
    index: int,
    kind: CsvType,
) -> Option<ColumnFailure> {
    match kind {
        CsvType::Integer => match integer_cells(rows, index) {
            Ok(values) => if values.len() < u64::MAX {
                None
            } else {
                Some(ColumnFailure::Format)
            },
            Err(failure) => Some(failure),
        },
        CsvType::Float => None,
        CsvType::String => match text_cells(rows, index) {
            Ok(cells) => if cells.len() < u64::MAX {
                None
            } else {
                Some(ColumnFailure::Format)
            },
            Err(failure) => Some(ColumnFailure::Format),
        },
    }
}

/// The error `e` reports the failure `failure` of a column.
pub open spec fn reports_column_failure(e: QsvError, failure: ColumnFailure) -> bool {
    match failure {
        ColumnFailure::Format => e is CsvFormat,
        ColumnFailure::Value => e is ParseValue && e.text() == error_parsing_type(),
    }
}

/// The column fails, and the error `e` reports why.
pub open spec fn reports_failure_of_column(
    e: QsvError,
    rows: Seq<Option<Seq<Seq<char>>>>,
    index: int,
    kind: CsvType,
) -> bool {
    match column_failure(rows, index, kind) {
        Some(failure) => reports_column_failure(e, failure),
        None => false,
    }
}

/// The statistics of the column `column`, which stands at `index` and has
/// the type `kind`, read from the first data record of the stream on. It
/// fails exactly where the column fails.
pub fn column_statistics(csv_stream: &mut CsvStream, column: &str, index: usize, kind: CsvType) -> (r:
    Result<Statistics, QsvError>)
    ensures
        final(csv_stream).same_text(old(csv_stream)),
        match r {
            Ok(s) => column_failure(old(csv_stream).rows(), index as int, kind) is None
                && describes_column(s, column@, index as int, kind, old(csv_stream).rows()),
            Err(e) => reports_failure_of_column(e, old(csv_stream).rows(), index as int, kind),
        },
{
    match reset_stream(csv_stream) {
        Ok(()) => {},
        Err(error) => {
            return Err(error);
        },
    }
    proof {
        lemma_text_cells_format(old(csv_stream).rows(), index as int);
    }
    match kind {
        CsvType::Integer => integer_statistics(csv_stream, index, column),
        CsvType::Float => Ok(
            Statistics {
                column: String::from_str(column),
                kind: CsvType::Float,
                index,
                stats: None,
                top_10: None,
                min: None,
                max: None,
                cardinality: None,
            },
        ),
        CsvType::String => text_statistics(csv_stream, index, column),
    }
}

/// The types of the first `n` columns of a stream over `rows` can be told:
/// only text is asked for, or every column can be gone through.
pub open spec fn types_known(rows: Seq<Option<Seq<Seq<char>>>>, n: nat, options: Options) -> bool {
    options.textonly || forall|i: int|
        0 <= i < n ==> (#[trigger] stream_column_type(rows, i, false, false)) is Some
}

/// Opens a stream on the bytes of a plain text file and infers the types
/// of its columns, or takes them all as text where only text is asked for.
/// A file of another kind is refused.
pub fn maybe_load_stats(bytes: &[u8], filename: &str, mime_type: &str, options: &Options) -> (r:
    Result<(ColumnInference, CsvStream), QsvError>)
    ensures
        mime_type@ != "text/plain"@ ==> (r matches Err(e) && e is MimeUnsupported && e.text()
            == crate::qsv::unsupported_mime(mime_type@, filename@)),
        mime_type@ == "text/plain"@ ==> ({
            let records = csv_records(bytes@, delimiter_byte(options.delimiter), options.trim);
            let rows = after_header(records);
            match r {
                Ok((inference, stream)) => {
                    &&& reader_records(stream.stream) == records
                    &&& header_of(records) == Some(stream.names())
                    &&& stream.filename@ == filename@
                    &&& types_known(rows, stream.names().len(), *options)
                    &&& inference.describes(
                        stream.names(),
                        |i: int| stream_type(rows, i, *options),
                    )
                },
                Err(e) => e is CsvFormat && (header_of(records) is None || !types_known(
                    rows,
                    header_of(records).unwrap().len(),
                    *options,
                )),
            }
        }),
{
    let mut csv = match csv_stream_from_mime_type(bytes, filename, mime_type, options) {
        Ok(csv) => csv,
        Err(error) => {
            return Err(error);
        },
    };
    let ghost opened = csv;
    if options.textonly {
        let inference = ColumnInference::default_inference(&csv.headers);
        Ok((inference, csv))
    } else {
        match ColumnInference::from_stream(&mut csv) {
            Ok(inference) => {
                proof {
                    assert(csv.same_text(&opened));
                    assert(csv.rows() == opened.rows());
                    assert(csv.names() == opened.names());
                }
                Ok((inference, csv))
            },
            Err(error) => {
                proof {
                    assert(csv.names() == opened.names());
                }
                Err(error)
            },
        }
    }
}

/// The statistics of every column of a file of kind `mime_type`, in the
/// order in which the column names first occur. The file is read once to
/// infer the types of its columns, unless only text is asked for, and once
/// more for each column. A column name that occurs more than once stands
/// for the last column of that name.
///
/// Only a plain text file is read. It fails where the header record cannot
/// be read, where the type of a column cannot be told, and at the first
/// column that fails.
pub fn execute_statistics(bytes: &[u8], filename: &str, mime_type: &str, options: &Options) -> (r:
    Result<Vec<Statistics>, QsvError>)
    ensures
        mime_type@ != "text/plain"@ ==> (r matches Err(e) && e is MimeUnsupported && e.text()
            == crate::qsv::unsupported_mime(mime_type@, filename@)),
        mime_type@ == "text/plain"@ ==> ({
            let records = csv_records(bytes@, delimiter_byte(options.delimiter), options.trim);
            let names = header_of(records).unwrap();
            let rows = after_header(records);
            match r {
                Ok(all) => {
                    &&& header_of(records) is Some
                    &&& types_known(rows, names.len(), *options)
                    &&& all@.len() == distinct(names).len()
                    &&& forall|i: int|
                        0 <= i < all@.len() ==> column_failure(
                            rows,
                            last_index(names, #[trigger] distinct(names)[i]),
                            stream_type(rows, last_index(names, distinct(names)[i]), *options),
                        ) is None
                    &&& forall|i: int|
                        0 <= i < all@.len() ==> describes_column(
                            #[trigger] all@[i],
                            distinct(names)[i],
                            last_index(names, distinct(names)[i]),
                            stream_type(rows, last_index(names, distinct(names)[i]), *options),
                            rows,
                        )
                },
                Err(e) => (e is CsvFormat && (header_of(records) is None || !types_known(
                    rows,
                    names.len(),
                    *options,
                ))) || exists|i: int|
                    0 <= i < distinct(names).len() && #[trigger] reports_failure_of_column(
                        e,
                        rows,
                        last_index(names, distinct(names)[i]),
                        stream_type(rows, last_index(names, distinct(names)[i]), *options),
                    ),
            }
        }),
{
    let (inference, mut csv_stream) = match maybe_load_stats(bytes, filename, mime_type, options) {
        Ok(loaded) => loaded,
        Err(error) => {
            return Err(error);
        },
    };
    let ghost records = csv_records(bytes@, delimiter_byte(options.delimiter), options.trim);
    let ghost names = header_of(records).unwrap();
    let ghost rows = after_header(records);
    let ghost start = csv_stream;
    proof {
        inference.columns_to_types.lemma_entries();
        inference.columns_to_indexes.lemma_entries();
        assert(start.rows() == rows);
        assert(start.names() == names);
    }
    let mut all: Vec<Statistics> = Vec::new();
    let mut i: usize = 0;
    while i < inference.columns_to_types.len()
        invariant
            mime_type@ == "text/plain"@,
            records == csv_records(bytes@, delimiter_byte(options.delimiter), options.trim),
            names == header_of(records).unwrap(),
            rows == after_header(records),
            header_of(records) is Some,
            types_known(rows, names.len(), *options),
            i <= inference.columns_to_types.keys().len(),
            csv_stream.same_text(&start),
            start.rows() == rows,
            start.names() == names,
            inference.describes(names, |j: int| stream_type(rows, j, *options)),
            all@.len() == i,
            forall|j: int|
                0 <= j < i ==> column_failure(
                    rows,
                    last_index(names, #[trigger] distinct(names)[j]),
                    stream_type(rows, last_index(names, distinct(names)[j]), *options),
                ) is None,
            forall|j: int|
                0 <= j < i ==> describes_column(
                    #[trigger] all@[j],
                    distinct(names)[j],
                    last_index(names, distinct(names)[j]),
                    stream_type(rows, last_index(names, distinct(names)[j]), *options),
                    rows,
                ),
        decreases inference.columns_to_types.keys().len() - i,
    {
        let key = inference.columns_to_types.key_at(i);
        let ghost name = distinct(names)[i as int];
        proof {
            inference.columns_to_types.lemma_entries();
            inference.columns_to_indexes.lemma_entries();
            assert(key@ == name);
            assert(inference.columns_to_types@.contains_key(name));
            assert(names.contains(name)) by {
                if !names.contains(name) {
                    assert(inference.type_of(name) is None);
                }
            }
            assert(inference.type_of(name) == Some(
                stream_type(rows, last_index(names, name), *options),
            ));
            assert(inference.index_of(name) == Some(last_index(names, name)));
        }
        let kind = *inference.columns_to_types.value_at(i);
        let index = match inference.get_index(key.as_str()) {
            Some(index) => index,
            None => vstd::pervasive::unreached(),
        };
        match column_statistics(&mut csv_stream, key.as_str(), index, kind) {
            Ok(statistics) => {
                all.push(statistics);
            },
            Err(error) => {
                proof {
                    assert(reports_failure_of_column(
                        error,
                        rows,
                        last_index(names, distinct(names)[i as int]),
                        stream_type(rows, last_index(names, distinct(names)[i as int]), *options),
                    ));
                }
                return Err(error);
            },
        }
        i += 1;
    }
    Ok(all)
}

} // verus!
