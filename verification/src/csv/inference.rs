//! Classification of cells and columns as integer, float or text.

use crate::csv::csv_data::{
    readable, reset_stream, rows_view, unwrapped, CsvData, CsvStream, CsvType, CsvWrapper,
};
use crate::error::QsvError;
use crate::string_map::StringMap;
use crate::text::{chars_of, views};
use vstd::prelude::*;
use vstd::string::StringExecFns;

verus! {

/// `c` is one of the decimal digits `0` to `9`.
pub open spec fn is_digit(c: char) -> bool {
    '0' <= c && c <= '9'
}

/// The number that the decimal digit `c` denotes.
pub open spec fn digit_value(c: char) -> int {
    c as int - 48
}

/// Every character of `s` is a decimal digit.
pub open spec fn all_digits(s: Seq<char>) -> bool {
    forall|i: int| 0 <= i < s.len() ==> is_digit(#[trigger] s[i])
}

/// The number that a run of decimal digits denotes.
pub open spec fn digits_value(s: Seq<char>) -> int
    decreases s.len(),
{
    if s.len() == 0 {
        0
    } else {
        10 * digits_value(s.drop_last()) + digit_value(s.last())
    }
}

/// `s` starts with `+` or `-`.
pub open spec fn has_sign(s: Seq<char>) -> bool {
    s.len() > 0 && (s[0] == '-' || s[0] == '+')
}

/// What is left of a literal once a leading `+` or `-` is taken off.
pub open spec fn unsigned_part(s: Seq<char>) -> Seq<char> {
    if has_sign(s) {
        s.skip(1)
    } else {
        s
    }
}

/// An optional sign, then one or more decimal digits and nothing else.
pub open spec fn is_integer_literal(s: Seq<char>) -> bool {
    unsigned_part(s).len() > 0 && all_digits(unsigned_part(s))
}

/// The number that an integer literal denotes.
pub open spec fn integer_literal_value(s: Seq<char>) -> int {
    if s.len() > 0 && s[0] == '-' {
        -digits_value(unsigned_part(s))
    } else {
        digits_value(unsigned_part(s))
    }
}

/// The signed 64-bit integer that `s` denotes, if it is an integer literal
/// whose value fits.
pub open spec fn parse_integer(s: Seq<char>) -> Option<i64> {
    if is_integer_literal(s) && i64::MIN <= integer_literal_value(s) <= i64::MAX {
        Some(integer_literal_value(s) as i64)
    } else {
        None
    }
}

/// How many of the characters of `s` are decimal digits.
pub open spec fn digit_count(s: Seq<char>) -> nat
    decreases s.len(),
{
    if s.len() == 0 {
        0
    } else {
        digit_count(s.drop_last()) + if is_digit(s.last()) {
            1nat
        } else {
            0nat
        }
    }
}

/// How many of the characters of `s` are the decimal point.
pub open spec fn point_count(s: Seq<char>) -> nat
    decreases s.len(),
{
    if s.len() == 0 {
        0
    } else {
        point_count(s.drop_last()) + if s.last() == '.' {
            1nat
        } else {
            0nat
        }
    }
}

/// An optional sign, then decimal digits with at most one `.` among them:
/// at least one digit, and no other character.
pub open spec fn is_decimal_literal(s: Seq<char>) -> bool {
    let body = unsigned_part(s);
    &&& digit_count(body) >= 1
    &&& point_count(body) <= 1
    &&& digit_count(body) + point_count(body) == body.len()
}

/// The type of one cell: integer first, then float, else text.
pub open spec fn cell_type(s: Seq<char>) -> CsvType {
    if parse_integer(s) is Some {
        CsvType::Integer
    } else if is_decimal_literal(s) {
        CsvType::Float
    } else {
        CsvType::String
    }
}

/// What `parse` makes of a cell.
pub open spec fn parses_to(s: Seq<char>, cell: CsvWrapper) -> bool {
    match cell {
        CsvWrapper::Integer(v) => parse_integer(s) == Some(v),
        CsvWrapper::Float(t) => parse_integer(s) is None && is_decimal_literal(s) && t@ == s,
        CsvWrapper::String(t) => parse_integer(s) is None && !is_decimal_literal(s) && t@ == s,
    }
}

/// Largest magnitude that a signed 64-bit integer can have.
pub const MAX_MAGNITUDE: u128 = 9223372036854775808;

proof fn lemma_take_next<T>(s: Seq<T>, i: int)
    requires
        0 <= i < s.len(),
    ensures
        s.take(i + 1).drop_last() == s.take(i),
        s.take(i + 1).last() == s[i],
        s.take(i + 1) == s.take(i).push(s[i]),
{
    assert(s.take(i + 1).drop_last() =~= s.take(i));
    assert(s.take(i + 1) =~= s.take(i).push(s[i]));
}

proof fn lemma_all_digits_push(s: Seq<char>, c: char)
    ensures
        all_digits(s.push(c)) == (all_digits(s) && is_digit(c)),
{
    if all_digits(s.push(c)) {
        assert(is_digit(s.push(c)[s.len() as int]));
        assert forall|i: int| 0 <= i < s.len() implies is_digit(#[trigger] s[i]) by {
            assert(s.push(c)[i] == s[i]);
        }
    }
}

proof fn lemma_digits_value_nonnegative(s: Seq<char>)
    requires
        all_digits(s),
    ensures
        digits_value(s) >= 0,
    decreases s.len(),
{
    if s.len() > 0 {
        assert(s.drop_last().push(s.last()) =~= s);
        lemma_all_digits_push(s.drop_last(), s.last());
        lemma_digits_value_nonnegative(s.drop_last());
    }
}

/// Whether `body` is a run of digits, and the number it denotes where that
/// is at most `MAX_MAGNITUDE`.
fn scan_digits(body: &Vec<char>, start: usize) -> (r: (bool, Option<u128>))
    requires
        start <= body.len(),
    ensures
        r.0 == all_digits(body@.skip(start as int)),
        r.0 ==> match r.1 {
            Some(m) => m == digits_value(body@.skip(start as int)) && m <= MAX_MAGNITUDE,
            None => digits_value(body@.skip(start as int)) > MAX_MAGNITUDE,
        },
{
    let ghost all = body@.skip(start as int);
    let n = body.len();
    let mut i: usize = start;
    let mut only_digits = true;
    let mut magnitude: u128 = 0;
    let mut too_large = false;
    assert(all.take(0) =~= Seq::<char>::empty());
    while i < n
        invariant
            start <= i <= n,
            n == body.len(),
            all == body@.skip(start as int),
            only_digits == all_digits(all.take(i - start)),
            only_digits && !too_large ==> magnitude == digits_value(all.take(i - start))
                && magnitude <= MAX_MAGNITUDE,
            only_digits && too_large ==> digits_value(all.take(i - start)) > MAX_MAGNITUDE,
        decreases n - i,
    {
        let c = body[i];
        proof {
            let k = i - start;
            assert(all[k] == c);
            lemma_take_next(all, k);
            lemma_all_digits_push(all.take(k), c);
            if all_digits(all.take(k)) {
                lemma_digits_value_nonnegative(all.take(k));
            }
        }
        if c >= '0' && c <= '9' {
            if only_digits && !too_large {
                let next: u128 = magnitude * 10 + ((c as u8 - 48u8) as u128);
                if next > MAX_MAGNITUDE {
                    too_large = true;
                } else {
                    magnitude = next;
                }
            }
        } else {
            only_digits = false;
        }
        i += 1;
    }
    assert(all.take(n - start) =~= all);
    if too_large {
        (only_digits, None)
    } else {
        (only_digits, Some(magnitude))
    }
}

/// Whether the characters from `start` on are digits and at most one
/// decimal point, with at least one digit.
fn scan_decimal(body: &Vec<char>, start: usize) -> (r: bool)
    requires
        start <= body.len(),
    ensures
        r == ({
            let rest = body@.skip(start as int);
            digit_count(rest) >= 1 && point_count(rest) <= 1 && digit_count(rest) + point_count(
                rest,
            ) == rest.len()
        }),
{
    let ghost all = body@.skip(start as int);
    let n = body.len();
    let mut i: usize = start;
    let mut digits: usize = 0;
    let mut points: usize = 0;
    assert(all.take(0) =~= Seq::<char>::empty());
    while i < n
        invariant
            start <= i <= n,
            n == body.len(),
            all == body@.skip(start as int),
            digits == digit_count(all.take(i - start)),
            points == point_count(all.take(i - start)),
            digits + points <= i - start,
        decreases n - i,
    {
        let c = body[i];
        proof {
            let k = i - start;
            assert(all[k] == c);
            lemma_take_next(all, k);
        }
        if c >= '0' && c <= '9' {
            digits += 1;
        } else if c == '.' {
            points += 1;
        }
        i += 1;
    }
    assert(all.take(n - start) =~= all);
    digits >= 1 && points <= 1 && digits + points == n - start
}

/// Reads a cell: a signed 64-bit integer where the text is one, else a
/// decimal literal where it is one, else the text itself.
pub fn parse(s: &str) -> (cell: CsvWrapper)
    ensures
        parses_to(s@, cell),
        cell.type_spec() == cell_type(s@),
{
    let chars = chars_of(s);
    let signed = chars.len() > 0 && (chars[0] == '-' || chars[0] == '+');
    let negative = chars.len() > 0 && chars[0] == '-';
    let start: usize = if signed {
        1
    } else {
        0
    };
    assert(unsigned_part(s@) =~= chars@.skip(start as int));
    let (only_digits, magnitude) = scan_digits(&chars, start);
    if only_digits && chars.len() > start {
        match magnitude {
            Some(m) => {
                if negative {
                    let value: i64 = (-(m as i128)) as i64;
                    return CsvWrapper::Integer(value);
                } else if m < MAX_MAGNITUDE {
                    return CsvWrapper::Integer(m as i64);
                }
            },
            None => {},
        }
    }
    if scan_decimal(&chars, start) {
        CsvWrapper::Float(s.to_owned())
    } else {
        CsvWrapper::String(s.to_owned())
    }
}

/// Whether some record has a cell of type `t` in column `index`.
pub open spec fn observed(rows: Seq<Seq<Seq<char>>>, index: int, t: CsvType) -> bool {
    exists|r: int| 0 <= r < rows.len() && cell_type((#[trigger] rows[r])[index]) == t
}

/// The type of a column: text where any cell is text or where there is no
/// record; float where integers and floats are mixed; else the one type
/// that was seen.
pub open spec fn column_type(rows: Seq<Seq<Seq<char>>>, index: int) -> CsvType {
    if observed(rows, index, CsvType::String) {
        CsvType::String
    } else if observed(rows, index, CsvType::Integer) && observed(rows, index, CsvType::Float) {
        CsvType::Float
    } else if observed(rows, index, CsvType::Integer) {
        CsvType::Integer
    } else if observed(rows, index, CsvType::Float) {
        CsvType::Float
    } else {
        CsvType::String
    }
}

/// The join of the cell types of column `index` over the first `n` records,
/// starting from the least type.
pub open spec fn join_of_cells(rows: Seq<Seq<Seq<char>>>, index: int, n: nat) -> CsvType
    decreases n,
{
    if n == 0 {
        CsvType::Integer
    } else {
        join_of_cells(rows, index, (n - 1) as nat).join_spec(cell_type(rows[n - 1][index]))
    }
}

/// The type of a column with at least one record is the least upper bound of
/// the types of its cells under `Integer < Float < String`; the type of a
/// column without records is text.
pub proof fn lemma_column_type_is_join(rows: Seq<Seq<Seq<char>>>, index: int)
    ensures
        rows.len() > 0 ==> column_type(rows, index) == join_of_cells(rows, index, rows.len()),
        rows.len() == 0 ==> column_type(rows, index) == CsvType::String,
{
    lemma_join_of_cells(rows, index, rows.len());
    assert(rows.take(rows.len() as int) =~= rows);
}

proof fn lemma_join_of_cells(rows: Seq<Seq<Seq<char>>>, index: int, n: nat)
    requires
        n <= rows.len(),
    ensures
        n > 0 ==> column_type(rows.take(n as int), index) == join_of_cells(rows, index, n),
        n == 0 ==> column_type(rows.take(n as int), index) == CsvType::String,
    decreases n,
{
    if n > 0 {
        let before = rows.take(n - 1);
        let now = rows.take(n as int);
        let t = cell_type(rows[n - 1][index]);
        lemma_join_of_cells(rows, index, (n - 1) as nat);
        assert forall|u: CsvType| observed(now, index, u) == (observed(before, index, u) || t
            == u) by {
            if observed(before, index, u) {
                let r = choose|r: int|
                    0 <= r < before.len() && cell_type((#[trigger] before[r])[index]) == u;
                assert(now[r] == before[r]);
            }
            if t == u {
                assert(now[n - 1] == rows[n - 1]);
            }
            if observed(now, index, u) {
                let r = choose|r: int|
                    0 <= r < now.len() && cell_type((#[trigger] now[r])[index]) == u;
                if r < n - 1 {
                    assert(before[r] == now[r]);
                } else {
                    assert(now[r] == rows[n - 1]);
                }
            }
        }
        assert(observed(now, index, t)) by {
            assert(now[n - 1] == rows[n - 1]);
        }
        assert(observed(now, index, CsvType::String) == (observed(before, index, CsvType::String)
            || t == CsvType::String));
        assert(observed(now, index, CsvType::Integer) == (observed(
            before,
            index,
            CsvType::Integer,
        ) || t == CsvType::Integer));
        assert(observed(now, index, CsvType::Float) == (observed(before, index, CsvType::Float)
            || t == CsvType::Float));
        if n == 1 {
            assert(!observed(before, index, CsvType::String));
            assert(!observed(before, index, CsvType::Integer));
            assert(!observed(before, index, CsvType::Float));
        } else {
            assert(observed(before, index, cell_type(rows[0][index]))) by {
                assert(before[0] == rows[0]);
            }
        }
    }
}

/// Every record reaches column `index`.
pub open spec fn reaches(records: Seq<Vec<String>>, index: int) -> bool {
    forall|r: int| 0 <= r < records.len() ==> index < (#[trigger] records[r])@.len()
}

/// The type of column `index` over all the records.
pub fn get_type_of_column(records: &Vec<Vec<String>>, index: usize) -> (t: CsvType)
    requires
        reaches(records@, index as int),
    ensures
        t == column_type(rows_view(records@), index as int),
{
    let ghost rows = rows_view(records@);
    let mut integer = false;
    let mut float = false;
    let mut text = false;
    let mut r: usize = 0;
    while r < records.len()
        invariant
            r <= records.len(),
            rows == rows_view(records@),
            reaches(records@, index as int),
            integer == observed(rows.take(r as int), index as int, CsvType::Integer),
            float == observed(rows.take(r as int), index as int, CsvType::Float),
            text == observed(rows.take(r as int), index as int, CsvType::String),
        decreases records.len() - r,
    {
        let record = &records[r];
        let cell = parse(record[index].as_str());
        let t = cell.get_type();
        proof {
            let before = rows.take(r as int);
            let now = rows.take(r as int + 1);
            assert(rows[r as int][index as int] == record@[index as int]@);
            assert forall|u: CsvType| observed(now, index as int, u) == (observed(
                before,
                index as int,
                u,
            ) || t == u) by {
                if observed(before, index as int, u) {
                    let q = choose|q: int|
                        0 <= q < before.len() && cell_type((#[trigger] before[q])[index as int])
                            == u;
                    assert(now[q] == before[q]);
                }
                if t == u {
                    assert(now[r as int] == rows[r as int]);
                }
                if observed(now, index as int, u) {
                    let q = choose|q: int|
                        0 <= q < now.len() && cell_type((#[trigger] now[q])[index as int]) == u;
                    if q < r {
                        assert(before[q] == now[q]);
                    } else {
                        assert(now[q] == rows[r as int]);
                    }
                }
            }
        }
        match t {
            CsvType::Integer => {
                integer = true;
            },
            CsvType::Float => {
                float = true;
            },
            CsvType::String => {
                text = true;
            },
        }
        r += 1;
    }
    assert(rows.take(records.len() as int) =~= rows);
    if text {
        CsvType::String
    } else if integer && float {
        CsvType::Float
    } else if integer {
        CsvType::Integer
    } else if float {
        CsvType::Float
    } else {
        CsvType::String
    }
}

/// The type of a column of which integers, floats, both or neither have
/// been seen, and no text.
pub open spec fn seen_type(integer: bool, float: bool) -> CsvType {
    if float {
        CsvType::Float
    } else if integer {
        CsvType::Integer
    } else {
        CsvType::String
    }
}

/// The type of column `index` as it is found by going through `items` in
/// order, with `integer` and `float` telling what was seen before them. The
/// first text cell settles the type as text, whatever follows. There is no
/// type where, before that, a record cannot be read or does not reach the
/// column.
pub open spec fn stream_column_type(
    items: Seq<Option<Seq<Seq<char>>>>,
    index: int,
    integer: bool,
    float: bool,
) -> Option<CsvType>
    decreases items.len(),
{
    if items.len() == 0 {
        Some(seen_type(integer, float))
    } else {
        match items[0] {
            None => None,
            Some(record) => if index >= record.len() {
                None
            } else {
                match cell_type(record[index]) {
                    CsvType::String => Some(CsvType::String),
                    CsvType::Integer => stream_column_type(items.skip(1), index, true, float),
                    CsvType::Float => stream_column_type(items.skip(1), index, integer, true),
                }
            },
        }
    }
}

/// Where every record can be read and reaches the column, going through the
/// records in order finds the type that the column has in the document made
/// of them.
pub proof fn lemma_stream_type_is_column_type(items: Seq<Option<Seq<Seq<char>>>>, index: int)
    requires
        readable(items),
        0 <= index,
        forall|i: int| 0 <= i < items.len() ==> index < (#[trigger] items[i]).unwrap().len(),
    ensures
        stream_column_type(items, index, false, false) == Some(
            column_type(unwrapped(items), index),
        ),
{
    lemma_stream_type(items, index, false, false);
}

proof fn lemma_stream_type(
    items: Seq<Option<Seq<Seq<char>>>>,
    index: int,
    integer: bool,
    float: bool,
)
    requires
        readable(items),
        0 <= index,
        forall|i: int| 0 <= i < items.len() ==> index < (#[trigger] items[i]).unwrap().len(),
    ensures
        stream_column_type(items, index, integer, float) == Some(
            if observed(unwrapped(items), index, CsvType::String) {
                CsvType::String
            } else {
                seen_type(
                    integer || observed(unwrapped(items), index, CsvType::Integer),
                    float || observed(unwrapped(items), index, CsvType::Float),
                )
            },
        ),
    decreases items.len(),
{
    let rows = unwrapped(items);
    if items.len() == 0 {
        assert(!observed(rows, index, CsvType::String));
        assert(!observed(rows, index, CsvType::Integer));
        assert(!observed(rows, index, CsvType::Float));
    } else {
        let rest = items.skip(1);
        let rest_rows = unwrapped(rest);
        let t = cell_type(rows[0][index]);
        assert(items[0] is Some);
        assert(rows[0] == items[0].unwrap());
        assert forall|i: int| 0 <= i < rest.len() implies (#[trigger] rest[i]) is Some && index
            < rest[i].unwrap().len() by {
            assert(rest[i] == items[i + 1]);
        }
        assert forall|u: CsvType| observed(rows, index, u) == (t == u || observed(
            rest_rows,
            index,
            u,
        )) by {
            if observed(rest_rows, index, u) {
                let r = choose|r: int|
                    0 <= r < rest_rows.len() && cell_type((#[trigger] rest_rows[r])[index]) == u;
                assert(rows[r + 1] == rest_rows[r]);
            }
            if observed(rows, index, u) {
                let r = choose|r: int|
                    0 <= r < rows.len() && cell_type((#[trigger] rows[r])[index]) == u;
                if r > 0 {
                    assert(rest_rows[r - 1] == rows[r]);
                }
            }
        }
        assert(observed(rows, index, CsvType::String) == (t == CsvType::String || observed(
            rest_rows,
            index,
            CsvType::String,
        )));
        assert(observed(rows, index, CsvType::Integer) == (t == CsvType::Integer || observed(
            rest_rows,
            index,
            CsvType::Integer,
        )));
        assert(observed(rows, index, CsvType::Float) == (t == CsvType::Float || observed(
            rest_rows,
            index,
            CsvType::Float,
        )));
        match t {
            CsvType::String => {},
            CsvType::Integer => {
                lemma_stream_type(rest, index, true, float);
            },
            CsvType::Float => {
                lemma_stream_type(rest, index, integer, true);
            },
        }
    }
}

/// How many of `items` are read to find the type of column `index`: all
/// of them up to and with the first that settles it, which is the first
/// that holds a text cell, cannot be read or does not reach the column;
/// and all of them where none does.
pub open spec fn stream_column_read(items: Seq<Option<Seq<Seq<char>>>>, index: int) -> nat
    decreases items.len(),
{
    if items.len() == 0 {
        0
    } else {
        match items[0] {
            None => 1,
            Some(record) => if index >= record.len() {
                1
            } else if cell_type(record[index]) == CsvType::String {
                1
            } else {
                1 + stream_column_read(items.skip(1), index)
            },
        }
    }
}

/// No more records are read than there are.
pub proof fn lemma_stream_column_read(items: Seq<Option<Seq<Seq<char>>>>, index: int)
    ensures
        stream_column_read(items, index) <= items.len(),
    decreases items.len(),
{
    if items.len() > 0 {
        lemma_stream_column_read(items.skip(1), index);
    }
}

/// The type of column `index` over the records that the stream has still
/// to yield, read one by one. Reading stops at the first text cell: the
/// records after it are left to be yielded. It fails at a record that
/// cannot be read or that does not reach the column.
pub fn get_type_of_column_stream(csv: &mut CsvStream, index: usize) -> (r: Result<
    CsvType,
    QsvError,
>)
    ensures
        final(csv).same_text(old(csv)),
        final(csv).pending() == old(csv).pending().skip(
            stream_column_read(old(csv).pending(), index as int) as int,
        ),
        match r {
            Ok(t) => stream_column_type(old(csv).pending(), index as int, false, false) == Some(t),
            Err(e) => e is CsvFormat && stream_column_type(
                old(csv).pending(),
                index as int,
                false,
                false,
            ) is None,
        },
{
    let mut integer = false;
    let mut float = false;
    let ghost mut k: int = 0;
    assert(csv.pending().skip(0) =~= csv.pending());
    loop
        invariant
            csv.same_text(old(csv)),
            0 <= k <= old(csv).pending().len(),
            csv.pending() == old(csv).pending().skip(k),
            stream_column_read(old(csv).pending(), index as int) == k + stream_column_read(
                csv.pending(),
                index as int,
            ),
            stream_column_type(old(csv).pending(), index as int, false, false)
                == stream_column_type(csv.pending(), index as int, integer, float),
        decreases csv.pending().len(),
    {
        let ghost before = csv.pending();
        proof {
            if before.len() > 0 {
                assert(before.skip(1) =~= old(csv).pending().skip(k + 1));
            }
        }
        match csv.next() {
            None => {
                return Ok(seen_type_of(integer, float));
            },
            Some(Err(error)) => {
                return Err(error);
            },
            Some(Ok(record)) => {
                if index >= record.len() {
                    return Err(
                        QsvError::CsvFormat(
                            String::from_str("found a record that is narrower than the header"),
                        ),
                    );
                }
                match parse(record[index].as_str()).get_type() {
                    CsvType::String => {
                        return Ok(CsvType::String);
                    },
                    CsvType::Integer => {
                        integer = true;
                    },
                    CsvType::Float => {
                        float = true;
                    },
                }
                proof {
                    k = k + 1;
                }
            },
        }
    }
}

fn seen_type_of(integer: bool, float: bool) -> (t: CsvType)
    ensures
        t == seen_type(integer, float),
{
    if float {
        CsvType::Float
    } else if integer {
        CsvType::Integer
    } else {
        CsvType::String
    }
}

/// Index of the last occurrence of `name` in `names`, or `-1`.
pub open spec fn last_index(names: Seq<Seq<char>>, name: Seq<char>) -> int
    decreases names.len(),
{
    if names.len() == 0 {
        -1
    } else if names.last() == name {
        names.len() - 1
    } else {
        last_index(names.drop_last(), name)
    }
}

/// The names of `names` in the order of their first occurrence, each once.
pub open spec fn distinct(names: Seq<Seq<char>>) -> Seq<Seq<char>>
    decreases names.len(),
{
    if names.len() == 0 {
        Seq::empty()
    } else if distinct(names.drop_last()).contains(names.last()) {
        distinct(names.drop_last())
    } else {
        distinct(names.drop_last()).push(names.last())
    }
}

/// The last occurrence of a name is an occurrence of it, with none after
/// it; and there is one exactly if the name occurs at all.
pub proof fn lemma_last_index(names: Seq<Seq<char>>, name: Seq<char>)
    ensures
        names.contains(name) <==> last_index(names, name) >= 0,
        -1 <= last_index(names, name) < names.len(),
        last_index(names, name) >= 0 ==> names[last_index(names, name)] == name,
        forall|j: int| last_index(names, name) < j < names.len() ==> names[j] != name,
    decreases names.len(),
{
    if names.len() > 0 {
        let front = names.drop_last();
        lemma_last_index(front, name);
        if names.last() != name {
            if front.contains(name) {
                let i = choose|i: int| 0 <= i < front.len() && front[i] == name;
                assert(names[i] == name);
            }
            if names.contains(name) {
                let i = choose|i: int| 0 <= i < names.len() && names[i] == name;
                assert(front[i] == name);
            }
            assert(last_index(names, name) >= 0 ==> front[last_index(names, name)] == name);
            assert forall|j: int| last_index(names, name) < j < names.len() implies names[j]
                != name by {
                if j < front.len() {
                    assert(front[j] == names[j]);
                }
            }
        } else {
            assert(names[names.len() - 1] == name);
        }
    }
}

/// The inferred types of the columns of one file, and the place of each
/// column, both by column name.
#[derive(Debug)]
pub struct ColumnInference {
    pub columns_to_types: StringMap<CsvType>,
    pub columns_to_indexes: StringMap<usize>,
}

impl ColumnInference {
    /// Both maps are well formed and hold the same names in the same order.
    pub open spec fn wf(&self) -> bool {
        &&& self.columns_to_types.wf()
        &&& self.columns_to_indexes.wf()
        &&& self.columns_to_types.keys() == self.columns_to_indexes.keys()
    }

    /// The inferred type of the column called `name`, if there is one.
    pub open spec fn type_of(&self, name: Seq<char>) -> Option<CsvType> {
        if self.columns_to_types@.contains_key(name) {
            Some(self.columns_to_types@[name])
        } else {
            None
        }
    }

    /// The place of the column called `name`, if there is one.
    pub open spec fn index_of(&self, name: Seq<char>) -> Option<int> {
        if self.columns_to_indexes@.contains_key(name) {
            Some(self.columns_to_indexes@[name] as int)
        } else {
            None
        }
    }

    /// The inference holds exactly the columns called `names`, each name
    /// with the place of its last occurrence and with the type that `types`
    /// gives for that place, in the order in which the names first occur.
    pub open spec fn describes(&self, names: Seq<Seq<char>>, types: spec_fn(int) -> CsvType) -> bool {
        &&& self.wf()
        &&& self.columns_to_types.keys() == distinct(names)
        &&& forall|name: Seq<char>|
            names.contains(name) ==> #[trigger] self.type_of(name) == Some(
                types(last_index(names, name)),
            )
        &&& forall|name: Seq<char>|
            names.contains(name) ==> #[trigger] self.index_of(name) == Some(
                last_index(names, name),
            )
        &&& forall|name: Seq<char>| !names.contains(name) ==> #[trigger] self.type_of(name) is None
        &&& forall|name: Seq<char>|
            !names.contains(name) ==> #[trigger] self.index_of(name) is None
    }

    /// Pairs each header with its place and with the type given for it.
    fn build(headers: &Vec<String>, types: &Vec<CsvType>) -> (r: ColumnInference)
        requires
            types@.len() == headers@.len(),
        ensures
            r.describes(views(headers@), |i: int| types@[i]),
    {
        let ghost names = views(headers@);
        let ghost given = |i: int| types@[i];
        let mut columns_to_types: StringMap<CsvType> = StringMap::new();
        let mut columns_to_indexes: StringMap<usize> = StringMap::new();
        let mut i: usize = 0;
        assert(names.take(0) =~= Seq::<Seq<char>>::empty());
        while i < headers.len()
            invariant
                i <= headers.len(),
                types@.len() == headers@.len(),
                names == views(headers@),
                given == (|i: int| types@[i]),
                (ColumnInference { columns_to_types, columns_to_indexes }).describes(
                    names.take(i as int),
                    given,
                ),
            decreases headers.len() - i,
        {
            let ghost before = ColumnInference { columns_to_types, columns_to_indexes };
            let ghost prefix = names.take(i as int);
            let ghost next = names.take(i as int + 1);
            let ghost name = names[i as int];
            proof {
                before.columns_to_types.lemma_entries();
                before.columns_to_indexes.lemma_entries();
                assert(next.drop_last() =~= prefix);
                assert(next.last() == name);
                lemma_last_index(prefix, name);
                assert(before.type_of(name) is Some <==> prefix.contains(name));
                assert(before.index_of(name) is Some <==> prefix.contains(name));
            }
            columns_to_types.insert(headers[i].clone(), types[i]);
            columns_to_indexes.insert(headers[i].clone(), i);
            proof {
                let after = ColumnInference { columns_to_types, columns_to_indexes };
                assert forall|other: Seq<char>| next.contains(other) == (prefix.contains(other)
                    || other == name) by {
                    if prefix.contains(other) {
                        let j = choose|j: int| 0 <= j < prefix.len() && prefix[j] == other;
                        assert(next[j] == other);
                    }
                    if other == name {
                        assert(next[i as int] == other);
                    }
                    if next.contains(other) {
                        let j = choose|j: int| 0 <= j < next.len() && next[j] == other;
                        if j < i {
                            assert(prefix[j] == other);
                        }
                    }
                }
                assert forall|other: Seq<char>| next.contains(other) implies #[trigger]
                    after.type_of(other) == Some(given(last_index(next, other))) by {
                    if other != name {
                        assert(prefix.contains(other));
                        assert(before.type_of(other) == Some(given(last_index(prefix, other))));
                    }
                }
                assert forall|other: Seq<char>| next.contains(other) implies #[trigger]
                    after.index_of(other) == Some(last_index(next, other)) by {
                    if other != name {
                        assert(prefix.contains(other));
                        assert(before.index_of(other) == Some(last_index(prefix, other)));
                    }
                }
                assert forall|other: Seq<char>| !next.contains(other) implies #[trigger]
                    after.type_of(other) is None by {
                    assert(!prefix.contains(other));
                    assert(before.type_of(other) is None);
                }
                assert forall|other: Seq<char>| !next.contains(other) implies #[trigger]
                    after.index_of(other) is None by {
                    assert(!prefix.contains(other));
                    assert(before.index_of(other) is None);
                }
            }
            i += 1;
        }
        assert(names.take(headers.len() as int) =~= names);
        ColumnInference { columns_to_types, columns_to_indexes }
    }

    /// Infers the type of every column of a document from its cells.
    pub fn from_csv(csv: &CsvData) -> (r: ColumnInference)
        requires
            csv.wf(),
        ensures
            r.describes(csv.names(), |i: int| column_type(csv.rows(), i)),
    {
        let mut types: Vec<CsvType> = Vec::new();
        let mut i: usize = 0;
        while i < csv.headers.len()
            invariant
                i <= csv.headers.len(),
                csv.wf(),
                types@.len() == i,
                forall|j: int| 0 <= j < i ==> #[trigger] types@[j] == column_type(csv.rows(), j),
            decreases csv.headers.len() - i,
        {
            let t = get_type_of_column(&csv.records, i);
            types.push(t);
            i += 1;
        }
        let r = ColumnInference::build(&csv.headers, &types);
        proof {
            let names = csv.names();
            assert forall|name: Seq<char>| names.contains(name) implies #[trigger] r.type_of(name)
                == Some(column_type(csv.rows(), last_index(names, name))) by {
                lemma_last_index(names, name);
            }
        }
        r
    }

    /// Infers the type of every column of a stream, reading the stream once
    /// from its first data record for each column. It fails where, for
    /// some column, a record that is read before the type is settled cannot
    /// be read as text or does not reach the column.
    pub fn from_stream(csv: &mut CsvStream) -> (r: Result<ColumnInference, QsvError>)
        ensures
            final(csv).same_text(old(csv)),
            match r {
                Ok(inference) => {
                    &&& forall|i: int|
                        0 <= i < old(csv).names().len() ==> (#[trigger] stream_column_type(
                            old(csv).rows(),
                            i,
                            false,
                            false,
                        )) is Some
                    &&& inference.describes(
                        old(csv).names(),
                        |i: int| stream_column_type(old(csv).rows(), i, false, false).unwrap(),
                    )
                },
                Err(e) => e is CsvFormat && exists|i: int|
                    0 <= i < old(csv).names().len() && (#[trigger] stream_column_type(
                        old(csv).rows(),
                        i,
                        false,
                        false,
                    )) is None,
            },
    {
        let mut types: Vec<CsvType> = Vec::new();
        let mut i: usize = 0;
        while i < csv.headers.len()
            invariant
                csv.same_text(old(csv)),
                i <= csv.headers.len(),
                types@.len() == i,
                forall|j: int|
                    0 <= j < i ==> (#[trigger] stream_column_type(old(csv).rows(), j, false, false))
                        == Some(types@[j]),
            decreases csv.headers.len() - i,
        {
            match reset_stream(csv) {
                Ok(()) => {},
                Err(error) => {
                    return Err(error);
                },
            }
            match get_type_of_column_stream(csv, i) {
                Ok(t) => {
                    types.push(t);
                },
                Err(error) => {
                    assert(stream_column_type(old(csv).rows(), i as int, false, false) is None);
                    return Err(error);
                },
            }
            i += 1;
        }
        let r = ColumnInference::build(&csv.headers, &types);
        proof {
            let names = old(csv).names();
            let given = |i: int| stream_column_type(old(csv).rows(), i, false, false).unwrap();
            assert forall|name: Seq<char>| names.contains(name) implies #[trigger] r.type_of(name)
                == Some(given(last_index(names, name))) by {
                lemma_last_index(names, name);
                assert(stream_column_type(
                    old(csv).rows(),
                    last_index(names, name),
                    false,
                    false,
                ) == Some(types@[last_index(names, name)]));
            }
        }
        Ok(r)
    }

    /// Takes every column to be text, whatever its cells hold.
    pub fn default_inference(headers: &Vec<String>) -> (r: ColumnInference)
        ensures
            r.describes(views(headers@), |i: int| CsvType::String),
    {
        let mut types: Vec<CsvType> = Vec::new();
        let mut i: usize = 0;
        while i < headers.len()
            invariant
                i <= headers.len(),
                types@.len() == i,
                forall|j: int| 0 <= j < i ==> #[trigger] types@[j] == CsvType::String,
            decreases headers.len() - i,
        {
            types.push(CsvType::String);
            i += 1;
        }
        let r = ColumnInference::build(headers, &types);
        proof {
            let names = views(headers@);
            assert forall|name: Seq<char>| names.contains(name) implies #[trigger] r.type_of(name)
                == Some(CsvType::String) by {
                lemma_last_index(names, name);
            }
        }
        r
    }

    /// The inferred type of the column called `s`.
    pub fn get_type(&self, s: String) -> (r: Option<&CsvType>)
        ensures
            match r {
                Some(t) => self.type_of(s@) == Some(*t),
                None => self.type_of(s@) is None,
            },
    {
        self.columns_to_types.get(s.as_str())
    }

    /// The place of the column called `name`.
    pub fn get_index(&self, name: &str) -> (r: Option<usize>)
        ensures
            match r {
                Some(i) => self.index_of(name@) == Some(i as int),
                None => self.index_of(name@) is None,
            },
    {
        match self.columns_to_indexes.get(name) {
            Some(i) => Some(*i),
            None => None,
        }
    }
}

/// For every document and every column whose name does not occur again
/// further right, the inference made from the document gives that column its
/// own place and the least upper bound of the types of its cells, or text
/// where the document has no record.
pub proof fn lemma_inferred_type_is_join(
    inference: ColumnInference,
    names: Seq<Seq<char>>,
    rows: Seq<Seq<Seq<char>>>,
    i: int,
)
    requires
        inference.describes(names, |j: int| column_type(rows, j)),
        0 <= i < names.len(),
        forall|j: int| i < j < names.len() ==> names[j] != names[i],
    ensures
        inference.index_of(names[i]) == Some(i),
        inference.type_of(names[i]) == Some(
            if rows.len() == 0 {
                CsvType::String
            } else {
                join_of_cells(rows, i, rows.len())
            },
        ),
{
    lemma_last_index(names, names[i]);
    assert(names.contains(names[i]));
    let last = last_index(names, names[i]);
    assert(last == i) by {
        if last < i {
            assert(names[i] != names[i]);
        }
        if last > i {
            assert(names[last] != names[i]);
        }
    }
    lemma_column_type_is_join(rows, i);
}

/// The line that reports the type of a column: its name, an arrow, and the
/// name of the type.
pub open spec fn inference_line(name: Seq<char>, t: CsvType) -> Seq<char> {
    name + " -> "@ + t.name_spec() + "\n"@
}

/// The lines that report the types of columns, each after `indent`.
pub open spec fn inference_lines(names: Seq<Seq<char>>, types: Seq<CsvType>, indent: Seq<char>) -> Seq<
    char,
>
    decreases names.len(),
{
    if names.len() == 0 {
        Seq::empty()
    } else {
        inference_lines(names.drop_last(), types.drop_last(), indent) + indent + inference_line(
            names.last(),
            types.last(),
        )
    }
}

/// The report of the files of a query: for each file its identifier and a
/// colon on a line, then a line for each of its columns after a tab.
pub open spec fn inferences_text(identifiers: Seq<Seq<char>>, inferences: Seq<ColumnInference>) -> Seq<
    char,
>
    decreases identifiers.len(),
{
    if identifiers.len() == 0 {
        Seq::empty()
    } else {
        inferences_text(identifiers.drop_last(), inferences.drop_last()) + identifiers.last()
            + ":\n"@ + inference_lines(
            inferences.last().columns_to_types.keys(),
            inferences.last().columns_to_types.values(),
            "\t"@,
        )
    }
}

impl ColumnInference {
    /// A line for each column, in the order of the columns, that gives
    /// after `indent` the name of the column and the name of its type.
    pub fn describe(&self, indent: &str) -> (text: String)
        ensures
            text@ == inference_lines(
                self.columns_to_types.keys(),
                self.columns_to_types.values(),
                indent@,
            ),
    {
        let ghost names = self.columns_to_types.keys();
        let ghost types = self.columns_to_types.values();
        let mut text = String::new();
        let mut i: usize = 0;
        assert(names.take(0) =~= Seq::<Seq<char>>::empty());
        while i < self.columns_to_types.len()
            invariant
                i <= names.len(),
                names == self.columns_to_types.keys(),
                types == self.columns_to_types.values(),
                text@ == inference_lines(names.take(i as int), types.take(i as int), indent@),
            decreases names.len() - i,
        {
            let t = self.columns_to_types.value_at(i);
            text.append(indent);
            text.append(self.columns_to_types.key_at(i).as_str());
            text.append(" -> ");
            text.append(t.name());
            text.append("\n");
            proof {
                assert(names.take(i as int + 1).drop_last() =~= names.take(i as int));
                assert(types.take(i as int + 1).drop_last() =~= types.take(i as int));
                assert(names.take(i as int + 1).last() == names[i as int]);
                assert(types.take(i as int + 1).last() == types[i as int]);
                assert(text@ =~= inference_lines(
                    names.take(i as int + 1),
                    types.take(i as int + 1),
                    indent@,
                ));
            }
            i += 1;
        }
        proof {
            self.columns_to_types.lemma_lengths();
            assert(names.take(names.len() as int) =~= names);
            assert(types.take(names.len() as int) =~= types);
        }
        text
    }
}

/// The inferences made for the files of one query, by identifier.
#[derive(Debug)]
pub struct ColumnInferences {
    hashmap: StringMap<ColumnInference>,
}

impl ColumnInferences {
    /// The inferences, by identifier.
    pub closed spec fn view(&self) -> Map<Seq<char>, ColumnInference> {
        self.hashmap@
    }

    /// The identifiers, in the order in which they first came in.
    pub closed spec fn identifiers(&self) -> Seq<Seq<char>> {
        self.hashmap.keys()
    }

    /// The inferences, each at the place of its identifier.
    pub closed spec fn inferences(&self) -> Seq<ColumnInference> {
        self.hashmap.values()
    }

    /// No identifier occurs twice.
    pub closed spec fn wf(&self) -> bool {
        self.hashmap.wf()
    }

    /// Every identifier has its inference at its own place, and the
    /// identifiers are those that an inference is held for.
    pub proof fn lemma_inferences(&self)
        requires
            self.wf(),
        ensures
            self.identifiers().len() == self.inferences().len(),
            self.identifiers().no_duplicates(),
            forall|i: int|
                0 <= i < self.identifiers().len() ==> self@.contains_key(
                    #[trigger] self.identifiers()[i],
                ) && self@[self.identifiers()[i]] == self.inferences()[i],
            forall|k: Seq<char>| self@.contains_key(k) <==> self.identifiers().contains(k),
    {
        self.hashmap.lemma_entries();
    }

    /// The inferences held by `hashmap`, as they are.
    pub fn new(hashmap: StringMap<ColumnInference>) -> (r: ColumnInferences)
        ensures
            r@ == hashmap@,
            r.identifiers() == hashmap.keys(),
            r.inferences() == hashmap.values(),
            r.wf() == hashmap.wf(),
    {
        ColumnInferences { hashmap }
    }

    /// The inference made for `identifier`, if one was made.
    pub fn get(&self, identifier: &str) -> (r: Option<&ColumnInference>)
        ensures
            match r {
                Some(i) => self@.contains_key(identifier@) && *i == self@[identifier@],
                None => !self@.contains_key(identifier@),
            },
    {
        self.hashmap.get(identifier)
    }

    /// The report of the inferences: for each file its identifier and a
    /// colon on a line, then a line for each of its columns after a tab.
    pub fn describe(&self) -> (text: String)
        ensures
            text@ == inferences_text(self.identifiers(), self.inferences()),
    {
        let ghost identifiers = self.hashmap.keys();
        let ghost inferences = self.hashmap.values();
        let mut text = String::new();
        let mut i: usize = 0;
        assert(identifiers.take(0) =~= Seq::<Seq<char>>::empty());
        while i < self.hashmap.len()
            invariant
                i <= identifiers.len(),
                identifiers == self.hashmap.keys(),
                inferences == self.hashmap.values(),
                text@ == inferences_text(identifiers.take(i as int), inferences.take(i as int)),
            decreases identifiers.len() - i,
        {
            let inference = self.hashmap.value_at(i);
            text.append(self.hashmap.key_at(i).as_str());
            text.append(":\n");
            text.append(inference.describe("\t").as_str());
            proof {
                assert(identifiers.take(i as int + 1).drop_last() =~= identifiers.take(i as int));
                assert(inferences.take(i as int + 1).drop_last() =~= inferences.take(i as int));
                assert(identifiers.take(i as int + 1).last() == identifiers[i as int]);
                assert(inferences.take(i as int + 1).last() == inferences[i as int]);
                assert(text@ =~= inferences_text(
                    identifiers.take(i as int + 1),
                    inferences.take(i as int + 1),
                ));
            }
            i += 1;
        }
        proof {
            self.hashmap.lemma_lengths();
            assert(identifiers.take(identifiers.len() as int) =~= identifiers);
            assert(inferences.take(identifiers.len() as int) =~= inferences);
        }
        text
    }

    /// The map that holds the inferences.
    pub fn tables(&self) -> (r: &StringMap<ColumnInference>)
        ensures
            r@ == self@,
            r.keys() == self.identifiers(),
            r.values() == self.inferences(),
            r.wf() == self.wf(),
    {
        &self.hashmap
    }
}

} // verus!
