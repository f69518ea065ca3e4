//! The relational store that files are loaded into: an in-memory SQLite
//! database, reached through `rusqlite`.

use crate::db::utils::{create_table_sql, insert_sql, MAX_VARS};
use crate::error::QsvError;
use crate::text::{decimal, i64_to_string};
use rusqlite::types::ValueRef;
use rusqlite::Connection;
use vstd::prelude::*;
use vstd::string::StringExecFns;
use vstd::utf8::{decode_utf8, valid_utf8};

pub mod functions;
pub mod utils;

verus! {

/// `rusqlite::Connection`: a connection to a database, of which nothing is
/// known here.
#[verifier::external_type_specification]
#[verifier::external_body]
pub struct ExConnection(Connection);

/// `rusqlite::Error`: an error of the engine, of which nothing is known
/// here.
#[verifier::external_type_specification]
#[verifier::external_body]
pub struct ExEngineError(rusqlite::Error);

/// The names of the columns of a result.
pub type Header = Vec<String>;

/// The records of a result, every value as text.
pub type Rows = Vec<Vec<String>>;

/// One value of a result, as the engine holds it. A real number is kept as
/// the text that stands for it, text and blobs by their bytes.
#[derive(Debug, PartialEq, Eq)]
pub enum SqlValue {
    Null,
    Integer(i64),
    Real(String),
    Text(Vec<u8>),
    Blob(Vec<u8>),
}

/// The text that `String::from_utf8_lossy` makes of `bytes`.
pub uninterp spec fn utf8_lossy(bytes: Seq<u8>) -> Seq<char>;

/// `String::from_utf8_lossy`: the text that `bytes` encode in UTF-8, with
/// the replacement character for what is no UTF-8. Bytes that are UTF-8
/// throughout give the text they encode.
#[verifier::external_body]
fn lossy_text(bytes: &[u8]) -> (text: String)
    ensures
        text@ == utf8_lossy(bytes@),
        valid_utf8(bytes@) ==> text@ == decode_utf8(bytes@),
{
    String::from_utf8_lossy(bytes).into_owned()
}

/// The text that `bytes` are reported as: the text they encode where they
/// are UTF-8 throughout, else what the lossy decoding makes of them.
pub open spec fn decoded(bytes: Seq<u8>) -> Seq<char> {
    if valid_utf8(bytes) {
        decode_utf8(bytes)
    } else {
        utf8_lossy(bytes)
    }
}

/// The text that a value is reported as: `null` for the null value, the
/// decimal digits of an integer, the text that stands for a real number,
/// and the text that the bytes of a text or of a blob encode.
pub open spec fn rendered(value: SqlValue) -> Seq<char> {
    match value {
        SqlValue::Null => "null"@,
        SqlValue::Integer(i) => decimal(i as int),
        SqlValue::Real(text) => text@,
        SqlValue::Text(bytes) => decoded(bytes@),
        SqlValue::Blob(bytes) => decoded(bytes@),
    }
}

/// The text that a value is reported as.
pub fn render(value: &SqlValue) -> (r: String)
    ensures
        r@ == rendered(*value),
{
    match value {
        SqlValue::Null => String::from_str("null"),
        SqlValue::Integer(i) => i64_to_string(*i),
        SqlValue::Real(text) => text.clone(),
        SqlValue::Text(bytes) => lossy_text(bytes.as_slice()),
        SqlValue::Blob(bytes) => lossy_text(bytes.as_slice()),
    }
}

/// Every value of a record, as text.
pub fn render_row(row: &Vec<SqlValue>) -> (r: Vec<String>)
    ensures
        r@.len() == row@.len(),
        forall|i: int| 0 <= i < row@.len() ==> (#[trigger] r@[i])@ == rendered(row@[i]),
{
    let mut out: Vec<String> = Vec::new();
    let mut i: usize = 0;
    while i < row.len()
        invariant
            i <= row.len(),
            out@.len() == i,
            forall|j: int| 0 <= j < i ==> (#[trigger] out@[j])@ == rendered(row@[j]),
        decreases row.len() - i,
    {
        out.push(render(&row[i]));
        i += 1;
    }
    out
}

/// Every record of a result, every value as text.
pub fn render_rows(rows: &Vec<Vec<SqlValue>>) -> (r: Rows)
    ensures
        r@.len() == rows@.len(),
        forall|i: int|
            0 <= i < rows@.len() ==> (#[trigger] r@[i])@.len() == rows@[i]@.len() && forall|j: int|
                0 <= j < rows@[i]@.len() ==> (#[trigger] r@[i]@[j])@ == rendered(rows@[i]@[j]),
{
    let mut out: Vec<Vec<String>> = Vec::new();
    let mut i: usize = 0;
    while i < rows.len()
        invariant
            i <= rows.len(),
            out@.len() == i,
            forall|k: int|
                0 <= k < i ==> (#[trigger] out@[k])@.len() == rows@[k]@.len() && forall|j: int|
                    0 <= j < rows@[k]@.len() ==> (#[trigger] out@[k]@[j])@ == rendered(
                        rows@[k]@[j],
                    ),
        decreases rows.len() - i,
    {
        out.push(render_row(&rows[i]));
        i += 1;
    }
    out
}

/// `rusqlite::Connection::open_in_memory`.
#[verifier::external_body]
fn open_connection() -> (r: Result<Connection, rusqlite::Error>) {
    Connection::open_in_memory()
}

/// `rusqlite::Connection::pragma_update` with a text value.
#[verifier::external_body]
fn set_pragma_text(connection: &Connection, name: &str, value: &str) -> (r: Result<
    (),
    rusqlite::Error,
>) {
    connection.pragma_update(None, name, &value)
}

/// `rusqlite::Connection::pragma_update` with an integer value.
#[verifier::external_body]
fn set_pragma_number(connection: &Connection, name: &str, value: i64) -> (r: Result<
    (),
    rusqlite::Error,
>) {
    connection.pragma_update(None, name, &value)
}

/// `rusqlite::Connection::execute` without parameters: the number of
/// records that the statement changed.
#[verifier::external_body]
fn execute(connection: &Connection, sql: &str) -> (r: Result<usize, rusqlite::Error>) {
    connection.execute(sql, [])
}

/// `rusqlite::Connection::execute_batch`.
#[verifier::external_body]
fn execute_batch(connection: &Connection, sql: &str) -> (r: Result<(), rusqlite::Error>) {
    connection.execute_batch(sql)
}

/// `rusqlite::Statement::execute` on the cached statement for `sql`, with
/// `values` bound to its placeholders in order.
#[verifier::external_body]
fn execute_with(connection: &Connection, sql: &str, values: &Vec<String>) -> (r: Result<
    usize,
    rusqlite::Error,
>) {
    connection.prepare_cached(sql)?.execute(rusqlite::params_from_iter(values))
}

/// `rusqlite::Statement::column_names` of the cached statement for `sql`.
/// It panics on a column name that is not UTF-8, which a statement given
/// as a string cannot have.
#[verifier::external_body]
fn column_names(connection: &Connection, sql: &str) -> (r: Result<Vec<String>, rusqlite::Error>) {
    let statement = connection.prepare_cached(sql)?;
    Ok(statement.column_names().into_iter().map(String::from).collect())
}

/// `rusqlite::Statement::query_map` on the cached statement for `sql`:
/// every record of the result, each value by its kind, a real number as
/// the text that `to_string` gives for it. It says nothing of which
/// records come back.
#[verifier::external_body]
fn query_rows(connection: &Connection, sql: &str) -> (r: Result<
    Vec<Vec<SqlValue>>,
    rusqlite::Error,
>) {
    let mut statement = connection.prepare_cached(sql)?;
    let width = statement.column_count();
    let rows = statement.query_map([], |row| {
        (0..width).map(|i| Ok(match row.get_ref(i)? {
            ValueRef::Null => SqlValue::Null,
            ValueRef::Integer(v) => SqlValue::Integer(v),
            ValueRef::Real(v) => SqlValue::Real(v.to_string()),
            ValueRef::Text(v) => SqlValue::Text(v.to_vec()),
            ValueRef::Blob(v) => SqlValue::Blob(v.to_vec()),
        })).collect()
    })?;
    rows.collect()
}

/// `rusqlite::Error`'s own description of itself.
#[verifier::external_body]
fn engine_message(error: &rusqlite::Error) -> (message: String) {
    error.to_string()
}

fn engine_error(error: &rusqlite::Error) -> (e: QsvError)
    ensures
        e is Engine,
{
    QsvError::Engine(engine_message(error))
}

/// There is at least one field and no more than a statement can carry, and
/// every record has one value for each field.
pub open spec fn insertable(fields: Seq<String>, values: Seq<Vec<String>>) -> bool {
    &&& 0 < fields.len() <= MAX_VARS
    &&& forall|j: int| 0 <= j < values.len() ==> (#[trigger] values[j])@.len() == fields.len()
}

/// The value that a setting of the engine is given.
#[derive(Debug, PartialEq, Eq)]
pub enum SettingValue {
    Text(String),
    Number(i64),
}

/// The value of a setting, as a value.
pub enum SettingModel {
    Text(Seq<char>),
    Number(int),
}

/// A setting as a value: its name and what it is set to.
pub open spec fn setting_view(setting: (String, SettingValue)) -> (Seq<char>, SettingModel) {
    (
        setting.0@,
        match setting.1 {
            SettingValue::Text(text) => SettingModel::Text(text@),
            SettingValue::Number(n) => SettingModel::Number(n as int),
        },
    )
}

/// The settings as values, in order.
pub open spec fn setting_views(settings: Seq<(String, SettingValue)>) -> Seq<
    (Seq<char>, SettingModel),
> {
    settings.map_values(|setting: (String, SettingValue)| setting_view(setting))
}

/// The settings that a store is opened with, in the order in which they
/// are made: no memory mapping, no journal, no syncing, a cache of 16000
/// KiB, reads of uncommitted data, no automatic checkpoints, eight helper
/// threads.
pub open spec fn store_settings() -> Seq<(Seq<char>, SettingModel)> {
    seq![
        ("mmap_size"@, SettingModel::Number(0)),
        ("journal_mode"@, SettingModel::Text("off"@)),
        ("synchronous"@, SettingModel::Text("off"@)),
        ("cache_size"@, SettingModel::Number(-16000)),
        ("read_uncommitted"@, SettingModel::Text("true"@)),
        ("wal_autocheckpoint"@, SettingModel::Number(0)),
        ("threads"@, SettingModel::Number(8)),
    ]
}

/// The settings that a store is opened with, in the order in which they
/// are made.
pub fn settings() -> (r: Vec<(String, SettingValue)>)
    ensures
        setting_views(r@) == store_settings(),
{
    let mut all: Vec<(String, SettingValue)> = Vec::new();
    all.push((String::from_str("mmap_size"), SettingValue::Number(0)));
    all.push((String::from_str("journal_mode"), SettingValue::Text(String::from_str("off"))));
    all.push((String::from_str("synchronous"), SettingValue::Text(String::from_str("off"))));
    all.push((String::from_str("cache_size"), SettingValue::Number(-16000)));
    all.push(
        (String::from_str("read_uncommitted"), SettingValue::Text(String::from_str("true"))),
    );
    all.push((String::from_str("wal_autocheckpoint"), SettingValue::Number(0)));
    all.push((String::from_str("threads"), SettingValue::Number(8)));
    assert(setting_views(all@) =~= store_settings());
    all
}

/// The steps that frame a batch of insertions.
#[derive(Debug, Clone, Copy, PartialEq, Eq, Structural)]
pub enum TransactionStep {
    /// The batch begins.
    Begin,
    /// The batch ends and is kept.
    End,
    /// The batch is given up.
    Rollback,
}

/// The statement that the engine is given for a step of a transaction.
pub open spec fn transaction_statement(step: TransactionStep) -> Seq<char> {
    match step {
        TransactionStep::Begin => "BEGIN TRANSACTION"@,
        TransactionStep::End => "END TRANSACTION"@,
        TransactionStep::Rollback => "ROLLBACK TRANSACTION"@,
    }
}

/// The statement that the engine is given for a step of a transaction.
pub fn transaction_sql(step: TransactionStep) -> (sql: &'static str)
    ensures
        sql@ == transaction_statement(step),
{
    match step {
        TransactionStep::Begin => "BEGIN TRANSACTION",
        TransactionStep::End => "END TRANSACTION",
        TransactionStep::Rollback => "ROLLBACK TRANSACTION",
    }
}

/// An in-memory relational store.
pub struct Db {
    pub connection: Connection,
}

impl Db {
    /// Opens a store in memory and sets it up for speed, not for
    /// durability: the engine is handed each of `settings()`, in order. It
    /// fails where the engine refuses to open or refuses a setting.
    ///
    /// No function is registered with the store. `md5`, `sqrt`, `stddev`
    /// and `mean` are registered by the caller on `connection`; what they
    /// decide without floating point is in `functions`.
    pub fn open_in_memory() -> (r: Result<Db, QsvError>)
        ensures
            r is Err ==> r->Err_0 is Engine,
    {
        let connection = match open_connection() {
            Ok(connection) => connection,
            Err(error) => {
                return Err(engine_error(&error));
            },
        };
        let all = settings();
        let mut i: usize = 0;
        while i < all.len()
            invariant
                i <= all.len(),
            decreases all.len() - i,
        {
            let made = match &all[i].1 {
                SettingValue::Text(text) => set_pragma_text(
                    &connection,
                    all[i].0.as_str(),
                    text.as_str(),
                ),
                SettingValue::Number(n) => set_pragma_number(&connection, all[i].0.as_str(), *n),
            };
            match made {
                Ok(()) => {},
                Err(error) => {
                    return Err(engine_error(&error));
                },
            }
            i += 1;
        }
        Ok(Db { connection })
    }

    /// Creates the table `table_name` with the given column definitions.
    /// The statement run is `create_table_statement`; it fails where the
    /// engine refuses it.
    pub fn create_table(&mut self, table_name: &str, fields: &Vec<String>) -> (r: Result<
        usize,
        QsvError,
    >)
        ensures
            r is Err ==> r->Err_0 is Engine,
    {
        let sql = create_table_sql(table_name, fields);
        match execute(&self.connection, sql.as_str()) {
            Ok(changed) => Ok(changed),
            Err(error) => Err(engine_error(&error)),
        }
    }

    /// Inserts `values` into the table `table_name`, one record after the
    /// other, all of them within one transaction. The statement run for
    /// each record is `insert_statement`; those that begin, end and give up
    /// the transaction are `transaction_statement`. Nothing is run where there is no
    /// field, where there are more fields than a statement can carry, or
    /// where a record has not one value for each field. Where the engine
    /// refuses a record the transaction is rolled back and the error is
    /// returned.
    pub fn insert(&mut self, table_name: &str, fields: &Vec<String>, values: &Vec<Vec<String>>) -> (r:
        Result<(), QsvError>)
        ensures
            r is Err ==> r->Err_0 is Engine,
            !insertable(fields@, values@) ==> r is Err,
    {
        if fields.len() == 0 || fields.len() > MAX_VARS {
            return Err(
                QsvError::Engine(String::from_str("a record must have between 1 and 1000 fields")),
            );
        }
        let mut checked: usize = 0;
        while checked < values.len()
            invariant
                checked <= values.len(),
                forall|j: int|
                    0 <= j < checked ==> (#[trigger] values@[j])@.len() == fields@.len(),
            decreases values.len() - checked,
        {
            if values[checked].len() != fields.len() {
                return Err(
                    QsvError::Engine(
                        String::from_str("a record must have one value for each field"),
                    ),
                );
            }
            checked += 1;
        }
        let sql = insert_sql(table_name, fields);
        match execute_batch(&self.connection, transaction_sql(TransactionStep::Begin)) {
            Ok(()) => {},
            Err(error) => {
                return Err(engine_error(&error));
            },
        }
        let mut i: usize = 0;
        while i < values.len()
            invariant
                i <= values.len(),
            decreases values.len() - i,
        {
            match execute_with(&self.connection, sql.as_str(), &values[i]) {
                Ok(_) => {},
                Err(error) => {
                    let _ = execute_batch(
                        &self.connection,
                        transaction_sql(TransactionStep::Rollback),
                    );
                    return Err(engine_error(&error));
                },
            }
            i += 1;
        }
        match execute_batch(&self.connection, transaction_sql(TransactionStep::End)) {
            Ok(()) => Ok(()),
            Err(error) => {
                let _ = execute_batch(
                        &self.connection,
                        transaction_sql(TransactionStep::Rollback),
                    );
                Err(engine_error(&error))
            },
        }
    }

    /// Runs a query and returns the names of its columns and every record
    /// of its result, each value as text.
    pub fn select_statement(&self, query: &str) -> (r: Result<(Header, Rows), QsvError>)
        ensures
            r is Err ==> r->Err_0 is Engine,
    {
        let header = match column_names(&self.connection, query) {
            Ok(header) => header,
            Err(error) => {
                return Err(engine_error(&error));
            },
        };
        match query_rows(&self.connection, query) {
            Ok(rows) => Ok((header, render_rows(&rows))),
            Err(error) => Err(engine_error(&error)),
        }
    }
}

} // verus!
