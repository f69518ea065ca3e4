use qsv::db::functions::{calculate_md5, Mean, Stddev, Step, ValueKind};
use qsv::db::utils::{create_table_sql, insert_sql, to_table_parameters};
use qsv::db::{render, settings, transaction_sql, Db, SettingValue, SqlValue, TransactionStep};
use qsv::csv::csv_data::CsvData;
use qsv::csv::inference::ColumnInference;
use qsv::error::QsvError;

fn strings(cells: &[&str]) -> Vec<String> {
    cells.iter().map(|c| c.to_string()).collect()
}

fn count(db: &Db, table: &str) -> u32 {
    db.connection
        .query_row(&format!("select count(*) from {}", table), [], |row| {
            row.get(0)
        })
        .unwrap()
}

#[test]
fn db_can_execute_a_query() {
    let db = Db::open_in_memory().unwrap();
    let result: usize = db
        .connection
        .query_row("SELECT 1 = 1", [], |row| row.get(0))
        .unwrap();
    assert_eq!(result, 1);
}

#[test]
fn mod_can_execute_a_query() {
    let db = Db::open_in_memory().unwrap();
    let result: usize = db
        .connection
        .query_row("SELECT 1 = 1", [], |row| row.get(0))
        .unwrap();
    assert_eq!(result, 1);
}

#[test]
fn can_create_table() {
    let mut db = Db::open_in_memory().unwrap();
    db.create_table("foobar", &strings(&["id integer", "name text"]))
        .unwrap();
    let result: usize = db
        .connection
        .execute(
            "insert into foobar (id, name) values (?1, ?2)",
            ["42", "bar"],
        )
        .unwrap();
    assert_eq!(result, 1);
    let pair: (usize, String) = db
        .connection
        .query_row("select id, name from foobar where id = 42", [], |row| {
            Ok((row.get(0)?, row.get(1)?))
        })
        .unwrap();
    assert_eq!(pair.0, 42);
    assert_eq!(pair.1, "bar");
}

#[test]
fn can_insert() {
    let mut db = Db::open_in_memory().unwrap();
    db.create_table("foobar", &strings(&["id integer", "name text"]))
        .unwrap();
    db.insert(
        "foobar",
        &strings(&["id", "name"]),
        &vec![strings(&["42", "bar"]), strings(&["43", "baz"])],
    )
    .unwrap();
    let pair: (usize, String) = db
        .connection
        .query_row("select id, name from foobar where id = 42", [], |row| {
            Ok((row.get(0)?, row.get(1)?))
        })
        .unwrap();
    assert_eq!(pair.0, 42);
    assert_eq!(pair.1, "bar");

    let count: u32 = db
        .connection
        .query_row(
            "select count(*) from foobar where id = 42 or id = 43",
            [],
            |row| row.get(0),
        )
        .unwrap();
    assert_eq!(count, 2);
}

#[test]
fn it_writes_the_statement_that_creates_a_table() {
    assert_eq!(
        create_table_sql("my table", &strings(&["\"id\" integer", "\"name\" text"])),
        "CREATE TABLE \"my table\" (\"id\" integer, \"name\" text)"
    );
    assert_eq!(create_table_sql("t", &vec![]), "CREATE TABLE \"t\" ()");
}

#[test]
fn it_writes_the_statement_that_inserts_a_record() {
    assert_eq!(
        insert_sql("people", &strings(&["name", "first \"pet\""])),
        "INSERT INTO \"people\" (\"name\",\"first \"\"pet\"\"\") VALUES (?,?)"
    );
    assert_eq!(
        insert_sql("t", &strings(&["a"])),
        "INSERT INTO \"t\" (\"a\") VALUES (?)"
    );
}

#[test]
fn it_defines_a_column_for_every_header() {
    let csv = CsvData {
        records: vec![strings(&["alice", "30", "1.5"])],
        headers: strings(&["full name", "age", "height"]),
        filename: String::from("people.csv"),
    };
    let inference = ColumnInference::from_csv(&csv);
    assert_eq!(
        to_table_parameters(&csv, &inference),
        strings(&["\"full name\" text", "\"age\" integer", "\"height\" real"])
    );
    let as_text = ColumnInference::default_inference(&csv.headers);
    assert_eq!(
        to_table_parameters(&csv, &as_text),
        strings(&["\"full name\" text", "\"age\" text", "\"height\" text"])
    );
}

#[test]
fn it_selects_the_records_it_inserted() {
    let mut db = Db::open_in_memory().unwrap();
    db.create_table("t", &strings(&["\"n\" integer", "\"s\" text", "\"r\" real"]))
        .unwrap();
    db.insert(
        "t",
        &strings(&["n", "s", "r"]),
        &vec![strings(&["1", "one", "1.5"]), strings(&["-2", "two", "2"])],
    )
    .unwrap();
    let (header, rows) = db
        .select_statement("select n, s, r, null as missing, x'6869' as b from t order by n")
        .unwrap();
    assert_eq!(header, strings(&["n", "s", "r", "missing", "b"]));
    assert_eq!(
        rows,
        vec![
            strings(&["-2", "two", "2", "null", "hi"]),
            strings(&["1", "one", "1.5", "null", "hi"]),
        ]
    );
}

#[test]
fn it_reports_every_value_as_text() {
    assert_eq!(render(&SqlValue::Null), "null");
    assert_eq!(render(&SqlValue::Integer(0)), "0");
    assert_eq!(render(&SqlValue::Integer(42)), "42");
    assert_eq!(render(&SqlValue::Integer(-7)), "-7");
    assert_eq!(render(&SqlValue::Integer(1000)), "1000");
    assert_eq!(render(&SqlValue::Integer(i64::MAX)), "9223372036854775807");
    assert_eq!(render(&SqlValue::Integer(i64::MIN)), "-9223372036854775808");
    assert_eq!(render(&SqlValue::Real(String::from("2.5"))), "2.5");
    assert_eq!(render(&SqlValue::Text(b"text".to_vec())), "text");
    assert_eq!(render(&SqlValue::Text("\u{e9}t\u{e9}".as_bytes().to_vec())), "\u{e9}t\u{e9}");
    assert_eq!(render(&SqlValue::Blob(b"blob".to_vec())), "blob");
    assert_eq!(render(&SqlValue::Blob(vec![b'a', 0xff, b'b'])), "a\u{fffd}b");
    assert_eq!(render(&SqlValue::Blob(vec![])), "");
}

#[test]
fn it_reports_what_the_engine_refuses() {
    let mut db = Db::open_in_memory().unwrap();
    assert!(matches!(
        db.select_statement("select * from nowhere"),
        Err(QsvError::Engine(_))
    ));
    assert!(matches!(
        db.select_statement("this is no statement"),
        Err(QsvError::Engine(_))
    ));
    db.create_table("t", &strings(&["\"a\" text"])).unwrap();
    assert!(matches!(
        db.create_table("t", &strings(&["\"a\" text"])),
        Err(QsvError::Engine(_))
    ));
}

#[test]
fn it_inserts_nothing_of_a_batch_that_fails() {
    let mut db = Db::open_in_memory().unwrap();
    db.create_table("t", &strings(&["\"a\" text", "\"b\" text"]))
        .unwrap();
    db.insert("t", &strings(&["a", "b"]), &vec![strings(&["1", "2"])])
        .unwrap();
    assert_eq!(count(&db, "t"), 1);
    let ragged = vec![strings(&["3", "4"]), strings(&["5"])];
    assert!(matches!(
        db.insert("t", &strings(&["a", "b"]), &ragged),
        Err(QsvError::Engine(_))
    ));
    assert_eq!(count(&db, "t"), 1);
    let unknown_field = vec![strings(&["3", "4"]), strings(&["5", "6"])];
    assert!(matches!(
        db.insert("t", &strings(&["a", "c"]), &unknown_field),
        Err(QsvError::Engine(_))
    ));
    assert_eq!(count(&db, "t"), 1);
    assert!(matches!(
        db.insert("nowhere", &strings(&["a", "b"]), &unknown_field),
        Err(QsvError::Engine(_))
    ));
    assert_eq!(count(&db, "t"), 1);
    db.insert("t", &strings(&["a", "b"]), &unknown_field).unwrap();
    assert_eq!(count(&db, "t"), 3);
}

#[test]
fn it_refuses_a_batch_without_fields_or_with_too_many() {
    let mut db = Db::open_in_memory().unwrap();
    db.create_table("t", &strings(&["\"a\" text"])).unwrap();
    assert!(db.insert("t", &vec![], &vec![]).is_err());
    let many: Vec<String> = (0..1001).map(|i| format!("c{}", i)).collect();
    assert!(db.insert("t", &many, &vec![]).is_err());
    assert!(db.insert("t", &strings(&["a"]), &vec![]).is_ok());
    assert_eq!(count(&db, "t"), 0);
}

#[test]
fn it_keeps_quotes_in_names_out_of_the_statement() {
    let mut db = Db::open_in_memory().unwrap();
    let name = "bobby\"; drop table foo";
    db.create_table(name, &strings(&["\"a\"\"b\" text"])).unwrap();
    db.insert(name, &strings(&["a\"b"]), &vec![strings(&["x"])])
        .unwrap();
    let (header, rows) = db
        .select_statement("select * from \"bobby\"\"; drop table foo\"")
        .unwrap();
    assert_eq!(header, strings(&["a\"b"]));
    assert_eq!(rows, vec![strings(&["x"])]);
}

#[test]
fn it_computes_md5_as_hexadecimal_digits() {
    assert_eq!(calculate_md5("foobar"), "3858f62230ac3c915f300c664312c63f");
    assert_eq!(calculate_md5(""), "d41d8cd98f00b204e9800998ecf8427e");
    assert_ne!(calculate_md5("foobar"), "foobar");
}

#[test]
fn it_adds_numbers_counts_nulls_and_refuses_the_rest() {
    assert_eq!(Stddev::step(ValueKind::Null).unwrap(), Step::CountNull);
    assert_eq!(Stddev::step(ValueKind::Integer).unwrap(), Step::Add);
    assert_eq!(Stddev::step(ValueKind::Real).unwrap(), Step::Add);
    assert_eq!(Mean::step(ValueKind::Null).unwrap(), Step::CountNull);
    assert_eq!(Mean::step(ValueKind::Integer).unwrap(), Step::Add);
    assert_eq!(Mean::step(ValueKind::Real).unwrap(), Step::Add);
    for kind in [ValueKind::Text, ValueKind::Blob] {
        match Stddev::step(kind) {
            Err(QsvError::UdfType(message)) => {
                assert_eq!(message, "can't take stddev of this value")
            }
            other => panic!("expected a refusal, got {:?}", other),
        }
        match Mean::step(kind) {
            Err(QsvError::UdfType(message)) => {
                assert_eq!(message, "can't take mean of this value")
            }
            other => panic!("expected a refusal, got {:?}", other),
        }
    }
}

#[test]
fn it_lists_the_settings_of_the_store() {
    let text = |value: &str| SettingValue::Text(value.to_string());
    assert_eq!(
        settings(),
        vec![
            (String::from("mmap_size"), SettingValue::Number(0)),
            (String::from("journal_mode"), text("off")),
            (String::from("synchronous"), text("off")),
            (String::from("cache_size"), SettingValue::Number(-16000)),
            (String::from("read_uncommitted"), text("true")),
            (String::from("wal_autocheckpoint"), SettingValue::Number(0)),
            (String::from("threads"), SettingValue::Number(8)),
        ]
    );
}

#[test]
fn it_opens_a_store_with_its_settings_made() {
    let db = Db::open_in_memory().unwrap();
    let number = |name: &str| -> i64 {
        db.connection
            .query_row(&format!("PRAGMA {}", name), [], |row| row.get(0))
            .unwrap()
    };
    assert_eq!(number("cache_size"), -16000);
    assert_eq!(number("synchronous"), 0);
    assert_eq!(number("read_uncommitted"), 1);
    assert_eq!(number("threads"), 8);
    let journal: String = db
        .connection
        .query_row("PRAGMA journal_mode", [], |row| row.get(0))
        .unwrap();
    assert_eq!(journal, "off");
}

#[test]
fn it_frames_a_batch_by_the_statements_of_a_transaction() {
    assert_eq!(transaction_sql(TransactionStep::Begin), "BEGIN TRANSACTION");
    assert_eq!(transaction_sql(TransactionStep::End), "END TRANSACTION");
    assert_eq!(
        transaction_sql(TransactionStep::Rollback),
        "ROLLBACK TRANSACTION"
    );
}
