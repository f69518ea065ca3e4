use qsv::csv::csv_data::CsvType;
use qsv::db::Db;
use qsv::error::QsvError;
use qsv::parser::ast::{Cte, Query, Select, SetExpr, Statement, TableFactor, TableWithJoins};
use qsv::parser::collector::Collector;
use qsv::parser::CsvDialect;
use qsv::qsv::analysis::{execute_analysis, maybe_load_analysis};
use qsv::qsv::query::{execute_query, maybe_load_file};
use qsv::qsv::{find_source, format_row, FileSource, Options};
use qsv::string_map::StringMap;
use sqlparser::ast as sql;
use sqlparser::parser::Parser;

const PEOPLE: &[u8] = b"name,age\nalice,30\nbob,13\ncarol,25\n";
const OCCUPATIONS: &[u8] = b"occupation,minimum_age\nBartender,18\nConstruction Worker,25\nDriver,30\n";

fn to_factor(factor: &sql::TableFactor) -> TableFactor {
    match factor {
        sql::TableFactor::Table { name, .. } => TableFactor::Table {
            name: name.0.iter().map(|ident| ident.value.clone()).collect(),
        },
        sql::TableFactor::Derived { subquery, .. } => TableFactor::Derived {
            subquery: Box::new(to_query(subquery)),
        },
        sql::TableFactor::TableFunction { .. } => TableFactor::TableFunction,
        sql::TableFactor::NestedJoin(_) => TableFactor::NestedJoin,
    }
}

fn to_table(table: &sql::TableWithJoins) -> TableWithJoins {
    TableWithJoins {
        relation: to_factor(&table.relation),
        joins: table.joins.iter().map(|join| to_factor(&join.relation)).collect(),
    }
}

fn to_set_expr(body: &sql::SetExpr) -> SetExpr {
    match body {
        sql::SetExpr::Select(select) => SetExpr::Select(Box::new(Select {
            from: select.from.iter().map(to_table).collect(),
        })),
        sql::SetExpr::Query(query) => SetExpr::Query(Box::new(to_query(query))),
        sql::SetExpr::SetOperation { left, right, .. } => SetExpr::SetOperation {
            left: Box::new(to_set_expr(left)),
            right: Box::new(to_set_expr(right)),
        },
        sql::SetExpr::Values(_) => SetExpr::Values,
        sql::SetExpr::Insert(_) => SetExpr::Insert,
    }
}

fn to_query(query: &sql::Query) -> Query {
    let ctes = match &query.with {
        Some(with) => with
            .cte_tables
            .iter()
            .map(|cte| Cte {
                from: cte.from.as_ref().map(|ident| ident.value.clone()),
                query: to_query(&cte.query),
            })
            .collect(),
        None => Vec::new(),
    };
    Query {
        ctes,
        body: to_set_expr(&query.body),
    }
}

fn to_statement(statement: &sql::Statement) -> Statement {
    match statement {
        sql::Statement::Query(query) => Statement::Query(Box::new(to_query(query))),
        _ => Statement::Other,
    }
}

fn write_factor(model: &TableFactor, factor: &mut sql::TableFactor) {
    match (model, factor) {
        (TableFactor::Table { name: parts }, sql::TableFactor::Table { name, .. }) => {
            for (part, ident) in parts.iter().zip(name.0.iter_mut()) {
                ident.value = part.clone();
            }
        }
        (TableFactor::Derived { subquery: model }, sql::TableFactor::Derived { subquery, .. }) => {
            write_query(model, subquery)
        }
        _ => {}
    }
}

fn write_table(model: &TableWithJoins, table: &mut sql::TableWithJoins) {
    write_factor(&model.relation, &mut table.relation);
    for (model, join) in model.joins.iter().zip(table.joins.iter_mut()) {
        write_factor(model, &mut join.relation);
    }
}

fn write_set_expr(model: &SetExpr, body: &mut sql::SetExpr) {
    match (model, body) {
        (SetExpr::Select(model), sql::SetExpr::Select(select)) => {
            for (model, table) in model.from.iter().zip(select.from.iter_mut()) {
                write_table(model, table);
            }
        }
        (SetExpr::Query(model), sql::SetExpr::Query(query)) => write_query(model, query),
        (
            SetExpr::SetOperation {
                left: model_left,
                right: model_right,
            },
            sql::SetExpr::SetOperation { left, right, .. },
        ) => {
            write_set_expr(model_left, left);
            write_set_expr(model_right, right);
        }
        _ => {}
    }
}

fn write_query(model: &Query, query: &mut sql::Query) {
    if let Some(with) = query.with.as_mut() {
        for (model, cte) in model.ctes.iter().zip(with.cte_tables.iter_mut()) {
            write_query(&model.query, &mut cte.query);
        }
    }
    write_set_expr(&model.body, &mut query.body);
}

fn write_statement(model: &Statement, statement: &mut sql::Statement) {
    if let (Statement::Query(model), sql::Statement::Query(query)) = (model, statement) {
        write_query(model, query);
    }
}


fn file(identifier: &str, mime_type: &str, bytes: &[u8]) -> FileSource {
    FileSource {
        identifier: identifier.to_string(),
        mime_type: mime_type.to_string(),
        bytes: bytes.to_vec(),
    }
}

fn options(textonly: bool) -> Options {
    Options {
        delimiter: ',',
        trim: false,
        textonly,
    }
}

fn strings(cells: &[&str]) -> Vec<String> {
    cells.iter().map(|c| c.to_string()).collect()
}

/// Parses, loads the files, rewrites, and runs the rewritten statement.
fn run(
    text: &str,
    files: &[FileSource],
    options: &Options,
) -> Result<(Vec<String>, Vec<Vec<String>>), QsvError> {
    let mut ast = Parser::parse_sql(&CsvDialect, text).unwrap();
    let mut statements: Vec<Statement> = ast.iter().map(to_statement).collect();
    let mut db = Db::open_in_memory()?;
    let sources: Vec<FileSource> = files
        .iter()
        .map(|f| file(&f.identifier, &f.mime_type, &f.bytes))
        .collect();
    execute_query(&mut statements, &sources, &mut db, options)?;
    write_statement(&statements[0], &mut ast[0]);
    db.select_statement(&ast[0].to_string())
}

fn analyse(
    text: &str,
    files: &[FileSource],
    options: &Options,
) -> Result<qsv::csv::inference::ColumnInferences, QsvError> {
    let ast = Parser::parse_sql(&CsvDialect, text).unwrap();
    let statements: Vec<Statement> = ast.iter().map(to_statement).collect();
    let sources: Vec<FileSource> = files
        .iter()
        .map(|f| file(&f.identifier, &f.mime_type, &f.bytes))
        .collect();
    execute_analysis(&statements, &sources, options)
}

#[test]
fn it_runs_a_query_without_files() {
    let (header, rows) = run("SELECT 1 = 1", &[], &options(false)).unwrap();
    assert_eq!(header.len(), 1);
    assert_eq!(rows, vec![strings(&["1"])]);
}

#[test]
fn it_runs_a_query_that_ends_in_a_semicolon() {
    let (_, rows) = run("select 1 = 1;", &[], &options(true)).unwrap();
    assert_eq!(rows, vec![strings(&["1"])]);
}

#[test]
fn it_runs_a_query_with_subqueries_over_a_file() {
    let files = [file("./testdata/occupations.csv", "text/plain", OCCUPATIONS)];
    let (header, rows) = run(
        "select * from (select * from (select * from ./testdata/occupations.csv))",
        &files,
        &options(false),
    )
    .unwrap();
    assert_eq!(header, strings(&["occupation", "minimum_age"]));
    assert_eq!(
        rows,
        vec![
            strings(&["Bartender", "18"]),
            strings(&["Construction Worker", "25"]),
            strings(&["Driver", "30"]),
        ]
    );
}

#[test]
fn it_runs_a_query_with_a_common_table_expression_and_a_join() {
    let files = [
        file("testdata/people.csv", "text/plain", PEOPLE),
        file("testdata/occupations.csv", "text/plain", OCCUPATIONS),
    ];
    let (_, rows) = run(
        "with some_cte (age) as (select distinct(age) from testdata/people.csv where age <> 13) select * from testdata/occupations.csv occupation INNER JOIN some_cte on (occupation.minimum_age = some_cte.age) order by occupation",
        &files,
        &options(false),
    )
    .unwrap();
    assert_eq!(
        rows,
        vec![
            strings(&["Construction Worker", "25", "25"]),
            strings(&["Driver", "30", "30"]),
        ]
    );
}

#[test]
fn it_runs_a_query_with_a_union_over_two_files() {
    let files = [
        file("./testdata/people.csv", "text/plain", PEOPLE),
        file("./testdata/occupations.csv", "text/plain", OCCUPATIONS),
    ];
    let (_, rows) = run(
        "select age from ./testdata/people.csv union select minimum_age as age from ./testdata/occupations.csv",
        &files,
        &options(false),
    )
    .unwrap();
    assert_eq!(
        rows,
        vec![
            strings(&["13"]),
            strings(&["18"]),
            strings(&["25"]),
            strings(&["30"]),
        ]
    );
}

#[test]
fn it_runs_a_query_over_a_file_with_spaces_in_its_name() {
    let files = [file(
        "./testdata/occupations with spaces.csv",
        "text/plain",
        OCCUPATIONS,
    )];
    let (_, rows) = run(
        "select count(*) from (select * from `./testdata/occupations with spaces.csv`)",
        &files,
        &options(false),
    )
    .unwrap();
    assert_eq!(rows, vec![strings(&["3"])]);
}

#[test]
fn it_runs_a_query_over_columns_with_spaces_and_quotes() {
    let files = [file(
        "testdata/sql_injection.csv",
        "text/plain",
        b"occupation,minimum age\"); drop table foo\nBartender,18\n",
    )];
    let (header, rows) = run(
        "select * from testdata/sql_injection.csv",
        &files,
        &options(false),
    )
    .unwrap();
    assert_eq!(header[0], "occupation");
    assert_eq!(rows, vec![strings(&["Bartender", "18"])]);
}

#[test]
fn it_takes_the_average_of_mixed_numbers_read_as_text() {
    let files = [file(
        "testdata/mixed_floats.csv",
        "text/plain",
        b"number\n1\n2.0\n3.42\n",
    )];
    let (_, rows) = run(
        "select avg(number) from testdata/mixed_floats.csv",
        &files,
        &options(true),
    )
    .unwrap();
    assert_eq!(rows, vec![strings(&["2.14"])]);
}

#[test]
fn it_orders_integers_as_numbers_unless_read_as_text() {
    let files = [file("n.csv", "text/plain", b"n\n10\n9\n100\n")];
    let sql = "select n from n.csv order by n";
    let (_, rows) = run(sql, &files, &options(false)).unwrap();
    assert_eq!(rows, vec![strings(&["9"]), strings(&["10"]), strings(&["100"])]);
    let (_, rows) = run(sql, &files, &options(true)).unwrap();
    assert_eq!(rows, vec![strings(&["10"]), strings(&["100"]), strings(&["9"])]);
}

#[test]
fn it_rejects_more_than_one_statement() {
    match run("select 1 = 1;select 1 = 1;", &[], &options(true)) {
        Err(QsvError::Parse(message)) => {
            assert_eq!(message, "Expected exactly one SQL statement in query input")
        }
        other => panic!("expected a refusal, got {:?}", other),
    }
    let mut none: Vec<Statement> = Vec::new();
    let mut db = Db::open_in_memory().unwrap();
    match execute_query(&mut none, &vec![], &mut db, &options(false)) {
        Err(error) => assert_eq!(
            error.message(),
            "Expected exactly one SQL statement in query input"
        ),
        Ok(_) => panic!("expected a refusal"),
    }
    match execute_analysis(&none, &vec![], &options(false)) {
        Err(QsvError::Parse(message)) => {
            assert_eq!(message, "Expected exactly one SQL statement in query input")
        }
        other => panic!("expected a refusal, got {:?}", other),
    }
}

#[test]
fn it_rejects_a_statement_that_is_no_query() {
    let mut statements = vec![Statement::Other];
    let mut db = Db::open_in_memory().unwrap();
    assert!(matches!(
        execute_query(&mut statements, &vec![], &mut db, &options(false)),
        Err(QsvError::Parse(_))
    ));
    assert!(matches!(
        execute_analysis(&statements, &vec![], &options(false)),
        Err(QsvError::Parse(_))
    ));
}

#[test]
fn it_leaves_identifiers_without_a_file_to_the_engine() {
    let result = run("select * from nowhere.csv", &[], &options(false));
    assert!(matches!(result, Err(QsvError::Engine(_))));
}

#[test]
fn it_gives_up_a_query_over_a_file_that_cannot_be_read() {
    let ragged = [file("r.csv", "text/plain", b"a,b\n1\n")];
    assert!(matches!(
        run("select * from r.csv", &ragged, &options(false)),
        Err(QsvError::CsvFormat(_))
    ));
    let image = [file("i.png", "image/png", b"\x89PNG")];
    match run("select * from i.png", &image, &options(false)) {
        Err(QsvError::MimeUnsupported(message)) => {
            assert_eq!(message, "Unsupported MIME type image/png for file i.png")
        }
        other => panic!("expected a refusal, got {:?}", other),
    }
    let broken = [file("b.gz", "application/gzip", b"no gzip")];
    assert!(matches!(
        run("select * from b.gz", &broken, &options(false)),
        Err(QsvError::Io(_))
    ));
}

#[test]
fn it_loads_a_file_once_however_often_it_is_named() {
    let files = [file("people.csv", "text/plain", PEOPLE)];
    let (_, rows) = run(
        "select count(*) from people.csv a join people.csv b on (a.name = b.name)",
        &files,
        &options(false),
    )
    .unwrap();
    assert_eq!(rows, vec![strings(&["3"])]);
}

#[test]
fn it_creates_one_table_for_two_files_of_one_name() {
    let sources = vec![
        file("./people.csv", "text/plain", PEOPLE),
        file("other/people.csv", "text/plain", b"name\nzed\n"),
    ];
    let ast = Parser::parse_sql(
        &CsvDialect,
        "select * from ./people.csv union select * from other/people.csv",
    )
    .unwrap();
    let mut statements: Vec<Statement> = ast.iter().map(to_statement).collect();
    let mut db = Db::open_in_memory().unwrap();
    let map = execute_query(&mut statements, &sources, &mut db, &options(false)).unwrap();
    assert_eq!(map.len(), 1);
    assert_eq!(map.get("./people.csv"), Some(&String::from("people")));
    assert_eq!(map.get("other/people.csv"), None);
    let (_, rows) = db
        .select_statement("select count(*) from sqlite_master where type = 'table'")
        .unwrap();
    assert_eq!(rows, vec![strings(&["1"])]);
    let mut collector = Collector::new();
    collector.collect(&statements[0]).unwrap();
    assert_eq!(
        collector.table_identifiers,
        strings(&["people", "other/people.csv"])
    );
}

#[test]
fn it_loads_one_file_into_the_store() {
    let mut db = Db::open_in_memory().unwrap();
    let mut map: StringMap<String> = StringMap::new();
    let sources = vec![file("dir/people.csv", "text/plain", PEOPLE)];
    let found = find_source(&sources, "dir/people.csv");
    assert!(found.is_some());
    assert!(find_source(&sources, "people.csv").is_none());
    let loaded = maybe_load_file(&mut map, "dir/people.csv", found, &mut db, &options(false));
    assert_eq!(loaded.unwrap(), Some(()));
    assert_eq!(map.get("dir/people.csv"), Some(&String::from("people")));
    let absent = maybe_load_file(&mut map, "nowhere.csv", None, &mut db, &options(false));
    assert_eq!(absent.unwrap(), None);
    assert_eq!(map.len(), 1);
    let (header, rows) = db.select_statement("select * from people").unwrap();
    assert_eq!(header, strings(&["name", "age"]));
    assert_eq!(rows.len(), 3);
}

#[test]
fn it_makes_up_a_table_name_for_a_file_without_one() {
    let mut db = Db::open_in_memory().unwrap();
    let mut map: StringMap<String> = StringMap::new();
    let sources = vec![file(".csv", "text/plain", PEOPLE)];
    maybe_load_file(&mut map, ".csv", sources.first(), &mut db, &options(false)).unwrap();
    let name = map.get(".csv").unwrap().clone();
    assert_eq!(name.len(), 33);
    assert!(name.starts_with('t'));
    assert!(name[1..].chars().all(|c| c.is_ascii_hexdigit() && !c.is_ascii_uppercase()));
    let (_, rows) = db
        .select_statement(&format!("select count(*) from {}", name))
        .unwrap();
    assert_eq!(rows, vec![strings(&["3"])]);
}

#[test]
fn it_analyses_the_files_of_a_union() {
    let files = [
        file("./testdata/people.csv", "text/plain", PEOPLE),
        file("./testdata/occupations.csv", "text/plain", OCCUPATIONS),
    ];
    let inferences = analyse(
        "select age from ./testdata/people.csv union select minimum_age as age from ./testdata/occupations.csv",
        &files,
        &options(false),
    )
    .unwrap();
    let people = inferences.get("./testdata/people.csv").unwrap();
    assert_eq!(people.get_type(String::from("name")), Some(&CsvType::String));
    assert_eq!(people.get_type(String::from("age")), Some(&CsvType::Integer));
    let occupations = inferences.get("./testdata/occupations.csv").unwrap();
    assert_eq!(
        occupations.get_type(String::from("occupation")),
        Some(&CsvType::String)
    );
    assert_eq!(
        occupations.get_type(String::from("minimum_age")),
        Some(&CsvType::Integer)
    );
    assert_eq!(occupations.get_type(String::from("minimum_age")).unwrap().name(), "integer");
    assert_eq!(inferences.tables().len(), 2);
    assert_eq!(inferences.tables().key_at(0), "./testdata/people.csv");
}

#[test]
fn it_analyses_only_the_identifiers_that_are_files() {
    let files = [file("people.csv", "text/plain", PEOPLE)];
    let inferences = analyse(
        "select * from people.csv join elsewhere on (1 = 1)",
        &files,
        &options(false),
    )
    .unwrap();
    assert!(inferences.get("people.csv").is_some());
    assert!(inferences.get("elsewhere").is_none());
    assert_eq!(inferences.tables().len(), 1);
}

#[test]
fn it_analyses_every_column_as_text_when_asked_to() {
    let files = [file("people.csv", "text/plain", PEOPLE)];
    let inferences = analyse("select * from people.csv", &files, &options(true)).unwrap();
    let people = inferences.get("people.csv").unwrap();
    assert_eq!(people.get_type(String::from("age")), Some(&CsvType::String));
}

#[test]
fn it_gives_up_an_analysis_of_a_file_that_cannot_be_read() {
    let files = [
        file("people.csv", "text/plain", PEOPLE),
        file("ragged.csv", "text/plain", b"a,b\n1\n"),
    ];
    let result = analyse(
        "select * from people.csv union select * from ragged.csv",
        &files,
        &options(false),
    );
    assert!(matches!(result, Err(QsvError::CsvFormat(_))));
    let source = file("i.png", "image/png", b"");
    let result = maybe_load_analysis("i.png", Some(&source), &options(false));
    assert!(matches!(result, Err(QsvError::MimeUnsupported(_))));
    let absent = maybe_load_analysis("i.png", None, &options(false));
    assert!(matches!(absent, Ok(None)));
}

#[test]
fn it_reports_the_inferred_types_of_every_file() {
    let files = [
        file("./testdata/people.csv", "text/plain", PEOPLE),
        file("./testdata/occupations.csv", "text/plain", OCCUPATIONS),
    ];
    let inferences = analyse(
        "select age from ./testdata/people.csv union select minimum_age as age from ./testdata/occupations.csv",
        &files,
        &options(false),
    )
    .unwrap();
    assert_eq!(
        inferences.describe(),
        "./testdata/people.csv:\n\tname -> text\n\tage -> integer\n./testdata/occupations.csv:\n\toccupation -> text\n\tminimum_age -> integer\n"
    );
    let people = inferences.get("./testdata/people.csv").unwrap();
    assert_eq!(people.describe(""), "name -> text\nage -> integer\n");
    let nothing = analyse("select 1", &[], &options(false)).unwrap();
    assert_eq!(nothing.describe(), "");
}

#[test]
fn it_writes_a_record_as_a_line_of_values_between_commas() {
    assert_eq!(format_row(&strings(&["name", "age"])), "name,age\n");
    assert_eq!(format_row(&strings(&["a,b", "c"])), "a,b,c\n");
    assert_eq!(format_row(&strings(&["only"])), "only\n");
    assert_eq!(format_row(&strings(&[])), "\n");
    assert_eq!(format_row(&strings(&["", ""])), ",\n");
}

#[test]
fn it_writes_the_header_of_a_result_before_its_records() {
    let files = [file("testdata/people.csv", "text/plain", PEOPLE)];
    let (header, rows) = run(
        "select * from testdata/people.csv",
        &files,
        &options(false),
    )
    .unwrap();
    let mut written = format_row(&header);
    for row in rows.iter() {
        written.push_str(&format_row(row));
    }
    assert_eq!(written, "name,age\nalice,30\nbob,13\ncarol,25\n");
}

#[test]
fn it_loads_no_second_file_for_a_table_that_is_there() {
    let mut db = Db::open_in_memory().unwrap();
    let mut map: StringMap<String> = StringMap::new();
    let first = file("./people.csv", "text/plain", PEOPLE);
    let second = file("other/people.csv", "text/plain", b"name\nzed\n");
    maybe_load_file(&mut map, "./people.csv", Some(&first), &mut db, &options(false)).unwrap();
    let again = maybe_load_file(
        &mut map,
        "other/people.csv",
        Some(&second),
        &mut db,
        &options(false),
    );
    assert_eq!(again.unwrap(), Some(()));
    assert_eq!(map.len(), 1);
    assert_eq!(map.get("./people.csv"), Some(&String::from("people")));
    let (_, rows) = db.select_statement("select count(*) from people").unwrap();
    assert_eq!(rows, vec![strings(&["3"])]);
}

#[test]
fn it_succeeds_on_a_query_that_names_no_file() {
    let ast = Parser::parse_sql(&CsvDialect, "select * from elsewhere").unwrap();
    let mut statements: Vec<Statement> = ast.iter().map(to_statement).collect();
    let mut db = Db::open_in_memory().unwrap();
    let map = execute_query(&mut statements, &vec![], &mut db, &options(false)).unwrap();
    assert_eq!(map.len(), 0);
    let mut collector = Collector::new();
    collector.collect(&statements[0]).unwrap();
    assert_eq!(collector.table_identifiers, strings(&["elsewhere"]));
}

#[test]
fn it_reports_the_inferences_it_was_made_of() {
    let mut types: StringMap<CsvType> = StringMap::new();
    types.insert(String::from("minimum_age"), CsvType::Integer);
    types.insert(String::from("occupation"), CsvType::String);
    types.insert(String::from("wage"), CsvType::Float);
    let mut indexes: StringMap<usize> = StringMap::new();
    indexes.insert(String::from("minimum_age"), 0);
    indexes.insert(String::from("occupation"), 1);
    indexes.insert(String::from("wage"), 2);
    let mut map = StringMap::new();
    map.insert(
        String::from("./testdata/occupations.csv"),
        qsv::csv::inference::ColumnInference {
            columns_to_types: types,
            columns_to_indexes: indexes,
        },
    );
    let inferences = qsv::csv::inference::ColumnInferences::new(map);
    assert_eq!(
        inferences.describe(),
        "./testdata/occupations.csv:\n\tminimum_age -> integer\n\toccupation -> text\n\twage -> float\n"
    );
}

#[test]
fn it_selects_every_kind_of_value_as_text() {
    let db = Db::open_in_memory().unwrap();
    let (header, rows) = db.select_statement("select null, 42, 1.5, 'a'").unwrap();
    assert_eq!(header.len(), 4);
    assert_eq!(rows, vec![strings(&["null", "42", "1.5", "a"])]);
}
