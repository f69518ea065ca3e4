use qsv::parser::ast::{Cte, Query, Select, SetExpr, Statement, TableFactor, TableWithJoins};
use qsv::parser::collector::{Collector, ParserError};
use qsv::parser::rewriter::Rewriter;
use qsv::parser::CsvDialect;
use qsv::string_map::StringMap;
use sqlparser::ast as sql;
use sqlparser::parser::Parser;

fn to_factor(factor: &sql::TableFactor) -> TableFactor {
    match factor {
        sql::TableFactor::Table { name, .. } => TableFactor::Table {
            name: name.0.iter().map(|ident| ident.value.clone()).collect(),
        },
        sql::TableFactor::Derived { subquery, .. } => TableFactor::Derived {
            subquery: Box::new(to_query(subquery)),
        },
        sql::TableFactor::TableFunction { .. } => TableFactor::TableFunction,
        sql::TableFactor::NestedJoin(_) => TableFactor::NestedJoin,
    }
}

fn to_table(table: &sql::TableWithJoins) -> TableWithJoins {
    TableWithJoins {
        relation: to_factor(&table.relation),
        joins: table.joins.iter().map(|join| to_factor(&join.relation)).collect(),
    }
}

fn to_set_expr(body: &sql::SetExpr) -> SetExpr {
    match body {
        sql::SetExpr::Select(select) => SetExpr::Select(Box::new(Select {
            from: select.from.iter().map(to_table).collect(),
        })),
        sql::SetExpr::Query(query) => SetExpr::Query(Box::new(to_query(query))),
        sql::SetExpr::SetOperation { left, right, .. } => SetExpr::SetOperation {
            left: Box::new(to_set_expr(left)),
            right: Box::new(to_set_expr(right)),
        },
        sql::SetExpr::Values(_) => SetExpr::Values,
        sql::SetExpr::Insert(_) => SetExpr::Insert,
    }
}

fn to_query(query: &sql::Query) -> Query {
    let ctes = match &query.with {
        Some(with) => with
            .cte_tables
            .iter()
            .map(|cte| Cte {
                from: cte.from.as_ref().map(|ident| ident.value.clone()),
                query: to_query(&cte.query),
            })
            .collect(),
        None => Vec::new(),
    };
    Query {
        ctes,
        body: to_set_expr(&query.body),
    }
}

fn to_statement(statement: &sql::Statement) -> Statement {
    match statement {
        sql::Statement::Query(query) => Statement::Query(Box::new(to_query(query))),
        _ => Statement::Other,
    }
}

fn write_factor(model: &TableFactor, factor: &mut sql::TableFactor) {
    match (model, factor) {
        (TableFactor::Table { name: parts }, sql::TableFactor::Table { name, .. }) => {
            for (part, ident) in parts.iter().zip(name.0.iter_mut()) {
                ident.value = part.clone();
            }
        }
        (TableFactor::Derived { subquery: model }, sql::TableFactor::Derived { subquery, .. }) => {
            write_query(model, subquery)
        }
        _ => {}
    }
}

fn write_table(model: &TableWithJoins, table: &mut sql::TableWithJoins) {
    write_factor(&model.relation, &mut table.relation);
    for (model, join) in model.joins.iter().zip(table.joins.iter_mut()) {
        write_factor(model, &mut join.relation);
    }
}

fn write_set_expr(model: &SetExpr, body: &mut sql::SetExpr) {
    match (model, body) {
        (SetExpr::Select(model), sql::SetExpr::Select(select)) => {
            for (model, table) in model.from.iter().zip(select.from.iter_mut()) {
                write_table(model, table);
            }
        }
        (SetExpr::Query(model), sql::SetExpr::Query(query)) => write_query(model, query),
        (
            SetExpr::SetOperation {
                left: model_left,
                right: model_right,
            },
            sql::SetExpr::SetOperation { left, right, .. },
        ) => {
            write_set_expr(model_left, left);
            write_set_expr(model_right, right);
        }
        _ => {}
    }
}

fn write_query(model: &Query, query: &mut sql::Query) {
    if let Some(with) = query.with.as_mut() {
        for (model, cte) in model.ctes.iter().zip(with.cte_tables.iter_mut()) {
            write_query(&model.query, &mut cte.query);
        }
    }
    write_set_expr(&model.body, &mut query.body);
}

fn write_statement(model: &Statement, statement: &mut sql::Statement) {
    if let (Statement::Query(model), sql::Statement::Query(query)) = (model, statement) {
        write_query(model, query);
    }
}

fn parse(text: &str) -> Vec<sql::Statement> {
    Parser::parse_sql(&CsvDialect, text).unwrap()
}

fn collect(text: &str) -> Vec<String> {
    let ast = parse(text);
    let mut collector = Collector::new();
    collector.collect(&to_statement(&ast[0])).unwrap();
    collector.table_identifiers
}

fn mapping(pairs: &[(&str, &str)]) -> StringMap<String> {
    let mut map = StringMap::new();
    for (identifier, table) in pairs {
        map.insert(identifier.to_string(), table.to_string());
    }
    map
}

fn rewrite(pairs: &[(&str, &str)], text: &str) -> String {
    let mut ast = parse(text);
    let mut model = to_statement(&ast[0]);
    Rewriter::new(mapping(pairs)).rewrite(&mut model).unwrap();
    write_statement(&model, &mut ast[0]);
    ast[0].to_string()
}

#[test]
fn it_parses_sql_with_filenames_for_tables() {
    let ast = parse("select * from ./foo.csv");
    assert_eq!(ast[0].to_string(), "SELECT * FROM ./foo.csv");
    println!("AST: {:?}", ast)
}

#[test]
fn it_parses_sql_with_filenames_for_tables_in_subqueries() {
    let ast = parse("select * from (select * from ./foo.csv)");
    assert_eq!(
        ast[0].to_string(),
        "SELECT * FROM (SELECT * FROM ./foo.csv)"
    );
    println!("AST: {:?}", ast)
}

#[test]
fn it_parses_sql_with_backticks_around_columns_with_spaces() {
    let ast = parse("select * from (select ` foo bar` from ./file.csv)");
    assert_eq!(
        ast[0].to_string(),
        "SELECT * FROM (SELECT ` foo bar` FROM ./file.csv)"
    );
    println!("AST: {:?}", ast)
}

#[test]
fn it_parses_sql_files_with_spaces_with_backticks_around_filename() {
    let ast = parse("select * from (select foo from `./file with spaces.csv`)");
    assert_eq!(
        ast[0].to_string(),
        "SELECT * FROM (SELECT foo FROM `./file with spaces.csv`)"
    );
    println!("AST: {:?}", ast)
}

#[test]
fn it_collects() {
    assert_eq!(
        collect("select * from (select * from ./foo.csv)"),
        vec!(String::from("./foo.csv"))
    );
}

#[test]
fn it_collects_recursively() {
    assert_eq!(
        collect("select * from (select * from (select * from ./foo.csv))"),
        vec!(String::from("./foo.csv"))
    );
}

#[test]
fn it_collects_filenames_from_ctes() {
    let sql = " with some_cte (age) as (select distinct(age) from testdata/people.csv) select * from testdata/occupations.csv occupation INNER JOIN foo on (occupation.minimum_age = foo.age)";
    assert_eq!(
        collect(sql),
        vec!(
            String::from("testdata/people.csv"),
            String::from("testdata/occupations.csv"),
            String::from("foo"),
        )
    );
}

#[test]
fn it_collects_filenames_from_unions() {
    let sql = "select * from testdata/people.csv union select * from testdata/occupations.csv";
    assert_eq!(
        collect(sql),
        vec!(
            String::from("testdata/people.csv"),
            String::from("testdata/occupations.csv")
        )
    );
}

#[test]
fn it_rewrites() {
    let pairs = [("./foo.csv", "bar_table")];
    assert_eq!(
        rewrite(&pairs, "select * from (select * from ./foo.csv)"),
        "SELECT * FROM (SELECT * FROM bar_table)"
    );
    assert_eq!(
        rewrite(
            &pairs,
            "select * from (select * from (select * from ./foo.csv))"
        ),
        "SELECT * FROM (SELECT * FROM (SELECT * FROM bar_table))"
    );
}

#[test]
fn it_rewrites_filenames_in_ctes() {
    let pairs = [
        ("testdata/people.csv", "people_table"),
        ("testdata/occupations.csv", "occupations_table"),
    ];
    let sql = " with some_cte (age) as (select distinct(age) from testdata/people.csv) select * from testdata/occupations.csv occupation INNER JOIN foo on (occupation.minimum_age = foo.age)";
    assert_eq!(
        rewrite(&pairs, sql),
        "WITH some_cte (age) AS (SELECT DISTINCT (age) FROM people_table) SELECT * FROM occupations_table AS occupation JOIN foo ON (occupation.minimum_age = foo.age)"
    );
}

#[test]
fn it_rewrites_filenames_in_unions() {
    let pairs = [
        ("testdata/people.csv", "people_table"),
        ("testdata/occupations.csv", "occupations_table"),
    ];
    let sql = "select * from testdata/people.csv union select * from testdata/occupations.csv";
    assert_eq!(
        rewrite(&pairs, sql),
        "SELECT * FROM people_table UNION SELECT * FROM occupations_table"
    );
}

#[test]
fn it_collects_from_both_sides_of_every_set_operation() {
    let sql = "select * from a.csv union select * from b.csv union select * from c.csv";
    assert_eq!(
        collect(sql),
        vec!(
            String::from("a.csv"),
            String::from("b.csv"),
            String::from("c.csv")
        )
    );
}

#[test]
fn it_collects_from_subqueries_in_joins() {
    let sql = "select * from a.csv x join (select * from b.csv) y on (x.id = y.id)";
    assert_eq!(collect(sql), vec!(String::from("a.csv"), String::from("b.csv")));
}

#[test]
fn it_collects_nothing_from_a_query_without_tables() {
    assert_eq!(collect("select 1 = 1"), Vec::<String>::new());
}

#[test]
fn it_refuses_to_collect_from_a_statement_that_is_no_query() {
    let ast = parse("drop table foo");
    let mut collector = Collector::new();
    assert_eq!(
        collector.collect(&to_statement(&ast[0])),
        Err(ParserError::UnrecognizedStatement)
    );
    assert!(collector.table_identifiers.is_empty());
}

#[test]
fn it_refuses_to_rewrite_a_statement_that_is_no_query() {
    let mut model = Statement::Other;
    let rewriter = Rewriter::new(mapping(&[("a", "b")]));
    assert_eq!(
        rewriter.rewrite(&mut model),
        Err(ParserError::UnrecognizedStatement)
    );
}

#[test]
fn it_leaves_identifiers_without_an_entry_as_they_are() {
    let pairs = [("a.csv", "a")];
    assert_eq!(
        rewrite(&pairs, "select * from a.csv join b.csv on (1 = 1)"),
        "SELECT * FROM a JOIN b.csv ON (1 = 1)"
    );
}

#[test]
fn it_leaves_no_key_of_the_map_in_a_rewritten_query() {
    let pairs = [("a.csv", "a"), ("b.csv", "b")];
    let sql = "with c as (select * from a.csv) select * from b.csv union select * from (select * from a.csv)";
    let mut model = to_statement(&parse(sql)[0]);
    Rewriter::new(mapping(&pairs)).rewrite(&mut model).unwrap();
    let mut collector = Collector::new();
    collector.collect(&model).unwrap();
    assert_eq!(
        collector.table_identifiers,
        vec!(String::from("a"), String::from("b"), String::from("a"))
    );
}

#[test]
fn it_collects_from_the_rewritten_text_what_the_map_gives() {
    let pairs = [("./a.csv", "a"), ("./b.csv", "b")];
    let sql = "select * from ./a.csv union select * from ./b.csv union select * from other";
    let before = collect(sql);
    let after = collect(&rewrite(&pairs, sql));
    let map = mapping(&pairs);
    let expected: Vec<String> = before
        .iter()
        .map(|name| map.get(name).cloned().unwrap_or(name.clone()))
        .collect();
    assert_eq!(after, expected);
}

#[test]
fn it_changes_nothing_when_rewriting_twice() {
    let pairs = [("./a.csv", "a"), ("./b.csv", "b")];
    let sql = "select * from ./a.csv x join (select * from ./b.csv) y on (x.id = y.id)";
    let once = rewrite(&pairs, sql);
    let twice = rewrite(&pairs, &once);
    assert_eq!(once, twice);
    assert_eq!(
        once,
        "SELECT * FROM a AS x JOIN (SELECT * FROM b) AS y ON (x.id = y.id)"
    );
}

#[test]
fn it_rewrites_again_what_the_map_sends_to_another_key() {
    let pairs = [("a", "b"), ("b", "c")];
    let once = rewrite(&pairs, "select * from a");
    assert_eq!(once, "SELECT * FROM b");
    assert_eq!(rewrite(&pairs, &once), "SELECT * FROM c");
}

#[test]
fn it_accepts_path_characters_in_identifiers() {
    assert!(CsvDialect::starts_identifier('.'));
    assert!(CsvDialect::starts_identifier('/'));
    assert!(CsvDialect::starts_identifier('_'));
    assert!(CsvDialect::starts_identifier('$'));
    assert!(CsvDialect::starts_identifier('a'));
    assert!(CsvDialect::starts_identifier('Z'));
    assert!(CsvDialect::starts_identifier('\u{007f}'));
    assert!(CsvDialect::starts_identifier('é'));
    assert!(!CsvDialect::starts_identifier('0'));
    assert!(!CsvDialect::starts_identifier(' '));
    assert!(!CsvDialect::starts_identifier('-'));
    assert!(CsvDialect::continues_identifier('0'));
    assert!(CsvDialect::continues_identifier('9'));
    assert!(!CsvDialect::continues_identifier('*'));
    assert!(CsvDialect::starts_delimited_identifier('`'));
    assert!(CsvDialect::starts_delimited_identifier('"'));
    assert!(CsvDialect::starts_delimited_identifier('['));
    assert!(!CsvDialect::starts_delimited_identifier('\''));
}
