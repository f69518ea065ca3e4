use qsv::csv::csv_data::{reset_stream, CsvStream, CsvType};
use qsv::error::QsvError;
use qsv::qsv::statistics::{
    column_statistics, execute_statistics, format_top_10, integer_statistics, maybe_load_stats,
    text_statistics,
};
use qsv::qsv::Options;

fn options(textonly: bool) -> Options {
    Options {
        delimiter: ',',
        trim: false,
        textonly,
    }
}

fn strings(cells: &[&str]) -> Vec<String> {
    cells.iter().map(|c| c.to_string()).collect()
}

fn stream(bytes: &[u8]) -> CsvStream {
    CsvStream::from_reader(bytes, "f.csv", ',', false).unwrap()
}

#[test]
fn it_computes_the_statistics_of_a_column_of_integers() {
    let all = execute_statistics(
        b"number\n1\n2\n3\n4\n5\n6\n",
        "testdata/statistical.csv",
        "text/plain",
        &options(false),
    )
    .unwrap();
    assert_eq!(all.len(), 1);
    let number = &all[0];
    assert_eq!(number.column, "number");
    assert_eq!(number.kind, CsvType::Integer);
    assert_eq!(number.index, 0);
    assert_eq!(number.min, Some(1));
    assert_eq!(number.max, Some(6));
    assert_eq!(number.cardinality, Some(6));
    let state = number.stats.as_ref().unwrap();
    assert_eq!(state.len(), 6);
    assert_eq!(format!("{:.5}", state.mean()), "3.50000");
    assert!(format!("{:.5}", state.stddev()).starts_with("1.707"));
    let lines = number.top_10.as_ref().unwrap();
    assert_eq!(lines.len(), 6);
    for line in lines {
        assert!(line.starts_with("element: "));
        assert!(line.ends_with(", count: 1"));
    }
}

#[test]
fn it_lists_the_most_frequent_values_first() {
    let mut csv = stream(b"n\n7\n-3\n7\n5\n7\n-3\n");
    let statistics = integer_statistics(&mut csv, 0, "n").unwrap();
    assert_eq!(
        statistics.top_10,
        Some(strings(&[
            "element: 7, count: 3",
            "element: -3, count: 2",
            "element: 5, count: 1"
        ]))
    );
    assert_eq!(statistics.min, Some(-3));
    assert_eq!(statistics.max, Some(7));
    assert_eq!(statistics.cardinality, Some(3));
}

#[test]
fn it_lists_no_more_than_ten_values() {
    let mut text = String::from("n\n");
    for value in 0..12 {
        for _ in 0..(value + 1) {
            text.push_str(&format!("{}\n", value));
        }
    }
    let mut csv = stream(text.as_bytes());
    let statistics = integer_statistics(&mut csv, 0, "n").unwrap();
    let lines = statistics.top_10.unwrap();
    assert_eq!(lines.len(), 10);
    assert_eq!(lines[0], "element: 11, count: 12");
    assert_eq!(lines[9], "element: 2, count: 3");
    assert_eq!(statistics.cardinality, Some(12));
}

#[test]
fn it_formats_the_lines_of_a_ranking() {
    let ranking = vec![(String::from("a b"), 3u64), (String::from(""), 1u64)];
    assert_eq!(
        format_top_10(&ranking),
        strings(&["element: a b, count: 3", "element: , count: 1"])
    );
    assert_eq!(format_top_10(&vec![]), Vec::<String>::new());
    let long: Vec<(String, u64)> = (0..11).map(|i| (i.to_string(), u64::MAX - i)).collect();
    let lines = format_top_10(&long);
    assert_eq!(lines.len(), 10);
    assert_eq!(lines[0], "element: 0, count: 18446744073709551615");
}

#[test]
fn it_computes_the_statistics_of_a_column_of_text() {
    let mut csv = stream(b"a,b\nx,1\ny,2\nx,3\n");
    let statistics = text_statistics(&mut csv, 0, "a").unwrap();
    assert_eq!(statistics.kind, CsvType::String);
    assert_eq!(statistics.cardinality, Some(2));
    assert_eq!(
        statistics.top_10,
        Some(strings(&["element: x, count: 2", "element: y, count: 1"]))
    );
    assert!(statistics.stats.is_none());
    assert_eq!(statistics.min, None);
    assert_eq!(statistics.max, None);
}

#[test]
fn it_has_no_extremes_for_a_column_without_records() {
    let mut csv = stream(b"n\n");
    let statistics = integer_statistics(&mut csv, 0, "n").unwrap();
    assert_eq!(statistics.min, None);
    assert_eq!(statistics.max, None);
    assert_eq!(statistics.cardinality, Some(0));
    assert_eq!(statistics.top_10, Some(vec![]));
    assert_eq!(statistics.stats.unwrap().len(), 0);
}

#[test]
fn it_gives_the_statistics_of_every_column_in_file_order() {
    let all = execute_statistics(
        b"name,age,height\nalice,30,1.5\nbob,13,2\nalice,25,1.75\n",
        "people.csv",
        "text/plain",
        &options(false),
    )
    .unwrap();
    assert_eq!(all.len(), 3);
    assert_eq!(all[0].column, "name");
    assert_eq!(all[0].kind, CsvType::String);
    assert_eq!(all[0].cardinality, Some(2));
    assert_eq!(all[0].top_10.as_ref().unwrap()[0], "element: alice, count: 2");
    assert_eq!(all[1].column, "age");
    assert_eq!(all[1].kind, CsvType::Integer);
    assert_eq!(all[1].index, 1);
    assert_eq!(all[1].min, Some(13));
    assert_eq!(all[1].max, Some(30));
    assert_eq!(all[2].column, "height");
    assert_eq!(all[2].kind, CsvType::Float);
    assert_eq!(all[2].index, 2);
    assert!(all[2].stats.is_none());
    assert!(all[2].top_10.is_none());
    assert_eq!(all[2].cardinality, None);
}

#[test]
fn it_takes_every_column_as_text_when_asked_to() {
    let all = execute_statistics(b"n\n1\n2\n2\n", "n.csv", "text/plain", &options(true)).unwrap();
    assert_eq!(all.len(), 1);
    assert_eq!(all[0].kind, CsvType::String);
    assert_eq!(all[0].cardinality, Some(2));
    assert_eq!(all[0].min, None);
}

#[test]
fn it_gives_up_at_a_cell_that_is_no_integer() {
    let mut csv = stream(b"n\n1\nx\n3\n");
    match integer_statistics(&mut csv, 0, "n") {
        Err(QsvError::ParseValue(message)) => assert_eq!(message, "Error parsing type"),
        other => panic!("expected a refusal, got {:?}", other.map(|s| s.column)),
    }
    let mut csv = stream(b"n\n1\n2.5\n");
    assert!(matches!(
        column_statistics(&mut csv, "n", 0, CsvType::Integer),
        Err(QsvError::ParseValue(_))
    ));
}

#[test]
fn it_gives_up_at_a_record_that_cannot_be_read() {
    let mut csv = stream(b"a,b\n1,2\n3\n");
    assert!(matches!(
        integer_statistics(&mut csv, 0, "a"),
        Err(QsvError::CsvFormat(_))
    ));
    reset_stream(&mut csv).unwrap();
    assert!(matches!(
        text_statistics(&mut csv, 1, "b"),
        Err(QsvError::CsvFormat(_))
    ));
    let mut csv = stream(b"a,b\n1,2\n");
    assert!(matches!(
        text_statistics(&mut csv, 2, "c"),
        Err(QsvError::CsvFormat(_))
    ));
}

#[test]
fn it_computes_statistics_of_plain_text_only() {
    match execute_statistics(b"", "f.gz", "application/gzip", &options(false)) {
        Err(QsvError::MimeUnsupported(message)) => assert_eq!(
            message,
            "Unsupported MIME type application/gzip for file f.gz"
        ),
        other => panic!("expected a refusal, got {:?}", other.map(|all| all.len())),
    }
}

#[test]
fn it_loads_a_stream_with_its_inference() {
    let (inference, mut csv) =
        maybe_load_stats(b"a,b\n1,x\n2,y\n", "f.csv", "text/plain", &options(false)).unwrap();
    assert_eq!(inference.get_type(String::from("a")), Some(&CsvType::Integer));
    assert_eq!(inference.get_type(String::from("b")), Some(&CsvType::String));
    reset_stream(&mut csv).unwrap();
    assert_eq!(csv.next().unwrap().unwrap(), strings(&["1", "x"]));
}

#[test]
fn it_reads_from_the_first_record_for_every_column() {
    let mut csv = stream(b"a,b\n1,x\n2,y\n");
    assert_eq!(csv.next().unwrap().unwrap(), strings(&["1", "x"]));
    let a = column_statistics(&mut csv, "a", 0, CsvType::Integer).unwrap();
    assert_eq!(a.min, Some(1));
    assert_eq!(a.cardinality, Some(2));
    let b = column_statistics(&mut csv, "b", 1, CsvType::String).unwrap();
    assert_eq!(b.cardinality, Some(2));
    let c = column_statistics(&mut csv, "b", 1, CsvType::Float).unwrap();
    assert_eq!(c.kind, CsvType::Float);
    assert_eq!(c.column, "b");
}

#[test]
fn it_reports_the_statistics_of_a_column_line_by_line() {
    let mut csv = stream(b"n\n7\n-3\n7\n");
    let statistics = integer_statistics(&mut csv, 0, "n").unwrap();
    assert_eq!(
        statistics.describe(),
        strings(&[
            "\tMin: -3",
            "\tMax: 7",
            "\tUnique: 2",
            "\tTop ten most common occurrences:",
            "\telement: 7, count: 2",
            "\telement: -3, count: 1",
        ])
    );
    let mut csv = stream(b"a\nx\n");
    let statistics = text_statistics(&mut csv, 0, "a").unwrap();
    assert_eq!(
        statistics.describe(),
        strings(&[
            "\tUnique: 1",
            "\tTop ten most common occurrences:",
            "\telement: x, count: 1",
        ])
    );
    let mut csv = stream(b"a\n1.5\n");
    let statistics = column_statistics(&mut csv, "a", 0, CsvType::Float).unwrap();
    assert_eq!(statistics.describe(), Vec::<String>::new());
}
