//! Reports the inferred column types of the files that a query names.

use crate::csv::csv_data::{CsvType, Document};
use crate::csv::inference::{column_type, ColumnInference, ColumnInferences};
use crate::error::{expected_one_statement, unrecognized_statement, QsvError};
use crate::parser::ast::{query_model, Statement};
use crate::parser::collector::{query_identifiers, Collector};
use crate::qsv::{
    csv_data_from_mime_type, document_in, find_source, reports, source_of, FileSource,
    Options,
};
use crate::string_map::StringMap;
use vstd::prelude::*;
use vstd::string::StringExecFns;

verus! {

/// The type that each column of `document` is taken to have under
/// `options`: text throughout where only text is asked for, else the type
/// inferred from the cells.
pub open spec fn inferred_types(document: Document, options: Options) -> spec_fn(int) -> CsvType {
    if options.textonly {
        |i: int| CsvType::String
    } else {
        |i: int| column_type(document.rows, i)
    }
}

/// Whether the file behind `identifier`, if there is one, can be read as a
/// document.
pub open spec fn fails(sources: Seq<FileSource>, options: Options, identifier: Seq<char>) -> bool {
    match source_of(sources, identifier) {
        Some(source) => document_in(source.bytes@, source.mime_type@, options) is Err,
        None => false,
    }
}

/// The document in the file behind `identifier`.
pub open spec fn document_behind(
    sources: Seq<FileSource>,
    options: Options,
    identifier: Seq<char>,
) -> Document {
    let source = source_of(sources, identifier).unwrap();
    document_in(source.bytes@, source.mime_type@, options)->Ok_0
}

/// The error `e` reports why the file behind `identifier` cannot be read.
pub open spec fn reports_failure_of(
    e: QsvError,
    sources: Seq<FileSource>,
    options: Options,
    identifier: Seq<char>,
) -> bool {
    let source = source_of(sources, identifier).unwrap();
    reports(
        e,
        document_in(source.bytes@, source.mime_type@, options)->Err_0,
        source.mime_type@,
        identifier,
    )
}

/// The inference for the file behind an identifier: nothing where there is
/// no file, and an error where the file cannot be read as a document.
pub fn maybe_load_analysis(filename: &str, source: Option<&FileSource>, options: &Options) -> (r:
    Result<Option<ColumnInference>, QsvError>)
    ensures
        match source {
            None => r matches Ok(None),
            Some(s) => match document_in(s.bytes@, s.mime_type@, *options) {
                Ok(document) => r matches Ok(Some(inference)) && inference.describes(
                    document.names,
                    inferred_types(document, *options),
                ),
                Err(failure) => r matches Err(e) && reports(e, failure, s.mime_type@, filename@),
            },
        },
{
    match source {
        None => Ok(None),
        Some(s) => {
            let csv = match csv_data_from_mime_type(
                s.bytes.as_slice(),
                filename,
                s.mime_type.as_str(),
                options,
            ) {
                Ok(csv) => csv,
                Err(error) => {
                    return Err(error);
                },
            };
            let inference = if options.textonly {
                ColumnInference::default_inference(&csv.headers)
            } else {
                ColumnInference::from_csv(&csv)
            };
            Ok(Some(inference))
        },
    }
}

/// `result` holds an inference for exactly those of `identifiers` that a
/// file stands behind, each made from the document in that file.
pub open spec fn analysed(
    identifiers: Seq<Seq<char>>,
    sources: Seq<FileSource>,
    options: Options,
    result: Map<Seq<char>, ColumnInference>,
) -> bool {
    &&& forall|k: Seq<char>| #[trigger]
        result.contains_key(k) <==> identifiers.contains(k) && source_of(sources, k) is Some
    &&& forall|k: Seq<char>| #[trigger]
        result.contains_key(k) ==> !fails(sources, options, k) && result[k].describes(
            document_behind(sources, options, k).names,
            inferred_types(document_behind(sources, options, k), options),
        )
}

/// Infers the column types of every file that the one statement of
/// `statements` names. `sources` holds the files that exist, by identifier;
/// an identifier without a file is passed over. There must be exactly one
/// statement and it must be a query. The first file that cannot be read as
/// a document ends the analysis with its error.
pub fn execute_analysis(statements: &Vec<Statement>, sources: &Vec<FileSource>, options: &Options) -> (r:
    Result<ColumnInferences, QsvError>)
    ensures
        statements@.len() != 1 ==> (r matches Err(e) && e is Parse && e.text()
            == expected_one_statement()),
        statements@.len() == 1 ==> match statements@[0] {
            Statement::Other => r matches Err(e) && e is Parse && e.text()
                == unrecognized_statement(),
            Statement::Query(query) => {
                let identifiers = query_identifiers(query_model(*query));
                match r {
                    Ok(inferences) => inferences.wf() && analysed(
                        identifiers,
                        sources@,
                        *options,
                        inferences@,
                    ),
                    Err(e) => exists|i: int|
                        0 <= i < identifiers.len() && fails(
                            sources@,
                            *options,
                            #[trigger] identifiers[i],
                        ) && reports_failure_of(e, sources@, *options, identifiers[i])
                            && forall|j: int|
                            0 <= j < i ==> !fails(sources@, *options, #[trigger] identifiers[j]),
                }
            },
        },
{
    if statements.len() != 1 {
        return Err(
            QsvError::Parse(String::from_str("Expected exactly one SQL statement in query input")),
        );
    }
    let mut collector = Collector::new();
    match collector.collect(&statements[0]) {
        Ok(()) => {},
        Err(_) => {
            return Err(
                QsvError::Parse(
                    String::from_str("Unrecognized statement: only queries can be run"),
                ),
            );
        },
    }
    let ghost identifiers = collector@;
    assert(identifiers =~= Seq::<Seq<char>>::empty() + identifiers);
    let mut hashmap: StringMap<ColumnInference> = StringMap::new();
    let mut i: usize = 0;
    assert(identifiers.take(0) =~= Seq::<Seq<char>>::empty());
    while i < collector.table_identifiers.len()
        invariant
            i <= collector.table_identifiers.len(),
            identifiers == collector@,
            statements@.len() == 1,
            statements@[0] matches Statement::Query(query) && identifiers == query_identifiers(
                query_model(*query),
            ),
            hashmap.wf(),
            analysed(identifiers.take(i as int), sources@, *options, hashmap@),
            forall|j: int| 0 <= j < i ==> !fails(sources@, *options, #[trigger] identifiers[j]),
        decreases collector.table_identifiers.len() - i,
    {
        let filename = &collector.table_identifiers[i];
        let ghost before = hashmap@;
        let ghost prefix = identifiers.take(i as int);
        let ghost next = identifiers.take(i as int + 1);
        assert(identifiers[i as int] == filename@);
        proof {
            assert forall|k: Seq<char>| next.contains(k) == (prefix.contains(k) || k
                == filename@) by {
                if prefix.contains(k) {
                    let j = choose|j: int| 0 <= j < prefix.len() && prefix[j] == k;
                    assert(next[j] == k);
                }
                if k == filename@ {
                    assert(next[i as int] == k);
                }
                if next.contains(k) {
                    let j = choose|j: int| 0 <= j < next.len() && next[j] == k;
                    if j < i {
                        assert(prefix[j] == k);
                    }
                }
            }
        }
        let source = find_source(sources, filename.as_str());
        match maybe_load_analysis(filename.as_str(), source, options) {
            Ok(Some(inference)) => {
                hashmap.insert(filename.clone(), inference);
                proof {
                    assert forall|k: Seq<char>| #[trigger]
                        hashmap@.contains_key(k) implies !fails(sources@, *options, k)
                        && hashmap@[k].describes(
                        document_behind(sources@, *options, k).names,
                        inferred_types(document_behind(sources@, *options, k), *options),
                    ) by {
                        if k != filename@ {
                            assert(before.contains_key(k));
                        }
                    }
                    assert forall|k: Seq<char>| #[trigger]
                        hashmap@.contains_key(k) <==> next.contains(k) && source_of(sources@, k)
                            is Some by {
                        if k != filename@ {
                            assert(before.contains_key(k) <==> prefix.contains(k) && source_of(
                                sources@,
                                k,
                            ) is Some);
                        }
                    }
                }
            },
            Ok(None) => {
                proof {
                    assert forall|k: Seq<char>| #[trigger]
                        hashmap@.contains_key(k) <==> next.contains(k) && source_of(sources@, k)
                            is Some by {
                        assert(before.contains_key(k) <==> prefix.contains(k) && source_of(
                            sources@,
                            k,
                        ) is Some);
                    }
                }
            },
            Err(error) => {
                assert(fails(sources@, *options, identifiers[i as int]));
                assert(reports_failure_of(error, sources@, *options, identifiers[i as int]));
                return Err(error);
            },
        }
        i += 1;
    }
    assert(identifiers.take(collector.table_identifiers.len() as int) =~= identifiers);
    Ok(ColumnInferences::new(hashmap))
}

} // verus!
