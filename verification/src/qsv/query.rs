//! Loads the files that a query names into the store and rewrites the query
//! to name their tables.

use crate::csv::inference::ColumnInference;
use crate::db::utils::to_table_parameters;
use crate::db::Db;
use crate::error::{expected_one_statement, unrecognized_statement, QsvError};
use crate::parser::ast::{query_model, statement_model, Statement};
use crate::parser::collector::{query_identifiers, Collector};
use crate::parser::rewriter::{rewrite_statement, Rewriter};
use crate::qsv::analysis::{fails, reports_failure_of};
use crate::qsv::util::{derived_name, derived_table_name, fresh_table_name, table_name_spec};
use crate::qsv::{
    csv_data_from_mime_type, document_in, find_source, reports, source_of, FileSource, Options,
};
use crate::string_map::{has_value, injective, names_of, StringMap};
use vstd::prelude::*;
use vstd::string::StringExecFns;

verus! {

/// `uuid::Uuid::new_v4`, as a number: whatever the system's source of
/// random numbers gives. It panics where that source fails.
#[verifier::external_body]
fn random_number() -> (n: u128) {
    uuid::Uuid::new_v4().as_u128()
}

/// The map after the file behind `identifier` was taken in under the table
/// name `name`: as before where some identifier stands for that table
/// already, else with `identifier` standing for it.
pub open spec fn with_table(
    map: Map<Seq<char>, Seq<char>>,
    identifier: Seq<char>,
    name: Seq<char>,
) -> Map<Seq<char>, Seq<char>> {
    if has_value(map, name) {
        map
    } else {
        map.insert(identifier, name)
    }
}

/// The map from identifier to table name after the first `n` of
/// `identifiers` were gone through in order, every file among them being
/// readable. `draws[i]` is the number at hand for the `i`-th identifier in
/// case its path gives no table name.
pub open spec fn loaded(
    identifiers: Seq<Seq<char>>,
    sources: Seq<FileSource>,
    draws: Seq<u128>,
    n: nat,
) -> Map<Seq<char>, Seq<char>>
    decreases n,
{
    if n == 0 {
        Map::empty()
    } else {
        let before = loaded(identifiers, sources, draws, (n - 1) as nat);
        let identifier = identifiers[n - 1];
        if source_of(sources, identifier) is Some {
            with_table(before, identifier, table_name_spec(identifier, draws[n - 1]))
        } else {
            before
        }
    }
}

/// However many files are loaded, no two identifiers stand for the same
/// table: a file whose table name is taken already is not loaded again, and
/// its identifier gets no entry. Every identifier with an entry is one of
/// those gone through, has a file behind it, and stands for a table name
/// made from its own path.
pub proof fn lemma_loaded(
    identifiers: Seq<Seq<char>>,
    sources: Seq<FileSource>,
    draws: Seq<u128>,
    n: nat,
)
    requires
        n <= identifiers.len(),
        n <= draws.len(),
    ensures
        injective(loaded(identifiers, sources, draws, n)),
        forall|k: Seq<char>| #[trigger]
            loaded(identifiers, sources, draws, n).contains_key(k) ==> source_of(sources, k)
                is Some && exists|i: int|
                0 <= i < n && identifiers[i] == k && loaded(identifiers, sources, draws, n)[k]
                    == table_name_spec(k, #[trigger] draws[i]),
    decreases n,
{
    if n > 0 {
        lemma_loaded(identifiers, sources, draws, (n - 1) as nat);
        let before = loaded(identifiers, sources, draws, (n - 1) as nat);
        let now = loaded(identifiers, sources, draws, n);
        let identifier = identifiers[n - 1];
        let name = table_name_spec(identifier, draws[n - 1]);
        assert forall|k: Seq<char>| #[trigger] now.contains_key(k) implies source_of(sources, k)
            is Some && exists|i: int|
            0 <= i < n && identifiers[i] == k && now[k] == table_name_spec(
                k,
                #[trigger] draws[i],
            ) by {
            if before.contains_key(k) && now[k] == before[k] {
                let i = choose|i: int|
                    0 <= i < n - 1 && identifiers[i] == k && before[k] == table_name_spec(
                        k,
                        #[trigger] draws[i],
                    );
                assert(0 <= i < n && identifiers[i] == k && now[k] == table_name_spec(
                    k,
                    draws[i],
                ));
            } else {
                assert(k == identifier);
                assert(now[k] == table_name_spec(k, draws[n - 1]));
            }
        }
        assert forall|a: Seq<char>, b: Seq<char>|
            now.contains_key(a) && now.contains_key(b) && a != b implies #[trigger] now[a]
            != #[trigger] now[b] by {
            if now != before {
                if a == identifier {
                    assert(before.contains_key(b));
                    assert(before[b] != name);
                } else if b == identifier {
                    assert(before.contains_key(a));
                    assert(before[a] != name);
                }
            }
        }
    }
}

proof fn lemma_loaded_ignores_later_draws(
    identifiers: Seq<Seq<char>>,
    sources: Seq<FileSource>,
    draws: Seq<u128>,
    more: Seq<u128>,
    n: nat,
)
    requires
        n <= draws.len(),
        draws.len() <= more.len(),
        forall|i: int| 0 <= i < draws.len() ==> draws[i] == more[i],
    ensures
        loaded(identifiers, sources, draws, n) == loaded(identifiers, sources, more, n),
    decreases n,
{
    if n > 0 {
        lemma_loaded_ignores_later_draws(identifiers, sources, draws, more, (n - 1) as nat);
    }
}

/// Some identifier stands already for the table whose name the path
/// `filename` gives.
pub open spec fn reuses(map: Map<Seq<char>, Seq<char>>, filename: Seq<char>) -> bool {
    match derived_name(filename) {
        Some(name) => has_value(map, name),
        None => false,
    }
}

/// Takes the file behind `filename` into the store, unless there is none.
///
/// The file is read as a document, its table name is made from its path,
/// and the types of its columns are inferred, or all taken as text where
/// only text is asked for. Where no identifier stands for that table yet,
/// the table is created and filled and `filename` is made to stand for it;
/// where one does, nothing is loaded and the map stays as it is. A number
/// is drawn only for a file whose path gives no table name.
///
/// Without a file it succeeds with nothing; with a file that can be read
/// and whose table is there already it succeeds too. In every other case
/// the store is called upon and decides.
pub fn maybe_load_file(
    files_to_tables: &mut StringMap<String>,
    filename: &str,
    source: Option<&FileSource>,
    db: &mut Db,
    options: &Options,
) -> (r: Result<Option<()>, QsvError>)
    requires
        old(files_to_tables).wf(),
    ensures
        final(files_to_tables).wf(),
        source matches Some(s) && document_in(s.bytes@, s.mime_type@, *options) is Ok && reuses(
            names_of(old(files_to_tables)@),
            filename@,
        ) ==> r == Ok::<Option<()>, QsvError>(Some(())) && names_of(final(files_to_tables)@)
            == names_of(old(files_to_tables)@),
        match source {
            None => r matches Ok(None) && names_of(final(files_to_tables)@) == names_of(
                old(files_to_tables)@,
            ),
            Some(s) => match document_in(s.bytes@, s.mime_type@, *options) {
                Err(failure) => r matches Err(e) && reports(e, failure, s.mime_type@, filename@)
                    && names_of(final(files_to_tables)@) == names_of(old(files_to_tables)@),
                Ok(_) => match r {
                    Ok(outcome) => outcome is Some && exists|n: u128|
                        names_of(final(files_to_tables)@) == with_table(
                            names_of(old(files_to_tables)@),
                            filename@,
                            #[trigger] table_name_spec(filename@, n),
                        ),
                    Err(e) => e is Engine && !reuses(names_of(old(files_to_tables)@), filename@)
                        && names_of(final(files_to_tables)@) == names_of(old(files_to_tables)@),
                },
            },
        },
{
    let s = match source {
        None => {
            return Ok(None);
        },
        Some(s) => s,
    };
    let csv = match csv_data_from_mime_type(
        s.bytes.as_slice(),
        filename,
        s.mime_type.as_str(),
        options,
    ) {
        Ok(csv) => csv,
        Err(error) => {
            return Err(error);
        },
    };
    let ghost mut n: u128 = 0;
    let table = match derived_table_name(filename) {
        Some(name) => name,
        None => {
            let drawn = random_number();
            proof {
                n = drawn;
            }
            fresh_table_name(drawn)
        },
    };
    assert(table@ == table_name_spec(filename@, n));
    let inference = if options.textonly {
        ColumnInference::default_inference(&csv.headers)
    } else {
        ColumnInference::from_csv(&csv)
    };
    proof {
        assert forall|i: int| 0 <= i < csv.names().len() implies inference.type_of(
            #[trigger] csv.names()[i],
        ) is Some by {
            assert(csv.names().contains(csv.names()[i]));
        }
    }
    let table_parameters = to_table_parameters(&csv, &inference);
    if !files_to_tables.contains_value(table.as_str()) {
        match db.create_table(table.as_str(), &table_parameters) {
            Ok(_) => {},
            Err(error) => {
                return Err(error);
            },
        }
        match db.insert(table.as_str(), &csv.headers, &csv.records) {
            Ok(()) => {},
            Err(error) => {
                return Err(error);
            },
        }
        let ghost name = table@;
        files_to_tables.insert(String::from_str(filename), table);
        proof {
            assert(names_of(files_to_tables@) =~= names_of(old(files_to_tables)@).insert(
                filename@,
                name,
            ));
            assert(name == table_name_spec(filename@, n));
        }
    } else {
        assert(table@ == table_name_spec(filename@, n));
    }
    Ok(Some(()))
}

/// No file stands behind any identifier of the statement.
pub open spec fn no_files(statement: Statement, sources: Seq<FileSource>) -> bool {
    match statement {
        Statement::Query(query) => forall|i: int|
            0 <= i < query_identifiers(query_model(*query)).len() ==> source_of(
                sources,
                #[trigger] query_identifiers(query_model(*query))[i],
            ) is None,
        Statement::Other => true,
    }
}

/// Loads every file that the one statement of `statements` names into the
/// store, and rewrites the statement in place so that it names their
/// tables. A query that names no file succeeds without a call upon the
/// store. `sources` holds the files that exist, by identifier; an
/// identifier without a file is passed over and stays as it is. There must
/// be exactly one statement and it must be a query. The first file that
/// cannot be read, or that the store refuses, ends the operation with its
/// error and leaves the statement as it was.
///
/// The result is the map from identifier to table name by which the
/// statement was rewritten.
pub fn execute_query(
    statements: &mut Vec<Statement>,
    sources: &Vec<FileSource>,
    db: &mut Db,
    options: &Options,
) -> (r: Result<StringMap<String>, QsvError>)
    ensures
        r is Err ==> final(statements)@ == old(statements)@,
        old(statements)@.len() == 1 && old(statements)@[0] is Query && no_files(
            old(statements)@[0],
            sources@,
        ) ==> r is Ok,
        old(statements)@.len() != 1 ==> (r matches Err(e) && e is Parse && e.text()
            == expected_one_statement()),
        old(statements)@.len() == 1 ==> match old(statements)@[0] {
            Statement::Other => r matches Err(e) && e is Parse && e.text()
                == unrecognized_statement(),
            Statement::Query(query) => {
                let identifiers = query_identifiers(query_model(*query));
                match r {
                    Ok(map) => {
                        &&& map.wf()
                        &&& final(statements)@.len() == 1
                        &&& statement_model(final(statements)@[0]) == rewrite_statement(
                            statement_model(old(statements)@[0]),
                            names_of(map@),
                        )
                        &&& forall|i: int|
                            0 <= i < identifiers.len() ==> !fails(
                                sources@,
                                *options,
                                #[trigger] identifiers[i],
                            )
                        &&& exists|draws: Seq<u128>|
                            draws.len() == identifiers.len() && names_of(map@) == #[trigger] loaded(
                                identifiers,
                                sources@,
                                draws,
                                identifiers.len(),
                            )
                    },
                    Err(e) => e is Engine || exists|i: int|
                        0 <= i < identifiers.len() && fails(
                            sources@,
                            *options,
                            #[trigger] identifiers[i],
                        ) && reports_failure_of(e, sources@, *options, identifiers[i])
                            && forall|j: int|
                            0 <= j < i ==> !fails(sources@, *options, #[trigger] identifiers[j]),
                }
            },
        },
{
    if statements.len() != 1 {
        return Err(
            QsvError::Parse(String::from_str("Expected exactly one SQL statement in query input")),
        );
    }
    let mut collector = Collector::new();
    match collector.collect(&statements[0]) {
        Ok(()) => {},
        Err(_) => {
            return Err(
                QsvError::Parse(
                    String::from_str("Unrecognized statement: only queries can be run"),
                ),
            );
        },
    }
    let ghost identifiers = collector@;
    assert(identifiers =~= Seq::<Seq<char>>::empty() + identifiers);
    let ghost mut draws: Seq<u128> = Seq::empty();
    let mut files_to_tables: StringMap<String> = StringMap::new();
    assert(names_of(files_to_tables@) =~= Map::<Seq<char>, Seq<char>>::empty());
    let mut i: usize = 0;
    while i < collector.table_identifiers.len()
        invariant
            i <= collector.table_identifiers.len(),
            identifiers == collector@,
            statements@ == old(statements)@,
            statements@.len() == 1,
            statements@[0] matches Statement::Query(query) && identifiers == query_identifiers(
                query_model(*query),
            ),
            files_to_tables.wf(),
            draws.len() == i,
            names_of(files_to_tables@) == loaded(identifiers, sources@, draws, i as nat),
            forall|j: int| 0 <= j < i ==> !fails(sources@, *options, #[trigger] identifiers[j]),
        decreases collector.table_identifiers.len() - i,
    {
        let filename = &collector.table_identifiers[i];
        assert(identifiers[i as int] == filename@);
        let ghost before = names_of(files_to_tables@);
        let source = find_source(sources, filename.as_str());
        match maybe_load_file(&mut files_to_tables, filename.as_str(), source, db, options) {
            Ok(_) => {
                proof {
                    let n = if source is Some {
                        choose|n: u128|
                            names_of(files_to_tables@) == with_table(
                                before,
                                filename@,
                                #[trigger] table_name_spec(filename@, n),
                            )
                    } else {
                        0u128
                    };
                    let more = draws.push(n);
                    lemma_loaded_ignores_later_draws(identifiers, sources@, draws, more, i as nat);
                    assert(more[i as int] == n);
                    draws = more;
                }
            },
            Err(error) => {
                proof {
                    assert(source_of(sources@, identifiers[i as int]) is Some);
                    if !(error is Engine) {
                        assert(fails(sources@, *options, identifiers[i as int]));
                        assert(reports_failure_of(
                            error,
                            sources@,
                            *options,
                            identifiers[i as int],
                        ));
                    }
                }
                return Err(error);
            },
        }
        i += 1;
    }
    let rewriter = Rewriter::new(files_to_tables);
    let _ = rewriter.rewrite(&mut statements[0]);
    Ok(rewriter.into_map())
}

} // verus!
