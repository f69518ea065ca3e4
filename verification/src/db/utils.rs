//! The text of the statements that create and fill a table.

use crate::csv::csv_data::{CsvData, CsvType};
use crate::csv::inference::ColumnInference;
use crate::text::{chars_of, join, join_strings, views};
use vstd::prelude::*;
use vstd::string::StringExecFns;

verus! {

/// The most placeholders that one statement may carry.
pub const MAX_VARS: usize = 1000;

/// `name` with every `"` written twice.
pub open spec fn doubled_quotes(name: Seq<char>) -> Seq<char>
    decreases name.len(),
{
    if name.len() == 0 {
        Seq::empty()
    } else if name.last() == '"' {
        doubled_quotes(name.drop_last()).push('"').push('"')
    } else {
        doubled_quotes(name.drop_last()).push(name.last())
    }
}

/// `name` as a quoted identifier: between two `"`, with every `"` of its
/// own written twice.
pub open spec fn quoted(name: Seq<char>) -> Seq<char> {
    seq!['"'] + doubled_quotes(name) + seq!['"']
}

/// `count` question marks with a comma between each two.
pub open spec fn placeholders(count: nat) -> Seq<char>
    decreases count,
{
    if count == 0 {
        Seq::empty()
    } else if count == 1 {
        seq!['?']
    } else {
        placeholders((count - 1) as nat).push(',').push('?')
    }
}

/// The name of the column type that holds cells of type `t`.
pub open spec fn sql_type(t: CsvType) -> Seq<char> {
    match t {
        CsvType::Integer => "integer"@,
        CsvType::Float => "real"@,
        CsvType::String => "text"@,
    }
}

/// The definition of a column: its quoted name, a space, and its type.
pub open spec fn column_definition(name: Seq<char>, t: CsvType) -> Seq<char> {
    quoted(name) + seq![' '] + sql_type(t)
}

/// `CREATE TABLE`, the quoted table name, and the column definitions in
/// parentheses with `, ` between them.
pub open spec fn create_table_statement(name: Seq<char>, definitions: Seq<Seq<char>>) -> Seq<
    char,
> {
    "CREATE TABLE "@ + quoted(name) + " ("@ + join(definitions, ", "@) + ")"@
}

/// `INSERT INTO`, the quoted table name, the quoted field names in
/// parentheses with `,` between them, and one placeholder for each field.
pub open spec fn insert_statement(name: Seq<char>, fields: Seq<Seq<char>>) -> Seq<char> {
    "INSERT INTO "@ + quoted(name) + " ("@ + join(
        fields.map_values(|f: Seq<char>| quoted(f)),
        ","@,
    ) + ") VALUES ("@ + placeholders(fields.len()) + ")"@
}

/// `count` question marks for use in a statement, with a comma between each
/// two.
pub fn repeat_vars(count: usize) -> (r: String)
    requires
        0 < count <= MAX_VARS,
    ensures
        r@ == placeholders(count as nat),
{
    let mut s = String::new();
    s.push('?');
    let mut i: usize = 1;
    while i < count
        invariant
            1 <= i <= count,
            s@ == placeholders(i as nat),
        decreases count - i,
    {
        s.push(',');
        s.push('?');
        i += 1;
    }
    s
}

/// Quotes a table name.
pub fn escape_table(table_name: &str) -> (r: String)
    ensures
        r@ == quoted(table_name@),
{
    let chars = chars_of(table_name);
    let mut out = String::new();
    out.push('"');
    let mut i: usize = 0;
    assert(chars@.take(0) =~= Seq::<char>::empty());
    while i < chars.len()
        invariant
            i <= chars.len(),
            out@ == seq!['"'] + doubled_quotes(chars@.take(i as int)),
        decreases chars.len() - i,
    {
        let c = chars[i];
        proof {
            assert(chars@.take(i as int + 1).drop_last() =~= chars@.take(i as int));
            assert(chars@.take(i as int + 1).last() == c);
        }
        if c == '"' {
            out.push('"');
            out.push('"');
        } else {
            out.push(c);
        }
        assert(out@ =~= seq!['"'] + doubled_quotes(chars@.take(i as int + 1)));
        i += 1;
    }
    assert(chars@.take(chars.len() as int) =~= chars@);
    out.push('"');
    assert(out@ =~= quoted(table_name@));
    out
}

/// Quotes each field name.
pub fn escape_fields(fields: &Vec<String>) -> (r: Vec<String>)
    ensures
        views(r@) == views(fields@).map_values(|f: Seq<char>| quoted(f)),
{
    let mut out: Vec<String> = Vec::new();
    let mut i: usize = 0;
    while i < fields.len()
        invariant
            i <= fields.len(),
            out@.len() == i,
            forall|j: int| 0 <= j < i ==> #[trigger] out@[j]@ == quoted(fields@[j]@),
        decreases fields.len() - i,
    {
        out.push(escape_table(fields[i].as_str()));
        i += 1;
    }
    assert(views(out@) =~= views(fields@).map_values(|f: Seq<char>| quoted(f)));
    out
}

/// The definitions of the columns of a document: for each header, in
/// order, its quoted name and the column type for its inferred type.
pub fn to_table_parameters(csv_data: &CsvData, column_inference: &ColumnInference) -> (r: Vec<
    String,
>)
    requires
        forall|i: int|
            0 <= i < csv_data.names().len() ==> column_inference.type_of(
                #[trigger] csv_data.names()[i],
            ) is Some,
    ensures
        r@.len() == csv_data.names().len(),
        forall|i: int|
            0 <= i < r@.len() ==> #[trigger] r@[i]@ == column_definition(
                csv_data.names()[i],
                column_inference.type_of(csv_data.names()[i]).unwrap(),
            ),
{
    let mut out: Vec<String> = Vec::new();
    let mut i: usize = 0;
    while i < csv_data.headers.len()
        invariant
            i <= csv_data.headers.len(),
            out@.len() == i,
            forall|j: int|
                0 <= j < csv_data.names().len() ==> column_inference.type_of(
                    #[trigger] csv_data.names()[j],
                ) is Some,
            forall|j: int|
                0 <= j < i ==> #[trigger] out@[j]@ == column_definition(
                    csv_data.names()[j],
                    column_inference.type_of(csv_data.names()[j]).unwrap(),
                ),
        decreases csv_data.headers.len() - i,
    {
        let header = &csv_data.headers[i];
        assert(csv_data.names()[i as int] == header@);
        let mut definition = escape_table(header.as_str());
        definition.push(' ');
        match column_inference.get_type(header.clone()) {
            Some(t) => {
                let column_kind = match t {
                    CsvType::Integer => "integer",
                    CsvType::Float => "real",
                    CsvType::String => "text",
                };
                definition.append(column_kind);
            },
            None => vstd::pervasive::unreached(),
        }
        assert(definition@ =~= column_definition(
            csv_data.names()[i as int],
            column_inference.type_of(csv_data.names()[i as int]).unwrap(),
        ));
        out.push(definition);
        i += 1;
    }
    out
}

/// The statement that creates the table `table_name` with the given column
/// definitions.
pub fn create_table_sql(table_name: &str, definitions: &Vec<String>) -> (r: String)
    ensures
        r@ == create_table_statement(table_name@, views(definitions@)),
{
    let mut sql = String::from_str("CREATE TABLE ");
    sql.append(escape_table(table_name).as_str());
    sql.append(" (");
    sql.append(join_strings(definitions, ", ").as_str());
    sql.append(")");
    assert(sql@ =~= create_table_statement(table_name@, views(definitions@)));
    sql
}

/// The statement that inserts one record into the table `table_name`, with
/// a placeholder for each field.
pub fn insert_sql(table_name: &str, fields: &Vec<String>) -> (r: String)
    requires
        0 < fields@.len() <= MAX_VARS,
    ensures
        r@ == insert_statement(table_name@, views(fields@)),
{
    let mut sql = String::from_str("INSERT INTO ");
    sql.append(escape_table(table_name).as_str());
    sql.append(" (");
    let escaped = escape_fields(fields);
    sql.append(join_strings(&escaped, ",").as_str());
    sql.append(") VALUES (");
    sql.append(repeat_vars(fields.len()).as_str());
    sql.append(")");
    assert(sql@ =~= insert_statement(table_name@, views(fields@)));
    sql
}

} // verus!
