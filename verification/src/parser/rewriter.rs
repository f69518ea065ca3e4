//! Replaces table identifiers in a statement by the table names they are
//! mapped to.

use crate::parser::ast::{
    cte_model, ctes_model, factor_model, factors_model, query_model, set_expr_model, table_model,
    tables_model, CteModel, Query, QueryModel, Select, SelectModel, SetExpr, SetExprModel,
    Statement, StatementModel, TableFactor, TableFactorModel, TableWithJoins,
    TableWithJoinsModel, statement_model,
};
use crate::parser::collector::ParserError;
use crate::string_map::{names_of, StringMap};
use crate::text::views;
use vstd::prelude::*;

verus! {

/// The name that `name` is rewritten to: what the map gives for it, or the
/// name itself where the map has no entry for it.
pub open spec fn apply(map: Map<Seq<char>, Seq<char>>, name: Seq<char>) -> Seq<char> {
    if map.contains_key(name) {
        map[name]
    } else {
        name
    }
}

/// Every name of `names`, rewritten.
pub open spec fn rewrite_names(names: Seq<Seq<char>>, map: Map<Seq<char>, Seq<char>>) -> Seq<
    Seq<char>,
> {
    names.map_values(|name: Seq<char>| apply(map, name))
}

/// A table has each part of its name rewritten, a derived table its
/// subquery; table functions and nested joins stay as they are.
pub open spec fn rewrite_factor(
    f: TableFactorModel,
    map: Map<Seq<char>, Seq<char>>,
) -> TableFactorModel
    decreases f,
{
    match f {
        TableFactorModel::Table { name } => TableFactorModel::Table {
            name: rewrite_names(name, map),
        },
        TableFactorModel::Derived { subquery } => TableFactorModel::Derived {
            subquery: Box::new(rewrite_query(*subquery, map)),
        },
        TableFactorModel::TableFunction => f,
        TableFactorModel::NestedJoin => f,
    }
}

/// Every relation of `fs`, rewritten.
pub open spec fn rewrite_factors(
    fs: Seq<TableFactorModel>,
    map: Map<Seq<char>, Seq<char>>,
) -> Seq<TableFactorModel>
    decreases fs,
{
    Seq::new(
        fs.len(),
        |i: int|
            if 0 <= i < fs.len() {
                rewrite_factor(fs[i], map)
            } else {
                TableFactorModel::NestedJoin
            },
    )
}

/// A relation and the relations joined to it, each rewritten.
pub open spec fn rewrite_table(
    t: TableWithJoinsModel,
    map: Map<Seq<char>, Seq<char>>,
) -> TableWithJoinsModel
    decreases t,
{
    TableWithJoinsModel {
        relation: rewrite_factor(t.relation, map),
        joins: rewrite_factors(t.joins, map),
    }
}

/// Every entry of a `FROM` list, rewritten.
pub open spec fn rewrite_tables(
    ts: Seq<TableWithJoinsModel>,
    map: Map<Seq<char>, Seq<char>>,
) -> Seq<TableWithJoinsModel>
    decreases ts,
{
    Seq::new(
        ts.len(),
        |i: int|
            if 0 <= i < ts.len() {
                rewrite_table(ts[i], map)
            } else {
                TableWithJoinsModel { relation: TableFactorModel::NestedJoin, joins: Seq::empty() }
            },
    )
}

/// A query body with its `FROM` list, its parenthesised query or both
/// sides of its set operation rewritten.
pub open spec fn rewrite_set_expr(e: SetExprModel, map: Map<Seq<char>, Seq<char>>) -> SetExprModel
    decreases e,
{
    match e {
        SetExprModel::Select(select) => SetExprModel::Select(
            SelectModel { from: rewrite_tables(select.from, map) },
        ),
        SetExprModel::Query(query) => SetExprModel::Query(Box::new(rewrite_query(*query, map))),
        SetExprModel::SetOperation { left, right } => SetExprModel::SetOperation {
            left: Box::new(rewrite_set_expr(*left, map)),
            right: Box::new(rewrite_set_expr(*right, map)),
        },
        SetExprModel::Values => e,
        SetExprModel::Insert => e,
    }
}

/// A common table expression has its query rewritten; the identifier it
/// reads from stays as it is.
pub open spec fn rewrite_cte(c: CteModel, map: Map<Seq<char>, Seq<char>>) -> CteModel
    decreases c,
{
    CteModel { from: c.from, query: rewrite_query(c.query, map) }
}

/// Every common table expression of `cs`, rewritten.
pub open spec fn rewrite_ctes(cs: Seq<CteModel>, map: Map<Seq<char>, Seq<char>>) -> Seq<CteModel>
    decreases cs,
{
    Seq::new(
        cs.len(),
        |i: int|
            if 0 <= i < cs.len() {
                rewrite_cte(cs[i], map)
            } else {
                CteModel {
                    from: None,
                    query: QueryModel { ctes: Seq::empty(), body: SetExprModel::Values },
                }
            },
    )
}

/// A query with its common table expressions and its body rewritten.
pub open spec fn rewrite_query(q: QueryModel, map: Map<Seq<char>, Seq<char>>) -> QueryModel
    decreases q,
{
    QueryModel { ctes: rewrite_ctes(q.ctes, map), body: rewrite_set_expr(q.body, map) }
}

/// A query statement has its query rewritten; any other statement stays as
/// it is.
pub open spec fn rewrite_statement(
    s: StatementModel,
    map: Map<Seq<char>, Seq<char>>,
) -> StatementModel {
    match s {
        StatementModel::Query(query) => StatementModel::Query(rewrite_query(query, map)),
        StatementModel::Other => s,
    }
}

/// Rewrites statements by a map from table identifiers to table names.
pub struct Rewriter {
    files_to_tables: StringMap<String>,
}

impl Rewriter {
    /// The map from identifier to table name.
    pub closed spec fn mapping(&self) -> Map<Seq<char>, Seq<char>> {
        names_of(self.files_to_tables@)
    }

    /// A rewriter that replaces each key of `files_to_tables` by its value.
    pub fn new(files_to_tables: StringMap<String>) -> (r: Rewriter)
        ensures
            r.mapping() == names_of(files_to_tables@),
            r.map() == files_to_tables,
    {
        Rewriter { files_to_tables }
    }

    /// The map that the rewriter holds.
    pub closed spec fn map(&self) -> StringMap<String> {
        self.files_to_tables
    }

    /// Gives the map back.
    pub fn into_map(self) -> (m: StringMap<String>)
        ensures
            m == self.map(),
            names_of(m@) == self.mapping(),
    {
        self.files_to_tables
    }

    fn handle_relation(&self, relation: &mut TableFactor)
        ensures
            factor_model(*final(relation)) == rewrite_factor(
                factor_model(*old(relation)),
                self.mapping(),
            ),
        decreases *old(relation),
    {
        match relation {
            TableFactor::Table { name } => {
                let ghost before = views(name@);
                let mut i: usize = 0;
                while i < name.len()
                    invariant
                        i <= name.len(),
                        name@.len() == before.len(),
                        forall|j: int|
                            0 <= j < i ==> #[trigger] name@[j]@ == apply(self.mapping(), before[j]),
                        forall|j: int| i <= j < before.len() ==> #[trigger] name@[j]@ == before[j],
                    decreases name.len() - i,
                {
                    match self.files_to_tables.get(name[i].as_str()) {
                        Some(entry) => {
                            let replacement = entry.clone();
                            name.set(i, replacement);
                        },
                        None => {},
                    }
                    i += 1;
                }
                assert(views(name@) =~= rewrite_names(before, self.mapping()));
            },
            TableFactor::Derived { subquery } => {
                self.recurse_query(&mut **subquery);
            },
            TableFactor::TableFunction => {},
            TableFactor::NestedJoin => {},
        }
    }

    fn recurse_table_with_joins(&self, from: &mut TableWithJoins)
        ensures
            table_model(*final(from)) == rewrite_table(table_model(*old(from)), self.mapping()),
        decreases *old(from),
    {
        let ghost before = factors_model(from.joins@);
        self.handle_relation(&mut from.relation);
        let ghost relation = factor_model(from.relation);
        let mut i: usize = 0;
        while i < from.joins.len()
            invariant
                i <= from.joins.len(),
                from.joins@.len() == before.len(),
                before == factors_model(old(from).joins@),
                factor_model(from.relation) == relation,
                forall|j: int|
                    0 <= j < i ==> factor_model(#[trigger] from.joins@[j]) == rewrite_factor(
                        before[j],
                        self.mapping(),
                    ),
                forall|j: int| i <= j < before.len() ==> #[trigger] from.joins@[j] == old(
                    from,
                ).joins@[j],
            decreases from.joins.len() - i,
        {
            self.handle_relation(&mut from.joins[i]);
            i += 1;
        }
        assert(factors_model(from.joins@) =~= rewrite_factors(before, self.mapping()));
    }

    fn recurse_tables(&self, from: &mut Vec<TableWithJoins>)
        ensures
            tables_model(final(from)@) == rewrite_tables(tables_model(old(from)@), self.mapping()),
        decreases *old(from),
    {
        let ghost before = tables_model(from@);
        let mut i: usize = 0;
        while i < from.len()
            invariant
                i <= from.len(),
                from@.len() == before.len(),
                before == tables_model(old(from)@),
                forall|j: int|
                    0 <= j < i ==> table_model(#[trigger] from@[j]) == rewrite_table(
                        before[j],
                        self.mapping(),
                    ),
                forall|j: int| i <= j < before.len() ==> #[trigger] from@[j] == old(from)@[j],
            decreases from.len() - i,
        {
            self.recurse_table_with_joins(&mut from[i]);
            i += 1;
        }
        assert(tables_model(from@) =~= rewrite_tables(before, self.mapping()));
    }

    fn recurse_select(&self, select: &mut Select)
        ensures
            tables_model(final(select).from@) == rewrite_tables(
                tables_model(old(select).from@),
                self.mapping(),
            ),
        decreases *old(select),
    {
        self.recurse_tables(&mut select.from);
    }

    fn recurse_set_expr(&self, body: &mut SetExpr)
        ensures
            set_expr_model(*final(body)) == rewrite_set_expr(
                set_expr_model(*old(body)),
                self.mapping(),
            ),
        decreases *old(body),
    {
        match body {
            SetExpr::Select(select) => {
                self.recurse_select(&mut **select);
            },
            SetExpr::Query(query) => {
                self.recurse_query(&mut **query);
            },
            SetExpr::SetOperation { left, right } => {
                self.recurse_set_expr(&mut **left);
                self.recurse_set_expr(&mut **right);
            },
            SetExpr::Values => {},
            SetExpr::Insert => {},
        }
    }

    fn recurse_query(&self, query: &mut Query)
        ensures
            query_model(*final(query)) == rewrite_query(query_model(*old(query)), self.mapping()),
        decreases *old(query),
    {
        let ghost before = ctes_model(query.ctes@);
        let mut i: usize = 0;
        while i < query.ctes.len()
            invariant
                i <= query.ctes.len(),
                query.ctes@.len() == before.len(),
                before == ctes_model(old(query).ctes@),
                query.body == old(query).body,
                forall|j: int|
                    0 <= j < i ==> cte_model(#[trigger] query.ctes@[j]) == rewrite_cte(
                        before[j],
                        self.mapping(),
                    ),
                forall|j: int| i <= j < before.len() ==> #[trigger] query.ctes@[j] == old(
                    query,
                ).ctes@[j],
            decreases query.ctes.len() - i,
        {
            self.recurse_query(&mut query.ctes[i].query);
            i += 1;
        }
        assert(ctes_model(query.ctes@) =~= rewrite_ctes(before, self.mapping()));
        self.recurse_set_expr(&mut query.body);
    }

    /// Rewrites, in a query statement, every part of every table name that
    /// is a key of the map to the name the map gives for it; subqueries of
    /// derived tables, both sides of set operations and the queries of
    /// common table expressions are rewritten in the same way. Any other
    /// statement is refused and left as it is.
    pub fn rewrite(&self, ast: &mut Statement) -> (r: Result<(), ParserError>)
        ensures
            statement_model(*final(ast)) == rewrite_statement(
                statement_model(*old(ast)),
                self.mapping(),
            ),
            r is Ok <==> *old(ast) is Query,
            r is Err ==> r == Err::<(), ParserError>(ParserError::UnrecognizedStatement),
    {
        match ast {
            Statement::Query(query) => {
                self.recurse_query(&mut **query);
                Ok(())
            },
            Statement::Other => Err(ParserError::UnrecognizedStatement),
        }
    }
}

} // verus!
