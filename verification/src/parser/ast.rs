//! The part of a parsed statement that names tables: where tables stand in
//! `FROM` lists, joins, subqueries, set operations and common table
//! expressions.

use crate::text::views;
use vstd::prelude::*;

verus! {

/// One relation of a `FROM` list or of a join.
#[derive(Debug)]
pub enum TableFactor {
    /// A table, by the parts of its name.
    Table { name: Vec<String> },
    /// A parenthesised subquery.
    Derived { subquery: Box<Query> },
    /// A table-valued function call.
    TableFunction,
    /// A parenthesised join.
    NestedJoin,
}

/// A relation and the relations joined to it.
#[derive(Debug)]
pub struct TableWithJoins {
    pub relation: TableFactor,
    pub joins: Vec<TableFactor>,
}

/// A `SELECT`, by its `FROM` list.
#[derive(Debug)]
pub struct Select {
    pub from: Vec<TableWithJoins>,
}

/// The body of a query.
#[derive(Debug)]
pub enum SetExpr {
    Select(Box<Select>),
    Query(Box<Query>),
    SetOperation { left: Box<SetExpr>, right: Box<SetExpr> },
    Values,
    Insert,
}

/// One common table expression of a `WITH` clause.
#[derive(Debug)]
pub struct Cte {
    pub from: Option<String>,
    pub query: Query,
}

/// A query: its common table expressions, then its body.
#[derive(Debug)]
pub struct Query {
    pub ctes: Vec<Cte>,
    pub body: SetExpr,
}

/// A statement: a query, or anything else.
#[derive(Debug)]
pub enum Statement {
    Query(Box<Query>),
    Other,
}

/// A relation, as a value.
pub enum TableFactorModel {
    Table { name: Seq<Seq<char>> },
    Derived { subquery: Box<QueryModel> },
    TableFunction,
    NestedJoin,
}

/// A relation and the relations joined to it, as a value.
pub struct TableWithJoinsModel {
    pub relation: TableFactorModel,
    pub joins: Seq<TableFactorModel>,
}

/// A `SELECT`, as a value.
pub struct SelectModel {
    pub from: Seq<TableWithJoinsModel>,
}

/// The body of a query, as a value.
pub enum SetExprModel {
    Select(SelectModel),
    Query(Box<QueryModel>),
    SetOperation { left: Box<SetExprModel>, right: Box<SetExprModel> },
    Values,
    Insert,
}

/// A common table expression, as a value.
pub struct CteModel {
    pub from: Option<Seq<char>>,
    pub query: QueryModel,
}

/// A query, as a value.
pub struct QueryModel {
    pub ctes: Seq<CteModel>,
    pub body: SetExprModel,
}

/// A statement, as a value.
pub enum StatementModel {
    Query(QueryModel),
    Other,
}

/// The value that a relation stands for.
pub open spec fn factor_model(f: TableFactor) -> TableFactorModel
    decreases f,
{
    match f {
        TableFactor::Table { name } => TableFactorModel::Table { name: views(name@) },
        TableFactor::Derived { subquery } => TableFactorModel::Derived {
            subquery: Box::new(query_model(*subquery)),
        },
        TableFactor::TableFunction => TableFactorModel::TableFunction,
        TableFactor::NestedJoin => TableFactorModel::NestedJoin,
    }
}

/// The values that the relations of `fs` stand for.
pub open spec fn factors_model(fs: Seq<TableFactor>) -> Seq<TableFactorModel>
    decreases fs,
{
    Seq::new(
        fs.len(),
        |i: int|
            if 0 <= i < fs.len() {
                factor_model(fs[i])
            } else {
                TableFactorModel::NestedJoin
            },
    )
}

/// The value that an entry of a `FROM` list stands for.
pub open spec fn table_model(t: TableWithJoins) -> TableWithJoinsModel
    decreases t,
{
    TableWithJoinsModel { relation: factor_model(t.relation), joins: factors_model(t.joins@) }
}

/// The values that the entries of a `FROM` list stand for.
pub open spec fn tables_model(ts: Seq<TableWithJoins>) -> Seq<TableWithJoinsModel>
    decreases ts,
{
    Seq::new(
        ts.len(),
        |i: int|
            if 0 <= i < ts.len() {
                table_model(ts[i])
            } else {
                TableWithJoinsModel { relation: TableFactorModel::NestedJoin, joins: Seq::empty() }
            },
    )
}

/// The value that a query body stands for.
pub open spec fn set_expr_model(e: SetExpr) -> SetExprModel
    decreases e,
{
    match e {
        SetExpr::Select(select) => SetExprModel::Select(
            SelectModel { from: tables_model(select.from@) },
        ),
        SetExpr::Query(query) => SetExprModel::Query(Box::new(query_model(*query))),
        SetExpr::SetOperation { left, right } => SetExprModel::SetOperation {
            left: Box::new(set_expr_model(*left)),
            right: Box::new(set_expr_model(*right)),
        },
        SetExpr::Values => SetExprModel::Values,
        SetExpr::Insert => SetExprModel::Insert,
    }
}

/// The value that a common table expression stands for.
pub open spec fn cte_model(c: Cte) -> CteModel
    decreases c,
{
    CteModel {
        from: match c.from {
            Some(name) => Some(name@),
            None => None,
        },
        query: query_model(c.query),
    }
}

/// The values that the common table expressions of `cs` stand for.
pub open spec fn ctes_model(cs: Seq<Cte>) -> Seq<CteModel>
    decreases cs,
{
    Seq::new(
        cs.len(),
        |i: int|
            if 0 <= i < cs.len() {
                cte_model(cs[i])
            } else {
                CteModel {
                    from: None,
                    query: QueryModel { ctes: Seq::empty(), body: SetExprModel::Values },
                }
            },
    )
}

/// The value that a query stands for.
pub open spec fn query_model(q: Query) -> QueryModel
    decreases q,
{
    QueryModel { ctes: ctes_model(q.ctes@), body: set_expr_model(q.body) }
}

/// The value that a statement stands for.
pub open spec fn statement_model(s: Statement) -> StatementModel {
    match s {
        Statement::Query(query) => StatementModel::Query(query_model(*query)),
        Statement::Other => StatementModel::Other,
    }
}

} // verus!
