//! Collects the table identifiers of a statement, in source order.

use crate::parser::ast::{
    cte_model, ctes_model, factor_model, factors_model, query_model, set_expr_model, table_model,
    tables_model, CteModel, Query, QueryModel, SetExpr, SetExprModel, Statement,
    TableFactor, TableFactorModel, TableWithJoins, TableWithJoinsModel,
};
use crate::text::views;
use vstd::prelude::*;

verus! {

/// The names that one relation holds. With `tables`, the parts of a table's
/// name count; a derived table holds what its subquery holds; table
/// functions and nested joins hold nothing.
pub open spec fn factor_names(f: TableFactorModel, tables: bool, sources: bool) -> Seq<Seq<char>>
    decreases f,
{
    match f {
        TableFactorModel::Table { name } => if tables {
            name
        } else {
            Seq::empty()
        },
        TableFactorModel::Derived { subquery } => query_names(*subquery, tables, sources),
        TableFactorModel::TableFunction => Seq::empty(),
        TableFactorModel::NestedJoin => Seq::empty(),
    }
}

/// The names of the relations of `fs`, in order.
pub open spec fn factors_names(fs: Seq<TableFactorModel>, tables: bool, sources: bool) -> Seq<
    Seq<char>,
>
    decreases fs,
{
    if fs.len() == 0 {
        Seq::empty()
    } else {
        factors_names(fs.drop_last(), tables, sources) + factor_names(fs.last(), tables, sources)
    }
}

/// The names of a relation, then those of each relation joined to it.
pub open spec fn table_names(t: TableWithJoinsModel, tables: bool, sources: bool) -> Seq<
    Seq<char>,
>
    decreases t,
{
    factor_names(t.relation, tables, sources) + factors_names(t.joins, tables, sources)
}

/// The names of the entries of a `FROM` list, in order.
pub open spec fn tables_names(ts: Seq<TableWithJoinsModel>, tables: bool, sources: bool) -> Seq<
    Seq<char>,
>
    decreases ts,
{
    if ts.len() == 0 {
        Seq::empty()
    } else {
        tables_names(ts.drop_last(), tables, sources) + table_names(ts.last(), tables, sources)
    }
}

/// The names of a query body: those of a `FROM` list, of a parenthesised
/// query, or of both sides of a set operation.
pub open spec fn set_expr_names(e: SetExprModel, tables: bool, sources: bool) -> Seq<Seq<char>>
    decreases e,
{
    match e {
        SetExprModel::Select(select) => tables_names(select.from, tables, sources),
        SetExprModel::Query(query) => query_names(*query, tables, sources),
        SetExprModel::SetOperation { left, right } => set_expr_names(*left, tables, sources)
            + set_expr_names(*right, tables, sources),
        SetExprModel::Values => Seq::empty(),
        SetExprModel::Insert => Seq::empty(),
    }
}

/// With `sources`, the identifier that a common table expression reads
/// from, if it names one; then the names of its query.
pub open spec fn cte_names(c: CteModel, tables: bool, sources: bool) -> Seq<Seq<char>>
    decreases c,
{
    (match c.from {
        Some(name) => if sources {
            seq![name]
        } else {
            Seq::empty()
        },
        None => Seq::empty(),
    }) + query_names(c.query, tables, sources)
}

/// The names of the common table expressions of `cs`, in order.
pub open spec fn ctes_names(cs: Seq<CteModel>, tables: bool, sources: bool) -> Seq<Seq<char>>
    decreases cs,
{
    if cs.len() == 0 {
        Seq::empty()
    } else {
        ctes_names(cs.drop_last(), tables, sources) + cte_names(cs.last(), tables, sources)
    }
}

/// The names of a query in source order: those of its common table
/// expressions, then those of its body. `tables` selects the parts of table
/// names, `sources` the identifiers that common table expressions read from.
pub open spec fn query_names(q: QueryModel, tables: bool, sources: bool) -> Seq<Seq<char>>
    decreases q,
{
    ctes_names(q.ctes, tables, sources) + set_expr_names(q.body, tables, sources)
}

/// Every table identifier of a query, in source order.
pub open spec fn query_identifiers(q: QueryModel) -> Seq<Seq<char>> {
    query_names(q, true, true)
}

/// What went wrong while a statement was walked.
#[derive(Debug, Clone, Copy, PartialEq, Eq, Structural)]
pub enum ParserError {
    /// The statement is not a query.
    UnrecognizedStatement,
}

/// The table identifiers found so far, in the order in which they were met.
pub struct Collector {
    pub table_identifiers: Vec<String>,
}

impl Default for Collector {
    fn default() -> (c: Self)
        ensures
            c@ == Seq::<Seq<char>>::empty(),
    {
        Collector::new()
    }
}

impl Collector {
    /// The identifiers found so far.
    pub open spec fn view(&self) -> Seq<Seq<char>> {
        views(self.table_identifiers@)
    }

    /// A collector that has found nothing yet.
    pub fn new() -> (c: Collector)
        ensures
            c@ == Seq::<Seq<char>>::empty(),
    {
        let c = Collector { table_identifiers: Vec::new() };
        assert(c@ =~= Seq::<Seq<char>>::empty());
        c
    }

    /// Appends the table identifiers of a query statement, in source order.
    /// Any other statement is refused and nothing is appended.
    pub fn collect(&mut self, ast: &Statement) -> (r: Result<(), ParserError>)
        ensures
            match ast {
                Statement::Query(query) => r is Ok && final(self)@ == old(self)@
                    + query_identifiers(query_model(**query)),
                Statement::Other => r == Err::<(), ParserError>(ParserError::UnrecognizedStatement)
                    && final(self)@ == old(self)@,
            },
    {
        match ast {
            Statement::Query(query) => {
                self.recurse_query(query);
                Ok(())
            },
            Statement::Other => Err(ParserError::UnrecognizedStatement),
        }
    }

    fn push_identifier(&mut self, name: &String)
        ensures
            final(self)@ == old(self)@.push(name@),
    {
        self.table_identifiers.push(name.clone());
        assert(self@ =~= old(self)@.push(name@));
    }

    fn recurse_query(&mut self, query: &Query)
        ensures
            final(self)@ == old(self)@ + query_identifiers(query_model(*query)),
        decreases query,
    {
        let ghost ctes = ctes_model(query.ctes@);
        let mut i: usize = 0;
        assert(ctes.take(0) =~= Seq::<CteModel>::empty());
        assert(self@ =~= old(self)@ + ctes_names(ctes.take(0), true, true));
        while i < query.ctes.len()
            invariant
                i <= query.ctes.len(),
                ctes == ctes_model(query.ctes@),
                self@ == old(self)@ + ctes_names(ctes.take(i as int), true, true),
            decreases query.ctes.len() - i,
        {
            let cte = &query.ctes[i];
            let ghost before = self@;
            match &cte.from {
                Some(name) => {
                    self.push_identifier(name);
                },
                None => {},
            }
            self.recurse_query(&cte.query);
            proof {
                let next = ctes.take(i as int + 1);
                assert(next.drop_last() =~= ctes.take(i as int));
                assert(next.last() == cte_model(*cte));
                assert(self@ =~= before + cte_names(cte_model(*cte), true, true));
                assert(self@ =~= old(self)@ + ctes_names(next, true, true));
            }
            i += 1;
        }
        assert(ctes.take(query.ctes.len() as int) =~= ctes);
        let ghost before = self@;
        self.recurse_set_expr(&query.body);
        assert(self@ =~= old(self)@ + query_identifiers(query_model(*query)));
    }

    fn recurse_set_expr(&mut self, body: &SetExpr)
        ensures
            final(self)@ == old(self)@ + set_expr_names(set_expr_model(*body), true, true),
        decreases body,
    {
        match body {
            SetExpr::Select(select) => {
                self.recurse_tables(&select.from);
            },
            SetExpr::Query(query) => {
                self.recurse_query(query);
            },
            SetExpr::SetOperation { left, right } => {
                self.recurse_set_expr(left);
                self.recurse_set_expr(right);
                assert(self@ =~= old(self)@ + set_expr_names(set_expr_model(*body), true, true));
            },
            SetExpr::Values => {
                assert(self@ =~= old(self)@ + Seq::<Seq<char>>::empty());
            },
            SetExpr::Insert => {
                assert(self@ =~= old(self)@ + Seq::<Seq<char>>::empty());
            },
        }
    }

    fn recurse_tables(&mut self, from: &Vec<TableWithJoins>)
        ensures
            final(self)@ == old(self)@ + tables_names(tables_model(from@), true, true),
        decreases from,
    {
        let ghost tables = tables_model(from@);
        let mut i: usize = 0;
        assert(tables.take(0) =~= Seq::<TableWithJoinsModel>::empty());
        assert(self@ =~= old(self)@ + tables_names(tables.take(0), true, true));
        while i < from.len()
            invariant
                i <= from.len(),
                tables == tables_model(from@),
                self@ == old(self)@ + tables_names(tables.take(i as int), true, true),
            decreases from.len() - i,
        {
            let ghost before = self@;
            self.recurse_table_with_joins(&from[i]);
            proof {
                let next = tables.take(i as int + 1);
                assert(next.drop_last() =~= tables.take(i as int));
                assert(next.last() == table_model(from@[i as int]));
                assert(self@ =~= old(self)@ + tables_names(next, true, true));
            }
            i += 1;
        }
        assert(tables.take(from.len() as int) =~= tables);
    }

    fn recurse_table_with_joins(&mut self, from: &TableWithJoins)
        ensures
            final(self)@ == old(self)@ + table_names(table_model(*from), true, true),
        decreases from,
    {
        self.handle_relation(&from.relation);
        let ghost middle = self@;
        let ghost joins = factors_model(from.joins@);
        let mut i: usize = 0;
        assert(joins.take(0) =~= Seq::<TableFactorModel>::empty());
        assert(self@ =~= middle + factors_names(joins.take(0), true, true));
        while i < from.joins.len()
            invariant
                i <= from.joins.len(),
                joins == factors_model(from.joins@),
                self@ == middle + factors_names(joins.take(i as int), true, true),
            decreases from.joins.len() - i,
        {
            self.handle_relation(&from.joins[i]);
            proof {
                let next = joins.take(i as int + 1);
                assert(next.drop_last() =~= joins.take(i as int));
                assert(next.last() == factor_model(from.joins@[i as int]));
                assert(self@ =~= middle + factors_names(next, true, true));
            }
            i += 1;
        }
        assert(joins.take(from.joins.len() as int) =~= joins);
        assert(self@ =~= old(self)@ + table_names(table_model(*from), true, true));
    }

    fn handle_relation(&mut self, relation: &TableFactor)
        ensures
            final(self)@ == old(self)@ + factor_names(factor_model(*relation), true, true),
        decreases relation,
    {
        match relation {
            TableFactor::Table { name } => {
                let ghost parts = views(name@);
                let mut i: usize = 0;
                assert(self@ =~= old(self)@ + parts.take(0));
                while i < name.len()
                    invariant
                        i <= name.len(),
                        parts == views(name@),
                        self@ == old(self)@ + parts.take(i as int),
                    decreases name.len() - i,
                {
                    self.push_identifier(&name[i]);
                    assert(self@ =~= old(self)@ + parts.take(i as int + 1));
                    i += 1;
                }
                assert(parts.take(name.len() as int) =~= parts);
            },
            TableFactor::Derived { subquery } => {
                self.recurse_query(subquery);
            },
            TableFactor::TableFunction => {
                assert(self@ =~= old(self)@ + Seq::<Seq<char>>::empty());
            },
            TableFactor::NestedJoin => {
                assert(self@ =~= old(self)@ + Seq::<Seq<char>>::empty());
            },
        }
    }
}

} // verus!
