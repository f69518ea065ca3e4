//! What rewriting does to the names of a statement.

use crate::parser::ast::{
    CteModel, QueryModel, SetExprModel, TableFactorModel, TableWithJoinsModel,
};
use crate::parser::collector::{
    cte_names, ctes_names, factor_names, factors_names, query_identifiers, query_names,
    set_expr_names, table_names, tables_names,
};
use crate::parser::rewriter::{
    apply, rewrite_cte, rewrite_ctes, rewrite_factor, rewrite_factors, rewrite_names,
    rewrite_query, rewrite_set_expr, rewrite_table, rewrite_tables,
};
use vstd::prelude::*;

verus! {

/// `p` holds of every name of `names`.
pub open spec fn every(names: Seq<Seq<char>>, p: spec_fn(Seq<char>) -> bool) -> bool {
    forall|i: int| 0 <= i < names.len() ==> p(#[trigger] names[i])
}

/// The map leaves `name` as it is.
pub open spec fn fixed(map: Map<Seq<char>, Seq<char>>) -> spec_fn(Seq<char>) -> bool {
    |name: Seq<char>| apply(map, name) == name
}

/// Rewriting what `name` is rewritten to changes nothing more.
pub open spec fn settled(map: Map<Seq<char>, Seq<char>>) -> spec_fn(Seq<char>) -> bool {
    |name: Seq<char>| apply(map, apply(map, name)) == apply(map, name)
}

proof fn lemma_every_concat(a: Seq<Seq<char>>, b: Seq<Seq<char>>, p: spec_fn(Seq<char>) -> bool)
    ensures
        every(a + b, p) == (every(a, p) && every(b, p)),
{
    if every(a + b, p) {
        assert forall|i: int| 0 <= i < a.len() implies p(#[trigger] a[i]) by {
            assert((a + b)[i] == a[i]);
        }
        assert forall|i: int| 0 <= i < b.len() implies p(#[trigger] b[i]) by {
            assert((a + b)[a.len() + i] == b[i]);
        }
    }
    if every(a, p) && every(b, p) {
        assert forall|i: int| 0 <= i < (a + b).len() implies p(#[trigger] (a + b)[i]) by {
            if i < a.len() {
                assert((a + b)[i] == a[i]);
            } else {
                assert((a + b)[i] == b[i - a.len()]);
            }
        }
    }
}

proof fn lemma_rewrite_names_concat(
    a: Seq<Seq<char>>,
    b: Seq<Seq<char>>,
    map: Map<Seq<char>, Seq<char>>,
)
    ensures
        rewrite_names(a + b, map) == rewrite_names(a, map) + rewrite_names(b, map),
{
    assert(rewrite_names(a + b, map) =~= rewrite_names(a, map) + rewrite_names(b, map));
}

proof fn lemma_rewrite_names_fixed(names: Seq<Seq<char>>, map: Map<Seq<char>, Seq<char>>)
    requires
        every(names, fixed(map)),
    ensures
        rewrite_names(names, map) == names,
{
    assert(rewrite_names(names, map) =~= names);
}

proof fn lemma_names_of_rewritten_factor(
    f: TableFactorModel,
    map: Map<Seq<char>, Seq<char>>,
    tables: bool,
    sources: bool,
)
    requires
        sources ==> every(factor_names(f, false, true), fixed(map)),
    ensures
        factor_names(rewrite_factor(f, map), tables, sources) == rewrite_names(
            factor_names(f, tables, sources),
            map,
        ),
    decreases f,
{
    match f {
        TableFactorModel::Table { name } => {
            assert(rewrite_names(Seq::<Seq<char>>::empty(), map) =~= Seq::<Seq<char>>::empty());
        },
        TableFactorModel::Derived { subquery } => {
            lemma_names_of_rewritten_query(*subquery, map, tables, sources);
        },
        TableFactorModel::TableFunction => {
            assert(rewrite_names(Seq::<Seq<char>>::empty(), map) =~= Seq::<Seq<char>>::empty());
        },
        TableFactorModel::NestedJoin => {
            assert(rewrite_names(Seq::<Seq<char>>::empty(), map) =~= Seq::<Seq<char>>::empty());
        },
    }
}

proof fn lemma_names_of_rewritten_factors(
    fs: Seq<TableFactorModel>,
    map: Map<Seq<char>, Seq<char>>,
    tables: bool,
    sources: bool,
)
    requires
        sources ==> every(factors_names(fs, false, true), fixed(map)),
    ensures
        factors_names(rewrite_factors(fs, map), tables, sources) == rewrite_names(
            factors_names(fs, tables, sources),
            map,
        ),
    decreases fs,
{
    if fs.len() == 0 {
        assert(rewrite_names(Seq::<Seq<char>>::empty(), map) =~= Seq::<Seq<char>>::empty());
    } else {
        let front = fs.drop_last();
        assert(rewrite_factors(fs, map).drop_last() =~= rewrite_factors(front, map));
        assert(rewrite_factors(fs, map).last() == rewrite_factor(fs.last(), map));
        lemma_every_concat(
            factors_names(front, false, true),
            factor_names(fs.last(), false, true),
            fixed(map),
        );
        lemma_names_of_rewritten_factors(front, map, tables, sources);
        lemma_names_of_rewritten_factor(fs.last(), map, tables, sources);
        lemma_rewrite_names_concat(
            factors_names(front, tables, sources),
            factor_names(fs.last(), tables, sources),
            map,
        );
    }
}

proof fn lemma_names_of_rewritten_table(
    t: TableWithJoinsModel,
    map: Map<Seq<char>, Seq<char>>,
    tables: bool,
    sources: bool,
)
    requires
        sources ==> every(table_names(t, false, true), fixed(map)),
    ensures
        table_names(rewrite_table(t, map), tables, sources) == rewrite_names(
            table_names(t, tables, sources),
            map,
        ),
    decreases t,
{
    lemma_every_concat(
        factor_names(t.relation, false, true),
        factors_names(t.joins, false, true),
        fixed(map),
    );
    lemma_names_of_rewritten_factor(t.relation, map, tables, sources);
    lemma_names_of_rewritten_factors(t.joins, map, tables, sources);
    lemma_rewrite_names_concat(
        factor_names(t.relation, tables, sources),
        factors_names(t.joins, tables, sources),
        map,
    );
}

proof fn lemma_names_of_rewritten_tables(
    ts: Seq<TableWithJoinsModel>,
    map: Map<Seq<char>, Seq<char>>,
    tables: bool,
    sources: bool,
)
    requires
        sources ==> every(tables_names(ts, false, true), fixed(map)),
    ensures
        tables_names(rewrite_tables(ts, map), tables, sources) == rewrite_names(
            tables_names(ts, tables, sources),
            map,
        ),
    decreases ts,
{
    if ts.len() == 0 {
        assert(rewrite_names(Seq::<Seq<char>>::empty(), map) =~= Seq::<Seq<char>>::empty());
    } else {
        let front = ts.drop_last();
        assert(rewrite_tables(ts, map).drop_last() =~= rewrite_tables(front, map));
        assert(rewrite_tables(ts, map).last() == rewrite_table(ts.last(), map));
        lemma_every_concat(
            tables_names(front, false, true),
            table_names(ts.last(), false, true),
            fixed(map),
        );
        lemma_names_of_rewritten_tables(front, map, tables, sources);
        lemma_names_of_rewritten_table(ts.last(), map, tables, sources);
        lemma_rewrite_names_concat(
            tables_names(front, tables, sources),
            table_names(ts.last(), tables, sources),
            map,
        );
    }
}

proof fn lemma_names_of_rewritten_set_expr(
    e: SetExprModel,
    map: Map<Seq<char>, Seq<char>>,
    tables: bool,
    sources: bool,
)
    requires
        sources ==> every(set_expr_names(e, false, true), fixed(map)),
    ensures
        set_expr_names(rewrite_set_expr(e, map), tables, sources) == rewrite_names(
            set_expr_names(e, tables, sources),
            map,
        ),
    decreases e,
{
    match e {
        SetExprModel::Select(select) => {
            lemma_names_of_rewritten_tables(select.from, map, tables, sources);
        },
        SetExprModel::Query(query) => {
            lemma_names_of_rewritten_query(*query, map, tables, sources);
        },
        SetExprModel::SetOperation { left, right } => {
            lemma_every_concat(
                set_expr_names(*left, false, true),
                set_expr_names(*right, false, true),
                fixed(map),
            );
            lemma_names_of_rewritten_set_expr(*left, map, tables, sources);
            lemma_names_of_rewritten_set_expr(*right, map, tables, sources);
            lemma_rewrite_names_concat(
                set_expr_names(*left, tables, sources),
                set_expr_names(*right, tables, sources),
                map,
            );
        },
        SetExprModel::Values => {
            assert(rewrite_names(Seq::<Seq<char>>::empty(), map) =~= Seq::<Seq<char>>::empty());
        },
        SetExprModel::Insert => {
            assert(rewrite_names(Seq::<Seq<char>>::empty(), map) =~= Seq::<Seq<char>>::empty());
        },
    }
}

proof fn lemma_names_of_rewritten_cte(
    c: CteModel,
    map: Map<Seq<char>, Seq<char>>,
    tables: bool,
    sources: bool,
)
    requires
        sources ==> every(cte_names(c, false, true), fixed(map)),
    ensures
        cte_names(rewrite_cte(c, map), tables, sources) == rewrite_names(
            cte_names(c, tables, sources),
            map,
        ),
    decreases c,
{
    let own = match c.from {
        Some(name) => if sources {
            seq![name]
        } else {
            Seq::empty()
        },
        None => Seq::empty(),
    };
    let own_source = match c.from {
        Some(name) => seq![name],
        None => Seq::empty(),
    };
    lemma_every_concat(own_source, query_names(c.query, false, true), fixed(map));
    lemma_names_of_rewritten_query(c.query, map, tables, sources);
    lemma_rewrite_names_concat(own, query_names(c.query, tables, sources), map);
    if sources {
        lemma_rewrite_names_fixed(own, map);
    } else {
        assert(rewrite_names(own, map) =~= own);
    }
}

proof fn lemma_names_of_rewritten_ctes(
    cs: Seq<CteModel>,
    map: Map<Seq<char>, Seq<char>>,
    tables: bool,
    sources: bool,
)
    requires
        sources ==> every(ctes_names(cs, false, true), fixed(map)),
    ensures
        ctes_names(rewrite_ctes(cs, map), tables, sources) == rewrite_names(
            ctes_names(cs, tables, sources),
            map,
        ),
    decreases cs,
{
    if cs.len() == 0 {
        assert(rewrite_names(Seq::<Seq<char>>::empty(), map) =~= Seq::<Seq<char>>::empty());
    } else {
        let front = cs.drop_last();
        assert(rewrite_ctes(cs, map).drop_last() =~= rewrite_ctes(front, map));
        assert(rewrite_ctes(cs, map).last() == rewrite_cte(cs.last(), map));
        lemma_every_concat(
            ctes_names(front, false, true),
            cte_names(cs.last(), false, true),
            fixed(map),
        );
        lemma_names_of_rewritten_ctes(front, map, tables, sources);
        lemma_names_of_rewritten_cte(cs.last(), map, tables, sources);
        lemma_rewrite_names_concat(
            ctes_names(front, tables, sources),
            cte_names(cs.last(), tables, sources),
            map,
        );
    }
}

/// The names of a rewritten query are the names of the query, each
/// rewritten, provided that, where the identifiers that common table
/// expressions read from are counted, the map leaves those as they are.
pub proof fn lemma_names_of_rewritten_query(
    q: QueryModel,
    map: Map<Seq<char>, Seq<char>>,
    tables: bool,
    sources: bool,
)
    requires
        sources ==> every(query_names(q, false, true), fixed(map)),
    ensures
        query_names(rewrite_query(q, map), tables, sources) == rewrite_names(
            query_names(q, tables, sources),
            map,
        ),
    decreases q,
{
    lemma_every_concat(
        ctes_names(q.ctes, false, true),
        set_expr_names(q.body, false, true),
        fixed(map),
    );
    lemma_names_of_rewritten_ctes(q.ctes, map, tables, sources);
    lemma_names_of_rewritten_set_expr(q.body, map, tables, sources);
    lemma_rewrite_names_concat(
        ctes_names(q.ctes, tables, sources),
        set_expr_names(q.body, tables, sources),
        map,
    );
}

/// After rewriting, the parts of the table names of a query are those it had
/// before, each rewritten: a part that is no key of the map stays as it was,
/// and a part that is a key is replaced by what the map gives for it. So
/// where the map gives for no part a name that is itself a key, no part of
/// any table name of the rewritten query is a key of the map.
pub proof fn lemma_rewritten_table_names(q: QueryModel, map: Map<Seq<char>, Seq<char>>)
    ensures
        query_names(rewrite_query(q, map), true, false).len() == query_names(q, true, false).len(),
        forall|i: int|
            0 <= i < query_names(q, true, false).len() ==> #[trigger] query_names(
                rewrite_query(q, map),
                true,
                false,
            )[i] == apply(map, query_names(q, true, false)[i]),
        (forall|i: int|
            0 <= i < query_names(q, true, false).len() && map.contains_key(
                #[trigger] query_names(q, true, false)[i],
            ) ==> !map.contains_key(map[query_names(q, true, false)[i]])) ==> forall|i: int|
            0 <= i < query_names(q, true, false).len() ==> !map.contains_key(
                #[trigger] query_names(rewrite_query(q, map), true, false)[i],
            ),
{
    lemma_names_of_rewritten_query(q, map, true, false);
}

/// Where the map leaves the identifiers that common table expressions read
/// from as they are, the identifiers collected from the rewritten query are
/// those collected from the query, each rewritten.
pub proof fn lemma_identifiers_of_rewritten_query(q: QueryModel, map: Map<Seq<char>, Seq<char>>)
    requires
        every(query_names(q, false, true), fixed(map)),
    ensures
        query_identifiers(rewrite_query(q, map)) == rewrite_names(query_identifiers(q), map),
{
    lemma_names_of_rewritten_query(q, map, true, true);
}

proof fn lemma_every_factor(
    fs: Seq<TableFactorModel>,
    i: int,
    p: spec_fn(Seq<char>) -> bool,
)
    requires
        0 <= i < fs.len(),
        every(factors_names(fs, true, false), p),
    ensures
        every(factor_names(fs[i], true, false), p),
    decreases fs.len(),
{
    lemma_every_concat(
        factors_names(fs.drop_last(), true, false),
        factor_names(fs.last(), true, false),
        p,
    );
    if i < fs.len() - 1 {
        lemma_every_factor(fs.drop_last(), i, p);
    }
}

proof fn lemma_every_table(
    ts: Seq<TableWithJoinsModel>,
    i: int,
    p: spec_fn(Seq<char>) -> bool,
)
    requires
        0 <= i < ts.len(),
        every(tables_names(ts, true, false), p),
    ensures
        every(table_names(ts[i], true, false), p),
    decreases ts.len(),
{
    lemma_every_concat(
        tables_names(ts.drop_last(), true, false),
        table_names(ts.last(), true, false),
        p,
    );
    if i < ts.len() - 1 {
        lemma_every_table(ts.drop_last(), i, p);
    }
}

proof fn lemma_every_cte(cs: Seq<CteModel>, i: int, p: spec_fn(Seq<char>) -> bool)
    requires
        0 <= i < cs.len(),
        every(ctes_names(cs, true, false), p),
    ensures
        every(cte_names(cs[i], true, false), p),
    decreases cs.len(),
{
    lemma_every_concat(
        ctes_names(cs.drop_last(), true, false),
        cte_names(cs.last(), true, false),
        p,
    );
    if i < cs.len() - 1 {
        lemma_every_cte(cs.drop_last(), i, p);
    }
}

proof fn lemma_rewrite_factor_twice(f: TableFactorModel, map: Map<Seq<char>, Seq<char>>)
    requires
        every(factor_names(f, true, false), settled(map)),
    ensures
        rewrite_factor(rewrite_factor(f, map), map) == rewrite_factor(f, map),
    decreases f,
{
    match f {
        TableFactorModel::Table { name } => {
            assert(rewrite_names(rewrite_names(name, map), map) =~= rewrite_names(name, map)) by {
                assert forall|i: int| 0 <= i < name.len() implies apply(
                    map,
                    apply(map, name[i]),
                ) == apply(map, name[i]) by {
                    assert(settled(map)(name[i]));
                }
            }
        },
        TableFactorModel::Derived { subquery } => {
            lemma_rewrite_query_twice(*subquery, map);
        },
        TableFactorModel::TableFunction => {},
        TableFactorModel::NestedJoin => {},
    }
}

proof fn lemma_rewrite_factors_twice(fs: Seq<TableFactorModel>, map: Map<Seq<char>, Seq<char>>)
    requires
        every(factors_names(fs, true, false), settled(map)),
    ensures
        rewrite_factors(rewrite_factors(fs, map), map) == rewrite_factors(fs, map),
    decreases fs,
{
    assert forall|i: int| 0 <= i < fs.len() implies rewrite_factor(
        rewrite_factor(fs[i], map),
        map,
    ) == rewrite_factor(fs[i], map) by {
        lemma_every_factor(fs, i, settled(map));
        lemma_rewrite_factor_twice(fs[i], map);
    }
    assert(rewrite_factors(rewrite_factors(fs, map), map) =~= rewrite_factors(fs, map));
}

proof fn lemma_rewrite_table_twice(t: TableWithJoinsModel, map: Map<Seq<char>, Seq<char>>)
    requires
        every(table_names(t, true, false), settled(map)),
    ensures
        rewrite_table(rewrite_table(t, map), map) == rewrite_table(t, map),
    decreases t,
{
    lemma_every_concat(
        factor_names(t.relation, true, false),
        factors_names(t.joins, true, false),
        settled(map),
    );
    lemma_rewrite_factor_twice(t.relation, map);
    lemma_rewrite_factors_twice(t.joins, map);
}

proof fn lemma_rewrite_tables_twice(ts: Seq<TableWithJoinsModel>, map: Map<Seq<char>, Seq<char>>)
    requires
        every(tables_names(ts, true, false), settled(map)),
    ensures
        rewrite_tables(rewrite_tables(ts, map), map) == rewrite_tables(ts, map),
    decreases ts,
{
    assert forall|i: int| 0 <= i < ts.len() implies rewrite_table(rewrite_table(ts[i], map), map)
        == rewrite_table(ts[i], map) by {
        lemma_every_table(ts, i, settled(map));
        lemma_rewrite_table_twice(ts[i], map);
    }
    assert(rewrite_tables(rewrite_tables(ts, map), map) =~= rewrite_tables(ts, map));
}

proof fn lemma_rewrite_set_expr_twice(e: SetExprModel, map: Map<Seq<char>, Seq<char>>)
    requires
        every(set_expr_names(e, true, false), settled(map)),
    ensures
        rewrite_set_expr(rewrite_set_expr(e, map), map) == rewrite_set_expr(e, map),
    decreases e,
{
    match e {
        SetExprModel::Select(select) => {
            lemma_rewrite_tables_twice(select.from, map);
        },
        SetExprModel::Query(query) => {
            lemma_rewrite_query_twice(*query, map);
        },
        SetExprModel::SetOperation { left, right } => {
            lemma_every_concat(
                set_expr_names(*left, true, false),
                set_expr_names(*right, true, false),
                settled(map),
            );
            lemma_rewrite_set_expr_twice(*left, map);
            lemma_rewrite_set_expr_twice(*right, map);
        },
        SetExprModel::Values => {},
        SetExprModel::Insert => {},
    }
}

proof fn lemma_rewrite_cte_twice(c: CteModel, map: Map<Seq<char>, Seq<char>>)
    requires
        every(cte_names(c, true, false), settled(map)),
    ensures
        rewrite_cte(rewrite_cte(c, map), map) == rewrite_cte(c, map),
    decreases c,
{
    assert(cte_names(c, true, false) =~= query_names(c.query, true, false));
    lemma_rewrite_query_twice(c.query, map);
}

proof fn lemma_rewrite_ctes_twice(cs: Seq<CteModel>, map: Map<Seq<char>, Seq<char>>)
    requires
        every(ctes_names(cs, true, false), settled(map)),
    ensures
        rewrite_ctes(rewrite_ctes(cs, map), map) == rewrite_ctes(cs, map),
    decreases cs,
{
    assert forall|i: int| 0 <= i < cs.len() implies rewrite_cte(rewrite_cte(cs[i], map), map)
        == rewrite_cte(cs[i], map) by {
        lemma_every_cte(cs, i, settled(map));
        lemma_rewrite_cte_twice(cs[i], map);
    }
    assert(rewrite_ctes(rewrite_ctes(cs, map), map) =~= rewrite_ctes(cs, map));
}

/// Rewriting a rewritten query with the same map changes nothing, provided
/// that the map, applied to what it gives for a part of a table name of the
/// query, gives the same again.
pub proof fn lemma_rewrite_query_twice(q: QueryModel, map: Map<Seq<char>, Seq<char>>)
    requires
        every(query_names(q, true, false), settled(map)),
    ensures
        rewrite_query(rewrite_query(q, map), map) == rewrite_query(q, map),
    decreases q,
{
    lemma_every_concat(
        ctes_names(q.ctes, true, false),
        set_expr_names(q.body, true, false),
        settled(map),
    );
    lemma_rewrite_ctes_twice(q.ctes, map);
    lemma_rewrite_set_expr_twice(q.body, map);
}

} // verus!
