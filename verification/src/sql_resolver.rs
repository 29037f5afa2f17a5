//! The static SQL table-dependency resolver's core: a closed AST of the
//! query shapes the resolver cares about, and the scope-aware walk that
//! collects the base tables a query reads — excluding any name that a
//! `WITH` clause or a derived table binds in an enclosing scope.

use vstd::prelude::*;

use crate::strutil::{spec_chars_le, spec_chars_lt, str_eq, str_le};

verus! {

/// One named common-table-expression binding and its body.
#[derive(Debug)]
pub struct SqlCte {
    pub name: String,
    pub query: SqlQuery,
}

/// A query block: the CTE bindings its `WITH` clause introduces (in
/// order), and its body.
#[derive(Debug)]
pub struct SqlQuery {
    pub ctes: Vec<SqlCte>,
    pub body: SqlSetExpr,
}

/// The body of a query block: a select's FROM list, a parenthesized
/// query, or a set operation over two bodies. Shapes the resolver does
/// not read (projections, predicates, expression subqueries) are not
/// represented: they contribute no table references.
#[derive(Debug)]
pub enum SqlSetExpr {
    Select { from: Vec<SqlTableRef> },
    Query(Box<SqlQuery>),
    SetOp { left: Box<SqlSetExpr>, right: Box<SqlSetExpr> },
}

/// One FROM-list entry: a (lowercased) base or CTE name, a derived
/// table whose alias never escapes, or a parenthesized nested join list.
#[derive(Debug)]
pub enum SqlTableRef {
    Named(String),
    Derived(Box<SqlQuery>),
    Nested(Vec<SqlTableRef>),
}

pub struct SqlCteView {
    pub name: Seq<char>,
    pub query: SqlQueryView,
}

pub struct SqlQueryView {
    pub ctes: Seq<SqlCteView>,
    pub body: SqlSetExprView,
}

pub enum SqlSetExprView {
    Select { from: Seq<SqlTableRefView> },
    Query(Box<SqlQueryView>),
    SetOp { left: Box<SqlSetExprView>, right: Box<SqlSetExprView> },
}

pub enum SqlTableRefView {
    Named(Seq<char>),
    Derived(Box<SqlQueryView>),
    Nested(Seq<SqlTableRefView>),
}

pub open spec fn spec_query_view(q: SqlQuery) -> SqlQueryView
    decreases q,
{
    SqlQueryView {
        ctes: Seq::new(
            q.ctes@.len(),
            |i: int|
                if 0 <= i < q.ctes@.len() {
                    SqlCteView { name: q.ctes@[i].name@, query: spec_query_view(q.ctes@[i].query) }
                } else {
                    SqlCteView {
                        name: Seq::empty(),
                        query: SqlQueryView {
                            ctes: Seq::empty(),
                            body: SqlSetExprView::Select { from: Seq::empty() },
                        },
                    }
                },
        ),
        body: spec_set_expr_view(q.body),
    }
}

pub open spec fn spec_set_expr_view(e: SqlSetExpr) -> SqlSetExprView
    decreases e,
{
    match e {
        SqlSetExpr::Select { from } => SqlSetExprView::Select {
            from: Seq::new(
                from@.len(),
                |i: int|
                    if 0 <= i < from@.len() {
                        spec_table_ref_view(from@[i])
                    } else {
                        SqlTableRefView::Named(Seq::empty())
                    },
            ),
        },
        SqlSetExpr::Query(q) => SqlSetExprView::Query(Box::new(spec_query_view(*q))),
        SqlSetExpr::SetOp { left, right } => SqlSetExprView::SetOp {
            left: Box::new(spec_set_expr_view(*left)),
            right: Box::new(spec_set_expr_view(*right)),
        },
    }
}

pub open spec fn spec_table_ref_view(t: SqlTableRef) -> SqlTableRefView
    decreases t,
{
    match t {
        SqlTableRef::Named(n) => SqlTableRefView::Named(n@),
        SqlTableRef::Derived(q) => SqlTableRefView::Derived(Box::new(spec_query_view(*q))),
        SqlTableRef::Nested(v) => SqlTableRefView::Nested(
            Seq::new(
                v@.len(),
                |i: int|
                    if 0 <= i < v@.len() {
                        spec_table_ref_view(v@[i])
                    } else {
                        SqlTableRefView::Named(Seq::empty())
                    },
            ),
        ),
    }
}

impl View for SqlQuery {
    type V = SqlQueryView;

    open spec fn view(&self) -> SqlQueryView {
        spec_query_view(*self)
    }
}

impl View for SqlSetExpr {
    type V = SqlSetExprView;

    open spec fn view(&self) -> SqlSetExprView {
        spec_set_expr_view(*self)
    }
}

impl View for SqlTableRef {
    type V = SqlTableRefView;

    open spec fn view(&self) -> SqlTableRefView {
        spec_table_ref_view(*self)
    }
}

/// The names a scope stack binds: a name is bound when any scope on the
/// stack holds it.
pub open spec fn spec_scopes_contain(scopes: Seq<Set<Seq<char>>>, name: Seq<char>) -> bool {
    exists|i: int| 0 <= i < scopes.len() && (#[trigger] scopes[i]).contains(name)
}

/// The CTE names a query block's own `WITH` clause introduces.
pub open spec fn spec_cte_names(ctes: Seq<SqlCteView>) -> Set<Seq<char>> {
    Set::new(|n: Seq<char>| exists|i: int| 0 <= i < ctes.len() && (#[trigger] ctes[i]).name == n)
}

/// The base tables a query block reads, given the CTE scopes that
/// enclose it: its own CTE names are pushed first, its CTE bodies are
/// visited under that extended stack, and so is its body.
pub open spec fn spec_query_tables(q: SqlQueryView, scopes: Seq<Set<Seq<char>>>) -> Set<Seq<char>>
    decreases q, 1int, 0int,
{
    let scopes2 = scopes.push(spec_cte_names(q.ctes));
    spec_ctes_tables(q.ctes, scopes2).union(spec_set_expr_tables(q.body, scopes2))
}

pub open spec fn spec_ctes_tables(ctes: Seq<SqlCteView>, scopes: Seq<Set<Seq<char>>>) -> Set<
    Seq<char>,
>
    decreases ctes, 0int, 0int,
{
    if ctes.len() == 0 {
        Set::empty()
    } else {
        spec_query_tables(ctes[0].query, scopes).union(
            spec_ctes_tables(ctes.drop_first(), scopes),
        )
    }
}

pub open spec fn spec_set_expr_tables(e: SqlSetExprView, scopes: Seq<Set<Seq<char>>>) -> Set<
    Seq<char>,
>
    decreases e, 1int, 0int,
{
    match e {
        SqlSetExprView::Select { from } => spec_refs_tables(from, scopes),
        SqlSetExprView::Query(q) => spec_query_tables(*q, scopes),
        SqlSetExprView::SetOp { left, right } => spec_set_expr_tables(*left, scopes).union(
            spec_set_expr_tables(*right, scopes),
        ),
    }
}

pub open spec fn spec_refs_tables(refs: Seq<SqlTableRefView>, scopes: Seq<Set<Seq<char>>>) -> Set<
    Seq<char>,
>
    decreases refs, 0int, 0int,
{
    if refs.len() == 0 {
        Set::empty()
    } else {
        spec_ref_tables(refs[0], scopes).union(spec_refs_tables(refs.drop_first(), scopes))
    }
}

/// A named reference is a real dependency only when no enclosing scope
/// binds it; a derived table contributes its subquery's dependencies,
/// never its alias; a nested join contributes each of its entries.
pub open spec fn spec_ref_tables(t: SqlTableRefView, scopes: Seq<Set<Seq<char>>>) -> Set<Seq<char>>
    decreases t, 1int, 0int,
{
    match t {
        SqlTableRefView::Named(n) => if spec_scopes_contain(scopes, n) {
            Set::empty()
        } else {
            Set::empty().insert(n)
        },
        SqlTableRefView::Derived(q) => spec_query_tables(*q, scopes),
        SqlTableRefView::Nested(v) => spec_refs_tables(v, scopes),
    }
}

/// The set a name list holds, as character sequences.
pub open spec fn spec_names_set(names: Seq<Seq<char>>) -> Set<Seq<char>> {
    Set::new(|n: Seq<char>| exists|i: int| 0 <= i < names.len() && names[i] == n)
}

/// Strictly ascending, hence duplicate-free.
pub open spec fn spec_sorted_unique(names: Seq<Seq<char>>) -> bool {
    forall|i: int|
        0 <= i && i + 1 < names.len() ==> spec_chars_lt(#[trigger] names[i], names[i + 1])
}

proof fn lemma_chars_le_total(a: Seq<char>, b: Seq<char>)
    ensures
        spec_chars_le(a, b) || spec_chars_le(b, a),
    decreases a.len(),
{
    if a.len() == 0 {
        assert(spec_chars_le(a, b));
    } else if b.len() == 0 {
        assert(spec_chars_le(b, a));
    } else if a[0] == b[0] {
        lemma_chars_le_total(a.drop_first(), b.drop_first());
        assert(spec_chars_le(a, b) == spec_chars_le(a.drop_first(), b.drop_first()));
        assert(spec_chars_le(b, a) == spec_chars_le(b.drop_first(), a.drop_first()));
    } else {
        assert(a[0] < b[0] || b[0] < a[0]);
    }
}

proof fn lemma_chars_le_antisym(a: Seq<char>, b: Seq<char>)
    ensures
        spec_chars_le(a, b) && spec_chars_le(b, a) ==> a == b,
    decreases a.len(),
{
    if a.len() == 0 {
        if spec_chars_le(b, a) {
            assert(b.len() == 0);
            assert(a =~= b);
        }
    } else if b.len() == 0 {
        assert(!spec_chars_le(a, b));
    } else if a[0] == b[0] {
        lemma_chars_le_antisym(a.drop_first(), b.drop_first());
        if spec_chars_le(a, b) && spec_chars_le(b, a) {
            assert(spec_chars_le(a.drop_first(), b.drop_first()));
            assert(spec_chars_le(b.drop_first(), a.drop_first()));
            assert(a.drop_first() == b.drop_first());
            assert forall|i: int| 0 <= i < a.len() implies a[i] == b[i] by {
                if i > 0 {
                    assert(a[i] == a.drop_first()[i - 1]);
                    assert(b[i] == b.drop_first()[i - 1]);
                }
            }
            assert(a.len() == b.len()) by {
                assert(a.drop_first().len() == b.drop_first().len());
            }
            assert(a =~= b);
        }
    } else {
        if spec_chars_le(a, b) {
            assert(a[0] < b[0]);
            assert(!spec_chars_le(b, a));
        }
    }
}

/// The exec scope stack: each scope is the list of names one query
/// block's `WITH` clause binds.
pub open spec fn spec_scope_stack_view(scopes: Seq<Vec<String>>) -> Seq<Set<Seq<char>>> {
    Seq::new(scopes.len(), |i: int| spec_names_set(scopes[i].deep_view()))
}





fn scope_contains(scope: &Vec<String>, name: &str) -> (r: bool)
    ensures
        r == spec_names_set(scope.deep_view()).contains(name@),
{
    let inner = scope.len();
    let mut j: usize = 0;
    while j < inner
        invariant
            inner == scope@.len(),
            j <= inner,
            forall|k: int| 0 <= k < j ==> scope.deep_view()[k] != name@,
        decreases inner - j,
    {
        if str_eq(scope[j].as_str(), name) {
            proof {
                assert(scope.deep_view()[j as int] == name@);
            }
            return true;
        }
        j += 1;
    }
    proof {
        if spec_names_set(scope.deep_view()).contains(name@) {
            let w = choose|w: int|
                0 <= w < scope.deep_view().len() && scope.deep_view()[w] == name@;
            assert(false);
        }
    }
    false
}

/// Whether any scope on the stack binds the name; this is what makes a
/// reference a CTE alias rather than a base-table dependency.
pub fn is_cte_alias(name: &str, cte_scopes: &Vec<Vec<String>>) -> (r: bool)
    ensures
        r == spec_scopes_contain(spec_scope_stack_view(cte_scopes@), name@),
{
    let outer = cte_scopes.len();
    let mut i: usize = 0;
    while i < outer
        invariant
            outer == cte_scopes@.len(),
            i <= outer,
            forall|k: int|
                0 <= k < i ==> !(#[trigger] spec_scope_stack_view(cte_scopes@)[k]).contains(name@),
        decreases outer - i,
    {
        let hit = scope_contains(&cte_scopes[i], name);
        proof {
            assert(spec_scope_stack_view(cte_scopes@)[i as int] == spec_names_set(
                cte_scopes@[i as int].deep_view(),
            ));
        }
        if hit {
            proof {
                assert((spec_scope_stack_view(cte_scopes@)[i as int]).contains(name@));
                assert(spec_scopes_contain(spec_scope_stack_view(cte_scopes@), name@));
            }
            return true;
        }
        i += 1;
    }
    false
}

/// Inserts a name into a strictly sorted list, keeping it sorted and
/// duplicate-free; the held set gains exactly this name.
fn insert_name(out: &mut Vec<String>, name: String)
    requires
        spec_sorted_unique(old(out).deep_view()),
    ensures
        spec_sorted_unique(final(out).deep_view()),
        spec_names_set(final(out).deep_view()) == spec_names_set(old(out).deep_view()).insert(
            name@,
        ),
{
    let len = out.len();
    let mut i: usize = 0;
    while i < len
        invariant
            out@ == old(out)@,
            out.deep_view() == old(out).deep_view(),
            spec_sorted_unique(old(out).deep_view()),
            len == old(out)@.len(),
            i <= len,
            forall|k: int|
                0 <= k < i ==> spec_chars_lt(#[trigger] old(out).deep_view()[k], name@),
        decreases len - i,
    {
        if str_le(name.as_str(), out[i].as_str()) {
            if str_eq(name.as_str(), out[i].as_str()) {
                proof {
                    assert(out.deep_view()[i as int] == name@);
                    assert(spec_names_set(out.deep_view()).contains(name@));
                    assert(spec_names_set(out.deep_view()) =~= spec_names_set(
                        out.deep_view(),
                    ).insert(name@));
                }
                return ;
            }
            let ghost before_at = out@;
            let ghost before = out.deep_view();
            let ghost nstr = name;
            let ghost nv = name@;
            let ghost target = before.take(i as int).push(nv) + before.skip(i as int);
            proof {
                assert(spec_chars_lt(nv, before[i as int]));
                assert forall|k: int| 0 <= k < target.len() implies #[trigger] target[k] == (if k
                    < i {
                    before[k]
                } else if k == i {
                    nv
                } else {
                    before[k - 1]
                }) by {
                    if k < i {
                        assert(target[k] == before.take(i as int).push(nv)[k]);
                    } else if k == i {
                        assert(target[k] == before.take(i as int).push(nv)[k]);
                    } else {
                        assert(target[k] == before.skip(i as int)[k - i - 1]);
                    }
                }
                assert forall|k: int| 0 <= k && k + 1 < target.len() implies spec_chars_lt(
                    #[trigger] target[k],
                    target[k + 1],
                ) by {
                    if k + 1 < i {
                        assert(spec_chars_lt(before[k], before[k + 1]));
                    } else if k + 1 == i {
                        assert(spec_chars_lt(before[k], nv));
                    } else if k == i {
                        assert(spec_chars_lt(nv, before[i as int]));
                    } else {
                        assert(spec_chars_lt(before[k - 1], before[k]));
                    }
                }
                assert(spec_sorted_unique(target));
                assert(spec_names_set(target) =~= spec_names_set(before).insert(nv)) by {
                    assert forall|n: Seq<char>| #[trigger] spec_names_set(target).contains(
                        n,
                    ) implies spec_names_set(before).insert(nv).contains(n) by {
                        let w = choose|w: int| 0 <= w < target.len() && target[w] == n;
                        if w < i {
                            assert(before[w] == n);
                        } else if w == i {
                        } else {
                            assert(before[w - 1] == n);
                        }
                    }
                    assert forall|n: Seq<char>| #[trigger] spec_names_set(before).insert(
                        nv,
                    ).contains(n) implies spec_names_set(target).contains(n) by {
                        if n == nv {
                            assert(target[i as int] == n);
                        } else {
                            let w = choose|w: int| 0 <= w < before.len() && before[w] == n;
                            if w < i {
                                assert(target[w] == n);
                            } else {
                                assert(target[w + 1] == n);
                            }
                        }
                    }
                }
            }
            out.insert(i, name);
            proof {
                assert(out@ == before_at.insert(i as int, nstr));
                assert forall|k: int| 0 <= k < out.deep_view().len() implies #[trigger] out.deep_view()[k]
                    == target[k] by {
                    if k < i {
                        assert(out@[k] == before_at[k]);
                    } else if k == i {
                        assert(out@[k] == nstr);
                    } else {
                        assert(out@[k] == before_at[k - 1]);
                    }
                }
                assert(out.deep_view() =~= target);
            }
            return ;
        }
        proof {
            lemma_chars_le_total(name@, out.deep_view()[i as int]);
            lemma_chars_le_antisym(name@, out.deep_view()[i as int]);
        }
        i += 1;
    }
    let ghost before_at = out@;
    let ghost before = out.deep_view();
    let ghost nstr = name;
    let ghost nv = name@;
    let ghost target = before.push(nv);
    proof {
        assert forall|k: int| 0 <= k && k + 1 < target.len() implies spec_chars_lt(
            #[trigger] target[k],
            target[k + 1],
        ) by {
            if k + 1 < before.len() {
                assert(target[k] == before[k] && target[k + 1] == before[k + 1]);
                assert(spec_chars_lt(before[k], before[k + 1]));
            } else {
                assert(target[k] == before[k] && target[k + 1] == nv);
                assert(spec_chars_lt(before[k], nv));
            }
        }
        assert(spec_sorted_unique(target));
    }
    out.push(name);
    proof {
        assert(out@ == before_at.push(nstr));
        assert forall|k: int| 0 <= k < out.deep_view().len() implies #[trigger] out.deep_view()[k]
            == target[k] by {
            if k < before.len() {
                assert(out@[k] == before_at[k]);
            } else {
                assert(out@[k] == nstr);
            }
        }
        assert(out.deep_view() =~= target);
        assert(spec_names_set(target) =~= spec_names_set(before).insert(nv)) by {
            assert forall|n: Seq<char>| #[trigger] spec_names_set(target).contains(
                n,
            ) implies spec_names_set(before).insert(nv).contains(n) by {
                let w = choose|w: int| 0 <= w < target.len() && target[w] == n;
                if w < before.len() {
                    assert(before[w] == n);
                }
            }
            assert forall|n: Seq<char>| #[trigger] spec_names_set(before).insert(nv).contains(
                n,
            ) implies spec_names_set(target).contains(n) by {
                if n == nv {
                    assert(target[before.len() as int] == n);
                } else {
                    let w = choose|w: int| 0 <= w < before.len() && before[w] == n;
                    assert(target[w] == n);
                }
            }
        }
    }
}

#[verifier::loop_isolation(false)]
fn collect_query(q: &SqlQuery, cte_scopes: &mut Vec<Vec<String>>, out: &mut Vec<String>)
    requires
        spec_sorted_unique(old(out).deep_view()),
    ensures
        spec_sorted_unique(final(out).deep_view()),
        final(cte_scopes)@ == old(cte_scopes)@,
        spec_names_set(final(out).deep_view()) == spec_names_set(old(out).deep_view()).union(
            spec_query_tables(q@, spec_scope_stack_view(old(cte_scopes)@)),
        ),
    decreases *q,
{
    let mut local: Vec<String> = Vec::new();
    let cte_count = q.ctes.len();
    let mut i: usize = 0;
    while i < cte_count
        invariant
            cte_count == q.ctes@.len(),
            i <= cte_count,
            local.deep_view() =~= Seq::new(i as nat, |k: int| q@.ctes[k].name),
        decreases cte_count - i,
    {
        let ghost prev = local.deep_view();
        local.push(q.ctes[i].name.clone());
        proof {
            assert(local.deep_view() =~= prev.push(q.ctes@[i as int].name@));
            assert(q@.ctes[i as int].name == q.ctes@[i as int].name@);
        }
        i += 1;
    }
    proof {
        assert(spec_names_set(local.deep_view()) =~= spec_cte_names(q@.ctes)) by {
            assert forall|n: Seq<char>| #[trigger] spec_names_set(local.deep_view()).contains(
                n,
            ) implies spec_cte_names(q@.ctes).contains(n) by {
                let w = choose|w: int|
                    0 <= w < local.deep_view().len() && local.deep_view()[w] == n;
                assert(q@.ctes[w].name == n);
            }
            assert forall|n: Seq<char>| #[trigger] spec_cte_names(q@.ctes).contains(
                n,
            ) implies spec_names_set(local.deep_view()).contains(n) by {
                let w = choose|w: int| 0 <= w < q@.ctes.len() && q@.ctes[w].name == n;
                assert(local.deep_view()[w] == n);
            }
        }
    }
    let ghost scopes0 = cte_scopes@;
    cte_scopes.push(local);
    let ghost pushed = cte_scopes@;
    proof {
        assert(pushed.drop_last() =~= scopes0);
        assert(spec_scope_stack_view(cte_scopes@) =~= spec_scope_stack_view(scopes0).push(
            spec_cte_names(q@.ctes),
        ));
    }

    let ghost scopes2 = spec_scope_stack_view(cte_scopes@);
    let ghost out0 = out.deep_view();
    let mut j: usize = 0;
    while j < cte_count
        invariant
            cte_count == q.ctes@.len(),
            j <= cte_count,
            cte_scopes@ == pushed,
            spec_scope_stack_view(cte_scopes@) == scopes2,
            spec_sorted_unique(out.deep_view()),
            spec_names_set(out.deep_view()) =~= spec_names_set(out0).union(
                spec_ctes_prefix_tables(q@.ctes, scopes2, j as int),
            ),
        decreases cte_count - j,
    {
        let ghost before = out.deep_view();
        proof {
            assert(decreases_to!(*q => q.ctes@[j as int].query));
        }
        collect_query(&q.ctes[j].query, cte_scopes, out);
        proof {
            assert(q@.ctes[j as int].query == spec_query_view(q.ctes@[j as int].query));
            lemma_ctes_prefix_step(q@.ctes, scopes2, j as int);
            assert(spec_names_set(out.deep_view()) =~= spec_names_set(out0).union(
                spec_ctes_prefix_tables(q@.ctes, scopes2, j + 1),
            ));
        }
        j += 1;
    }
    proof {
        lemma_ctes_prefix_full(q@.ctes, scopes2);
    }
    collect_set_expr(&q.body, cte_scopes, out);
    let _ = cte_scopes.pop();
    proof {
        assert(cte_scopes@ =~= pushed.drop_last());
        assert(cte_scopes@ =~= scopes0);
        assert(spec_names_set(out.deep_view()) =~= spec_names_set(out0).union(
            spec_query_tables(q@, spec_scope_stack_view(scopes0)),
        ));
    }
}

/// The tables of the first `n` CTE bodies, in order.
pub open spec fn spec_ctes_prefix_tables(
    ctes: Seq<SqlCteView>,
    scopes: Seq<Set<Seq<char>>>,
    n: int,
) -> Set<Seq<char>>
    decreases n,
{
    if n <= 0 {
        Set::empty()
    } else {
        spec_ctes_prefix_tables(ctes, scopes, n - 1).union(
            spec_query_tables(ctes[n - 1].query, scopes),
        )
    }
}

proof fn lemma_ctes_prefix_step(ctes: Seq<SqlCteView>, scopes: Seq<Set<Seq<char>>>, j: int)
    requires
        0 <= j,
    ensures
        spec_ctes_prefix_tables(ctes, scopes, j + 1) =~= spec_ctes_prefix_tables(
            ctes,
            scopes,
            j,
        ).union(spec_query_tables(ctes[j].query, scopes)),
{
}

proof fn lemma_ctes_prefix_full(ctes: Seq<SqlCteView>, scopes: Seq<Set<Seq<char>>>)
    ensures
        spec_ctes_prefix_tables(ctes, scopes, ctes.len() as int) =~= spec_ctes_tables(
            ctes,
            scopes,
        ),
    decreases ctes.len(),
{
    if ctes.len() == 0 {
    } else {
        lemma_ctes_prefix_full(ctes.drop_first(), scopes);
        lemma_ctes_prefix_shift(ctes, scopes, ctes.len() as int);
    }
}

proof fn lemma_ctes_prefix_shift(ctes: Seq<SqlCteView>, scopes: Seq<Set<Seq<char>>>, n: int)
    requires
        1 <= n <= ctes.len(),
    ensures
        spec_ctes_prefix_tables(ctes, scopes, n) =~= spec_query_tables(
            ctes[0].query,
            scopes,
        ).union(spec_ctes_prefix_tables(ctes.drop_first(), scopes, n - 1)),
    decreases n,
{
    reveal_with_fuel(spec_ctes_prefix_tables, 3);
    if n == 1 {
        assert(spec_ctes_prefix_tables(ctes, scopes, 0) =~= Set::<Seq<char>>::empty());
        assert(spec_ctes_prefix_tables(ctes.drop_first(), scopes, 0) =~= Set::<Seq<char>>::empty());
    } else {
        lemma_ctes_prefix_shift(ctes, scopes, n - 1);
        assert(ctes.drop_first()[n - 2] == ctes[n - 1]);
        assert(spec_ctes_prefix_tables(ctes.drop_first(), scopes, n - 1)
            =~= spec_ctes_prefix_tables(ctes.drop_first(), scopes, n - 2).union(
            spec_query_tables(ctes.drop_first()[n - 2].query, scopes),
        ));
    }
}



#[verifier::loop_isolation(false)]
fn collect_set_expr(e: &SqlSetExpr, cte_scopes: &mut Vec<Vec<String>>, out: &mut Vec<String>)
    requires
        spec_sorted_unique(old(out).deep_view()),
    ensures
        spec_sorted_unique(final(out).deep_view()),
        final(cte_scopes)@ == old(cte_scopes)@,
        spec_names_set(final(out).deep_view()) == spec_names_set(old(out).deep_view()).union(
            spec_set_expr_tables(e@, spec_scope_stack_view(old(cte_scopes)@)),
        ),
    decreases *e,
{
    match e {
        SqlSetExpr::Select { from } => {
            let ghost scopes = spec_scope_stack_view(cte_scopes@);
            let ghost out0 = out.deep_view();
            let count = from.len();
            let mut i: usize = 0;
            while i < count
                invariant
                    count == from@.len(),
                    i <= count,
                    cte_scopes@ == old(cte_scopes)@,
                    spec_scope_stack_view(cte_scopes@) == scopes,
                    spec_sorted_unique(out.deep_view()),
                    spec_names_set(out.deep_view()) =~= spec_names_set(out0).union(
                        spec_refs_prefix_tables(e@->Select_from, scopes, i as int),
                    ),
                decreases count - i,
            {
                proof {
                    assert(decreases_to!(*e => e->Select_from@[i as int]));
                }
                collect_table_ref(&from[i], cte_scopes, out);
                proof {
                    assert(e@->Select_from[i as int] == spec_table_ref_view(from@[i as int]));
                    lemma_refs_prefix_step(e@->Select_from, scopes, i as int);
                }
                i += 1;
            }
            proof {
                lemma_refs_prefix_full(e@->Select_from, scopes);
            }
        },
        SqlSetExpr::Query(q) => {
            collect_query(q, cte_scopes, out);
        },
        SqlSetExpr::SetOp { left, right } => {
            let ghost out0 = out.deep_view();
            collect_set_expr(left, cte_scopes, out);
            collect_set_expr(right, cte_scopes, out);
            proof {
                assert(spec_names_set(out.deep_view()) =~= spec_names_set(out0).union(
                    spec_set_expr_tables(e@, spec_scope_stack_view(cte_scopes@)),
                ));
            }
        },
    }
}

/// The tables of the first `n` FROM entries, in order.
pub open spec fn spec_refs_prefix_tables(
    refs: Seq<SqlTableRefView>,
    scopes: Seq<Set<Seq<char>>>,
    n: int,
) -> Set<Seq<char>>
    decreases n,
{
    if n <= 0 {
        Set::empty()
    } else {
        spec_refs_prefix_tables(refs, scopes, n - 1).union(spec_ref_tables(refs[n - 1], scopes))
    }
}

proof fn lemma_refs_prefix_step(refs: Seq<SqlTableRefView>, scopes: Seq<Set<Seq<char>>>, j: int)
    requires
        0 <= j,
    ensures
        spec_refs_prefix_tables(refs, scopes, j + 1) =~= spec_refs_prefix_tables(
            refs,
            scopes,
            j,
        ).union(spec_ref_tables(refs[j], scopes)),
{
}

proof fn lemma_refs_prefix_full(refs: Seq<SqlTableRefView>, scopes: Seq<Set<Seq<char>>>)
    ensures
        spec_refs_prefix_tables(refs, scopes, refs.len() as int) =~= spec_refs_tables(
            refs,
            scopes,
        ),
    decreases refs.len(),
{
    if refs.len() == 0 {
    } else {
        lemma_refs_prefix_full(refs.drop_first(), scopes);
        lemma_refs_prefix_shift(refs, scopes, refs.len() as int);
    }
}

proof fn lemma_refs_prefix_shift(refs: Seq<SqlTableRefView>, scopes: Seq<Set<Seq<char>>>, n: int)
    requires
        1 <= n <= refs.len(),
    ensures
        spec_refs_prefix_tables(refs, scopes, n) =~= spec_ref_tables(refs[0], scopes).union(
            spec_refs_prefix_tables(refs.drop_first(), scopes, n - 1),
        ),
    decreases n,
{
    reveal_with_fuel(spec_refs_prefix_tables, 3);
    if n == 1 {
        assert(spec_refs_prefix_tables(refs, scopes, 0) =~= Set::<Seq<char>>::empty());
        assert(spec_refs_prefix_tables(refs.drop_first(), scopes, 0) =~= Set::<Seq<char>>::empty());
    } else {
        lemma_refs_prefix_shift(refs, scopes, n - 1);
        assert(refs.drop_first()[n - 2] == refs[n - 1]);
        assert(spec_refs_prefix_tables(refs.drop_first(), scopes, n - 1)
            =~= spec_refs_prefix_tables(refs.drop_first(), scopes, n - 2).union(
            spec_ref_tables(refs.drop_first()[n - 2], scopes),
        ));
    }
}

#[verifier::loop_isolation(false)]
fn collect_table_ref(t: &SqlTableRef, cte_scopes: &mut Vec<Vec<String>>, out: &mut Vec<String>)
    requires
        spec_sorted_unique(old(out).deep_view()),
    ensures
        spec_sorted_unique(final(out).deep_view()),
        final(cte_scopes)@ == old(cte_scopes)@,
        spec_names_set(final(out).deep_view()) == spec_names_set(old(out).deep_view()).union(
            spec_ref_tables(t@, spec_scope_stack_view(old(cte_scopes)@)),
        ),
    decreases *t,
{
    match t {
        SqlTableRef::Named(name) => {
            if is_cte_alias(name.as_str(), cte_scopes) {
                proof {
                    assert(spec_names_set(out.deep_view()) =~= spec_names_set(
                        out.deep_view(),
                    ).union(Set::empty()));
                }
            } else {
                let owned = name.clone();
                insert_name(out, owned);
                proof {
                    assert(spec_names_set(out.deep_view()) =~= spec_names_set(
                        old(out).deep_view(),
                    ).union(Set::empty().insert(name@)));
                }
            }
        },
        SqlTableRef::Derived(q) => {
            collect_query(q, cte_scopes, out);
        },
        SqlTableRef::Nested(refs) => {
            let ghost scopes = spec_scope_stack_view(cte_scopes@);
            let ghost out0 = out.deep_view();
            let count = refs.len();
            let mut i: usize = 0;
            while i < count
                invariant
                    count == refs@.len(),
                    i <= count,
                    cte_scopes@ == old(cte_scopes)@,
                    spec_scope_stack_view(cte_scopes@) == scopes,
                    spec_sorted_unique(out.deep_view()),
                    spec_names_set(out.deep_view()) =~= spec_names_set(out0).union(
                        spec_refs_prefix_tables(t@->Nested_0, scopes, i as int),
                    ),
                decreases count - i,
            {
                proof {
                    assert(decreases_to!(*t => t->Nested_0@[i as int]));
                }
                collect_table_ref(&refs[i], cte_scopes, out);
                proof {
                    assert(t@->Nested_0[i as int] == spec_table_ref_view(refs@[i as int]));
                    lemma_refs_prefix_step(t@->Nested_0, scopes, i as int);
                }
                i += 1;
            }
            proof {
                lemma_refs_prefix_full(t@->Nested_0, scopes);
            }
        },
    }
}

/// The deterministic, lexicographically sorted, duplicate-free set of
/// base tables the query reads, with every CTE and derived-table alias
/// excluded exactly as `spec_query_tables` states.
pub fn query_base_tables(q: &SqlQuery) -> (r: Vec<String>)
    ensures
        spec_sorted_unique(r.deep_view()),
        spec_names_set(r.deep_view()) == spec_query_tables(q@, Seq::empty()),
{
    let mut scopes: Vec<Vec<String>> = Vec::new();
    let mut out: Vec<String> = Vec::new();
    proof {
        assert(spec_scope_stack_view(scopes@) =~= Seq::<Set<Seq<char>>>::empty());
        assert(spec_names_set(out.deep_view()) =~= Set::<Seq<char>>::empty());
    }
    collect_query(q, &mut scopes, &mut out);
    proof {
        assert(spec_names_set(out.deep_view()) =~= spec_query_tables(q@, Seq::empty()));
    }
    out
}

} // verus!
