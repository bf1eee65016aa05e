//! The canonical statement tree that dependency extraction works on, and
//! its mathematical model.

use vstd::prelude::*;

verus! {

/// `UNION`, `EXCEPT` or `INTERSECT`.
#[derive(Debug, Clone, Copy, PartialEq, Eq, Structural)]
pub enum SetOperator {
    Union,
    Except,
    Intersect,
}

/// One item of a `FROM` clause.
#[derive(Debug)]
pub enum FromItem {
    /// A base table, by its qualified name.
    Table { name: String },
    /// A subquery in the place of a table.
    Derived { subquery: Box<Query> },
    /// A join of two from-items.
    Join { left: Box<FromItem>, right: Box<FromItem> },
    /// Any other relation; it names no table.
    Other,
}

/// The body of a query.
#[derive(Debug)]
pub enum SetExpr {
    /// A plain `SELECT` with its from-items.
    Select { from: Vec<FromItem> },
    /// A set operation on two bodies, with or without `ALL`.
    SetOperation { op: SetOperator, all: bool, left: Box<SetExpr>, right: Box<SetExpr> },
    /// A parenthesised query.
    Query(Box<Query>),
    /// Any other body; it names no table.
    Other,
}

/// A named common table expression.
#[derive(Debug)]
pub struct Cte {
    pub alias: String,
    pub query: Query,
}

/// A query: a body and the common table expressions of its `WITH` clause.
#[derive(Debug)]
pub struct Query {
    pub with: Vec<Cte>,
    pub body: SetExpr,
}

/// A parsed statement.
#[derive(Debug)]
pub enum Statement {
    Query(Query),
    /// A statement that is no query.
    Other,
}

pub ghost enum FromItemModel {
    Table { name: Seq<char> },
    Derived { subquery: Box<QueryModel> },
    Join { left: Box<FromItemModel>, right: Box<FromItemModel> },
    Other,
}

pub ghost enum SetExprModel {
    Select { from: Seq<FromItemModel> },
    SetOperation { op: SetOperator, all: bool, left: Box<SetExprModel>, right: Box<SetExprModel> },
    Query(Box<QueryModel>),
    Other,
}

pub ghost struct CteModel {
    pub alias: Seq<char>,
    pub query: QueryModel,
}

pub ghost struct QueryModel {
    pub with: Seq<CteModel>,
    pub body: SetExprModel,
}

pub ghost enum StatementModel {
    Query(QueryModel),
    Other,
}

pub open spec fn from_item_model(item: FromItem) -> FromItemModel
    decreases item,
{
    match item {
        FromItem::Table { name } => FromItemModel::Table { name: name@ },
        FromItem::Derived { subquery } => FromItemModel::Derived {
            subquery: Box::new(query_model(*subquery)),
        },
        FromItem::Join { left, right } => FromItemModel::Join {
            left: Box::new(from_item_model(*left)),
            right: Box::new(from_item_model(*right)),
        },
        FromItem::Other => FromItemModel::Other,
    }
}

pub open spec fn from_items_model(items: Vec<FromItem>) -> Seq<FromItemModel>
    decreases items,
{
    Seq::new(
        items@.len(),
        |i: int|
            if 0 <= i < items@.len() {
                from_item_model(items@[i])
            } else {
                FromItemModel::Other
            },
    )
}

pub open spec fn set_expr_model(body: SetExpr) -> SetExprModel
    decreases body,
{
    match body {
        SetExpr::Select { from } => SetExprModel::Select { from: from_items_model(from) },
        SetExpr::SetOperation { op, all, left, right } => SetExprModel::SetOperation {
            op,
            all,
            left: Box::new(set_expr_model(*left)),
            right: Box::new(set_expr_model(*right)),
        },
        SetExpr::Query(query) => SetExprModel::Query(Box::new(query_model(*query))),
        SetExpr::Other => SetExprModel::Other,
    }
}

pub open spec fn cte_model(cte: Cte) -> CteModel
    decreases cte,
{
    CteModel { alias: cte.alias@, query: query_model(cte.query) }
}

pub open spec fn ctes_model(ctes: Vec<Cte>) -> Seq<CteModel>
    decreases ctes,
{
    Seq::new(
        ctes@.len(),
        |i: int|
            if 0 <= i < ctes@.len() {
                cte_model(ctes@[i])
            } else {
                arbitrary()
            },
    )
}

pub open spec fn query_model(query: Query) -> QueryModel
    decreases query,
{
    QueryModel { with: ctes_model(query.with), body: set_expr_model(query.body) }
}

pub open spec fn statement_model(statement: Statement) -> StatementModel {
    match statement {
        Statement::Query(query) => StatementModel::Query(query_model(query)),
        Statement::Other => StatementModel::Other,
    }
}

/// The models of a list of statements, in order.
pub open spec fn statements_model(statements: Seq<Statement>) -> Seq<StatementModel> {
    Seq::new(statements.len(), |i: int| statement_model(statements[i]))
}

impl View for FromItem {
    type V = FromItemModel;

    open spec fn view(&self) -> FromItemModel {
        from_item_model(*self)
    }
}

impl View for SetExpr {
    type V = SetExprModel;

    open spec fn view(&self) -> SetExprModel {
        set_expr_model(*self)
    }
}

impl View for Cte {
    type V = CteModel;

    open spec fn view(&self) -> CteModel {
        cte_model(*self)
    }
}

impl View for Query {
    type V = QueryModel;

    open spec fn view(&self) -> QueryModel {
        query_model(*self)
    }
}

impl View for Statement {
    type V = StatementModel;

    open spec fn view(&self) -> StatementModel {
        statement_model(*self)
    }
}

/// The tables that a from-item reads.
pub open spec fn from_item_tables(item: FromItemModel) -> Set<Seq<char>>
    decreases item,
{
    match item {
        FromItemModel::Table { name } => set![name],
        FromItemModel::Derived { subquery } => query_tables(*subquery),
        FromItemModel::Join { left, right } => from_item_tables(*left).union(
            from_item_tables(*right),
        ),
        FromItemModel::Other => Set::empty(),
    }
}

/// The tables that the first `count` from-items read.
pub open spec fn from_tables(items: Seq<FromItemModel>, count: nat) -> Set<Seq<char>>
    decreases items, count,
{
    if 0 < count <= items.len() {
        from_tables(items, (count - 1) as nat).union(from_item_tables(items[count - 1]))
    } else {
        Set::empty()
    }
}

/// The tables that a query body reads.
pub open spec fn set_expr_tables(body: SetExprModel) -> Set<Seq<char>>
    decreases body,
{
    match body {
        SetExprModel::Select { from } => from_tables(from, from.len()),
        SetExprModel::SetOperation { left, right, .. } => set_expr_tables(*left).union(
            set_expr_tables(*right),
        ),
        SetExprModel::Query(query) => query_tables(*query),
        SetExprModel::Other => Set::empty(),
    }
}

/// The tables that a common table expression reads: those of its query,
/// without its own alias.
pub open spec fn cte_tables(cte: CteModel) -> Set<Seq<char>>
    decreases cte,
{
    query_tables(cte.query).remove(cte.alias)
}

/// The tables that the first `count` common table expressions read.
pub open spec fn ctes_tables(ctes: Seq<CteModel>, count: nat) -> Set<Seq<char>>
    decreases ctes, count,
{
    if 0 < count <= ctes.len() {
        ctes_tables(ctes, (count - 1) as nat).union(cte_tables(ctes[count - 1]))
    } else {
        Set::empty()
    }
}

/// The tables that a query reads: those of its body and those of every
/// common table expression. The alias of a common table expression is a
/// table of the query where the body or another expression reads it.
pub open spec fn query_tables(query: QueryModel) -> Set<Seq<char>>
    decreases query,
{
    set_expr_tables(query.body).union(ctes_tables(query.with, query.with.len()))
}

/// The tables that a statement reads. Only a query reads any.
pub open spec fn statement_tables(statement: StatementModel) -> Set<Seq<char>> {
    match statement {
        StatementModel::Query(query) => query_tables(query),
        StatementModel::Other => Set::empty(),
    }
}

/// Whether a statement is a query whose body is a plain `SELECT` or a
/// parenthesised query.
pub open spec fn is_select(statement: StatementModel) -> bool {
    match statement {
        StatementModel::Query(query) => query.body is Select || query.body is Query,
        StatementModel::Other => false,
    }
}

/// A name is among the tables of a list of from-items exactly when it is
/// among the tables of one of them.
pub proof fn lemma_from_tables_is_union(items: Seq<FromItemModel>, count: nat, name: Seq<char>)
    requires
        count <= items.len(),
    ensures
        from_tables(items, count).contains(name) <==> exists|i: int|
            0 <= i < count && #[trigger] from_item_tables(items[i]).contains(name),
    decreases count,
{
    if count > 0 {
        lemma_from_tables_is_union(items, (count - 1) as nat, name);
        if from_item_tables(items[count - 1]).contains(name) {
            assert(0 <= count - 1 < count && from_item_tables(items[count - 1]).contains(name));
        }
    }
}

/// The tables of a `SELECT` do not depend on the order of its
/// from-items: two lists with the same items read the same tables.
pub proof fn lemma_tables_ignore_from_order(first: Seq<FromItemModel>, second: Seq<FromItemModel>)
    requires
        first.to_multiset() == second.to_multiset(),
    ensures
        set_expr_tables(SetExprModel::Select { from: first }) == set_expr_tables(
            SetExprModel::Select { from: second },
        ),
{
    first.to_multiset_ensures();
    second.to_multiset_ensures();
    let a = from_tables(first, first.len());
    let b = from_tables(second, second.len());
    assert forall|name: Seq<char>| a.contains(name) <==> b.contains(name) by {
        lemma_from_tables_is_union(first, first.len(), name);
        lemma_from_tables_is_union(second, second.len(), name);
        if a.contains(name) {
            let i = choose|i: int|
                0 <= i < first.len() && #[trigger] from_item_tables(first[i]).contains(name);
            assert(first.contains(first[i]));
            assert(second.to_multiset().count(first[i]) > 0);
            assert(second.contains(first[i]));
            let j = choose|j: int| 0 <= j < second.len() && second[j] == first[i];
            assert(from_item_tables(second[j]).contains(name));
        }
        if b.contains(name) {
            let i = choose|i: int|
                0 <= i < second.len() && #[trigger] from_item_tables(second[i]).contains(name);
            assert(second.contains(second[i]));
            assert(first.to_multiset().count(second[i]) > 0);
            assert(first.contains(second[i]));
            let j = choose|j: int| 0 <= j < first.len() && first[j] == second[i];
            assert(from_item_tables(first[j]).contains(name));
        }
    }
    assert(a =~= b);
}

/// The tables of a join and of a set operation do not depend on which
/// side is written first.
pub proof fn lemma_tables_ignore_sides(
    left: FromItemModel,
    right: FromItemModel,
    op: SetOperator,
    all: bool,
    first: SetExprModel,
    second: SetExprModel,
)
    ensures
        from_item_tables(FromItemModel::Join { left: Box::new(left), right: Box::new(right) })
            == from_item_tables(
            FromItemModel::Join { left: Box::new(right), right: Box::new(left) },
        ),
        set_expr_tables(
            SetExprModel::SetOperation { op, all, left: Box::new(first), right: Box::new(second) },
        ) == set_expr_tables(
            SetExprModel::SetOperation { op, all, left: Box::new(second), right: Box::new(first) },
        ),
{
    assert(from_item_tables(left).union(from_item_tables(right)) =~= from_item_tables(right).union(
        from_item_tables(left),
    ));
    assert(set_expr_tables(first).union(set_expr_tables(second)) =~= set_expr_tables(second).union(
        set_expr_tables(first),
    ));
}

/// A common table expression never reads its own alias: a reference to
/// the alias inside its own query is a reference to itself.
pub proof fn lemma_cte_does_not_read_itself(cte: CteModel)
    ensures
        !cte_tables(cte).contains(cte.alias),
{
}

} // verus!
