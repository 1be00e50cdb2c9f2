//! What a parsed SQL text says about the tables it reads: the statements of
//! the text in a form of the library's own, holding of each query its WITH
//! queries, its body (a SELECT, a parenthesised query or a set operation),
//! the relations of each SELECT's FROM list and joins, and the subqueries of
//! its WHERE condition; and the tables such a statement names.
use vstd::prelude::*;
use sqlparser::ast::{
    Expr, FunctionArg, FunctionArgExpr, FunctionArguments, JoinConstraint, JoinOperator, ObjectNamePart,
    OrderByKind, Query, Select, SelectItem, SetExpr, Statement, TableFactor, TableWithJoins,
};
use sqlparser::ast::JoinOperator as J;
use sqlparser::dialect::GenericDialect;
use sqlparser::parser::Parser;

verus! {

#[verifier::external_type_specification]
#[verifier::external_body]
pub struct ExQuery(Query);

#[verifier::external_type_specification]
#[verifier::external_body]
pub struct ExSetExpr(SetExpr);

#[verifier::external_type_specification]
#[verifier::external_body]
pub struct ExSelect(Select);

#[verifier::external_type_specification]
#[verifier::external_body]
pub struct ExSelectItem(SelectItem);

#[verifier::external_type_specification]
#[verifier::external_body]
pub struct ExTableWithJoins(TableWithJoins);

#[verifier::external_type_specification]
#[verifier::external_body]
pub struct ExTableFactor(TableFactor);

#[verifier::external_type_specification]
#[verifier::external_body]
pub struct ExObjectNamePart(ObjectNamePart);

#[verifier::external_type_specification]
#[verifier::external_body]
pub struct ExExpr(Expr);

#[verifier::external_type_specification]
#[verifier::external_body]
pub struct ExJoinOperator(JoinOperator);

#[verifier::external_type_specification]
#[verifier::external_body]
pub struct ExFunctionArguments(FunctionArguments);

#[verifier::external_type_specification]
#[verifier::external_body]
pub struct ExFunctionArg(FunctionArg);

/// A query: the queries of its WITH clause, its body, and the expressions
/// of its ORDER BY.
#[derive(Debug, PartialEq)]
pub struct SqlQuery {
    pub ctes: Vec<SqlQuery>,
    pub body: Box<SqlSetExpr>,
    pub order_by: Vec<SqlExpr>,
}

/// The body of a query.
#[derive(Debug, PartialEq)]
pub enum SqlSetExpr {
    /// A SELECT: the expressions it selects, its FROM list, its WHERE
    /// condition and its HAVING condition.
    Select {
        projection: Vec<SqlExpr>,
        from: Vec<SqlTableWithJoins>,
        selection: Option<SqlExpr>,
        having: Option<SqlExpr>,
    },
    /// A query in parentheses.
    Query(Box<SqlQuery>),
    /// UNION, EXCEPT or INTERSECT of two bodies.
    SetOperation { left: Box<SqlSetExpr>, right: Box<SqlSetExpr> },
    Other,
}

/// One item of a FROM list: a relation, the relations joined to it, and
/// the ON condition of each join (`Other` where it has none).
#[derive(Debug, PartialEq)]
pub struct SqlTableWithJoins {
    pub relation: SqlTableFactor,
    pub joins: Vec<SqlTableFactor>,
    pub join_conditions: Vec<SqlExpr>,
}

/// A relation: a named table (the parts of its name, unquoted), a subquery,
/// joins in parentheses, or something else.
#[derive(Debug, PartialEq)]
pub enum SqlTableFactor {
    Table(Vec<String>),
    Derived(Box<SqlQuery>),
    Nested(Box<SqlTableWithJoins>),
    Other,
}

/// An expression, as far as it can hold a subquery.
#[derive(Debug, PartialEq)]
pub enum SqlExpr {
    /// `(SELECT ...)`
    Subquery(Box<SqlQuery>),
    /// `expr [NOT] IN (SELECT ...)`
    InSubquery { expr: Box<SqlExpr>, subquery: Box<SqlQuery> },
    /// `[NOT] EXISTS (SELECT ...)`
    Exists(Box<SqlQuery>),
    BinaryOp { left: Box<SqlExpr>, right: Box<SqlExpr> },
    UnaryOp(Box<SqlExpr>),
    Nested(Box<SqlExpr>),
    /// An expression made of others, in order: an IN list with what it
    /// tests, BETWEEN with its bounds, CASE with its conditions and results,
    /// a function call's arguments.
    Compound(Vec<SqlExpr>),
    Other,
}

/// A statement: a query, or something else.
#[derive(Debug, PartialEq)]
pub enum SqlStatement {
    Query(SqlQuery),
    Other,
}

pub struct SqlQueryV {
    pub ctes: Seq<SqlQueryV>,
    pub body: Box<SqlSetExprV>,
    pub order_by: Seq<SqlExprV>,
}

pub enum SqlSetExprV {
    Select {
        projection: Seq<SqlExprV>,
        from: Seq<SqlTableWithJoinsV>,
        selection: Option<SqlExprV>,
        having: Option<SqlExprV>,
    },
    Query(Box<SqlQueryV>),
    SetOperation { left: Box<SqlSetExprV>, right: Box<SqlSetExprV> },
    Other,
}

pub struct SqlTableWithJoinsV {
    pub relation: SqlTableFactorV,
    pub joins: Seq<SqlTableFactorV>,
    pub join_conditions: Seq<SqlExprV>,
}

pub enum SqlTableFactorV {
    Table(Seq<Seq<char>>),
    Derived(Box<SqlQueryV>),
    Nested(Box<SqlTableWithJoinsV>),
    Other,
}

pub enum SqlExprV {
    Subquery(Box<SqlQueryV>),
    InSubquery { expr: Box<SqlExprV>, subquery: Box<SqlQueryV> },
    Exists(Box<SqlQueryV>),
    BinaryOp { left: Box<SqlExprV>, right: Box<SqlExprV> },
    UnaryOp(Box<SqlExprV>),
    Nested(Box<SqlExprV>),
    Compound(Seq<SqlExprV>),
    Other,
}

pub enum SqlStatementV {
    Query(SqlQueryV),
    Other,
}

pub open spec fn strings_view(v: Seq<String>) -> Seq<Seq<char>> {
    Seq::new(v.len(), |i: int| v[i]@)
}

impl SqlQuery {
    pub open spec fn deep(self) -> SqlQueryV
        decreases self,
    {
        SqlQueryV {
            ctes: SqlQuery::deep_queries(self.ctes@),
            body: Box::new((*self.body).deep()),
            order_by: SqlExpr::deep_exprs(self.order_by@),
        }
    }

    pub open spec fn deep_queries(s: Seq<SqlQuery>) -> Seq<SqlQueryV>
        decreases s,
    {
        if s.len() == 0 {
            Seq::empty()
        } else {
            SqlQuery::deep_queries(s.subrange(0, s.len() - 1)).push(s[s.len() - 1].deep())
        }
    }
}

impl SqlSetExpr {
    pub open spec fn deep(self) -> SqlSetExprV
        decreases self,
    {
        match self {
            SqlSetExpr::Select { projection, from, selection, having } => SqlSetExprV::Select {
                projection: SqlExpr::deep_exprs(projection@),
                from: SqlTableWithJoins::deep_froms(from@),
                selection: SqlExpr::deep_opt(selection),
                having: SqlExpr::deep_opt(having),
            },
            SqlSetExpr::Query(q) => SqlSetExprV::Query(Box::new((*q).deep())),
            SqlSetExpr::SetOperation { left, right } => SqlSetExprV::SetOperation {
                left: Box::new((*left).deep()),
                right: Box::new((*right).deep()),
            },
            SqlSetExpr::Other => SqlSetExprV::Other,
        }
    }
}

impl SqlTableWithJoins {
    pub open spec fn deep(self) -> SqlTableWithJoinsV
        decreases self,
    {
        SqlTableWithJoinsV {
            relation: self.relation.deep(),
            joins: SqlTableFactor::deep_factors(self.joins@),
            join_conditions: SqlExpr::deep_exprs(self.join_conditions@),
        }
    }

    pub open spec fn deep_froms(s: Seq<SqlTableWithJoins>) -> Seq<SqlTableWithJoinsV>
        decreases s,
    {
        if s.len() == 0 {
            Seq::empty()
        } else {
            SqlTableWithJoins::deep_froms(s.subrange(0, s.len() - 1)).push(s[s.len() - 1].deep())
        }
    }
}

impl SqlTableFactor {
    pub open spec fn deep(self) -> SqlTableFactorV
        decreases self,
    {
        match self {
            SqlTableFactor::Table(parts) => SqlTableFactorV::Table(strings_view(parts@)),
            SqlTableFactor::Derived(q) => SqlTableFactorV::Derived(Box::new((*q).deep())),
            SqlTableFactor::Nested(t) => SqlTableFactorV::Nested(Box::new((*t).deep())),
            SqlTableFactor::Other => SqlTableFactorV::Other,
        }
    }

    pub open spec fn deep_factors(s: Seq<SqlTableFactor>) -> Seq<SqlTableFactorV>
        decreases s,
    {
        if s.len() == 0 {
            Seq::empty()
        } else {
            SqlTableFactor::deep_factors(s.subrange(0, s.len() - 1)).push(s[s.len() - 1].deep())
        }
    }
}

impl SqlExpr {
    pub open spec fn deep(self) -> SqlExprV
        decreases self,
    {
        match self {
            SqlExpr::Subquery(q) => SqlExprV::Subquery(Box::new((*q).deep())),
            SqlExpr::InSubquery { expr, subquery } => SqlExprV::InSubquery {
                expr: Box::new((*expr).deep()),
                subquery: Box::new((*subquery).deep()),
            },
            SqlExpr::Exists(q) => SqlExprV::Exists(Box::new((*q).deep())),
            SqlExpr::BinaryOp { left, right } => SqlExprV::BinaryOp {
                left: Box::new((*left).deep()),
                right: Box::new((*right).deep()),
            },
            SqlExpr::UnaryOp(x) => SqlExprV::UnaryOp(Box::new((*x).deep())),
            SqlExpr::Nested(x) => SqlExprV::Nested(Box::new((*x).deep())),
            SqlExpr::Compound(xs) => SqlExprV::Compound(SqlExpr::deep_exprs(xs@)),
            SqlExpr::Other => SqlExprV::Other,
        }
    }

    pub open spec fn deep_opt(o: Option<SqlExpr>) -> Option<SqlExprV>
        decreases o,
    {
        match o {
            Some(x) => Some(x.deep()),
            None => None,
        }
    }

    pub open spec fn deep_exprs(s: Seq<SqlExpr>) -> Seq<SqlExprV>
        decreases s,
    {
        if s.len() == 0 {
            Seq::empty()
        } else {
            SqlExpr::deep_exprs(s.subrange(0, s.len() - 1)).push(s[s.len() - 1].deep())
        }
    }
}

impl SqlStatement {
    pub open spec fn deep(self) -> SqlStatementV {
        match self {
            SqlStatement::Query(q) => SqlStatementV::Query(q.deep()),
            SqlStatement::Other => SqlStatementV::Other,
        }
    }
}

pub open spec fn statements_view(s: Seq<SqlStatement>) -> Seq<SqlStatementV> {
    Seq::new(s.len(), |i: int| s[i].deep())
}

pub proof fn lemma_deep_queries(s: Seq<SqlQuery>)
    ensures
        SqlQuery::deep_queries(s).len() == s.len(),
        forall|i: int| 0 <= i < s.len() ==> #[trigger] SqlQuery::deep_queries(s)[i] == s[i].deep(),
    decreases s.len(),
{
    if s.len() > 0 {
        lemma_deep_queries(s.subrange(0, s.len() - 1));
        assert forall|i: int| 0 <= i < s.len() implies #[trigger] SqlQuery::deep_queries(s)[i]
            == s[i].deep() by {
            if i < s.len() - 1 {
                assert(s.subrange(0, s.len() - 1)[i] == s[i]);
            }
        }
    }
}

pub proof fn lemma_deep_exprs(s: Seq<SqlExpr>)
    ensures
        SqlExpr::deep_exprs(s).len() == s.len(),
        forall|i: int| 0 <= i < s.len() ==> #[trigger] SqlExpr::deep_exprs(s)[i] == s[i].deep(),
    decreases s.len(),
{
    if s.len() > 0 {
        lemma_deep_exprs(s.subrange(0, s.len() - 1));
        assert forall|i: int| 0 <= i < s.len() implies #[trigger] SqlExpr::deep_exprs(s)[i]
            == s[i].deep() by {
            if i < s.len() - 1 {
                assert(s.subrange(0, s.len() - 1)[i] == s[i]);
            }
        }
    }
}

pub proof fn lemma_deep_froms(s: Seq<SqlTableWithJoins>)
    ensures
        SqlTableWithJoins::deep_froms(s).len() == s.len(),
        forall|i: int| 0 <= i < s.len() ==> #[trigger] SqlTableWithJoins::deep_froms(s)[i] == s[i].deep(),
    decreases s.len(),
{
    if s.len() > 0 {
        lemma_deep_froms(s.subrange(0, s.len() - 1));
        assert forall|i: int| 0 <= i < s.len() implies #[trigger] SqlTableWithJoins::deep_froms(s)[i]
            == s[i].deep() by {
            if i < s.len() - 1 {
                assert(s.subrange(0, s.len() - 1)[i] == s[i]);
            }
        }
    }
}

pub proof fn lemma_deep_factors(s: Seq<SqlTableFactor>)
    ensures
        SqlTableFactor::deep_factors(s).len() == s.len(),
        forall|i: int| 0 <= i < s.len() ==> #[trigger] SqlTableFactor::deep_factors(s)[i] == s[i].deep(),
    decreases s.len(),
{
    if s.len() > 0 {
        lemma_deep_factors(s.subrange(0, s.len() - 1));
        assert forall|i: int| 0 <= i < s.len() implies #[trigger] SqlTableFactor::deep_factors(s)[i]
            == s[i].deep() by {
            if i < s.len() - 1 {
                assert(s.subrange(0, s.len() - 1)[i] == s[i]);
            }
        }
    }
}

// ---------------------------------------------------------------------------
// Parsing.
/// What `sqlparser::parser::Parser::parse_sql` with the generic dialect makes
/// of a text: its statements, or the error as shown.
pub uninterp spec fn parsed_sql(sql: Seq<char>) -> Result<Seq<SqlStatementV>, Seq<char>>;

/// Part of the conversion that `parse_sql` makes: one part of a table's name,
/// an identifier without its quotes. Nothing is claimed of it beyond what
/// `parse_sql` claims.
#[verifier::external_body]
fn name_part_model(p: &ObjectNamePart) -> String {
    match p {
        ObjectNamePart::Identifier(ident) => ident.value.clone(),
        other => other.to_string(),
    }
}

/// Part of the conversion that `parse_sql` makes: a parsed query. Nothing is
/// claimed of it beyond what `parse_sql` claims.
#[verifier::external_body]
fn query_model(q: &Query) -> SqlQuery {
    let ctes = match &q.with {
        Some(with) => with.cte_tables.iter().map(|c| query_model(&c.query)).collect(),
        None => Vec::new(),
    };
    let order_by = match q.order_by.as_ref().map(|o| &o.kind) {
        Some(OrderByKind::Expressions(es)) => es.iter().map(|o| expr_model(&o.expr)).collect(),
        _ => Vec::new(),
    };
    SqlQuery { ctes, body: Box::new(set_expr_model(&q.body)), order_by }
}

/// Part of the conversion that `parse_sql` makes: a parsed query body.
/// Nothing is claimed of it beyond what `parse_sql` claims.
#[verifier::external_body]
fn set_expr_model(b: &SetExpr) -> SqlSetExpr {
    match b {
        SetExpr::Select(select) => select_model(select),
        SetExpr::Query(q) => SqlSetExpr::Query(Box::new(query_model(q))),
        SetExpr::SetOperation { left, right, .. } => SqlSetExpr::SetOperation {
            left: Box::new(set_expr_model(left)),
            right: Box::new(set_expr_model(right)),
        },
        _ => SqlSetExpr::Other,
    }
}

/// Part of the conversion that `parse_sql` makes: a parsed SELECT. Nothing is
/// claimed of it beyond what `parse_sql` claims.
#[verifier::external_body]
fn select_model(s: &Select) -> SqlSetExpr {
    SqlSetExpr::Select {
        projection: s.projection.iter().map(select_item_model).collect(),
        from: s.from.iter().map(from_model).collect(),
        selection: s.selection.as_ref().map(expr_model),
        having: s.having.as_ref().map(expr_model),
    }
}

/// Part of the conversion that `parse_sql` makes: one selected item, its
/// expression where it has one. Nothing is claimed of it beyond what
/// `parse_sql` claims.
#[verifier::external_body]
fn select_item_model(item: &SelectItem) -> SqlExpr {
    match item {
        SelectItem::UnnamedExpr(e) => expr_model(e),
        SelectItem::ExprWithAlias { expr, .. } => expr_model(expr),
        SelectItem::ExprWithAliases { expr, .. } => expr_model(expr),
        _ => SqlExpr::Other,
    }
}

/// Part of the conversion that `parse_sql` makes: one item of a FROM list.
/// Nothing is claimed of it beyond what `parse_sql` claims.
#[verifier::external_body]
fn from_model(t: &TableWithJoins) -> SqlTableWithJoins {
    SqlTableWithJoins {
        relation: table_factor_model(&t.relation),
        joins: t.joins.iter().map(|j| table_factor_model(&j.relation)).collect(),
        join_conditions: t.joins.iter().map(|j| join_condition_model(&j.join_operator)).collect(),
    }
}

/// Part of the conversion that `parse_sql` makes: the ON condition of a
/// join. Nothing is claimed of it beyond what `parse_sql` claims.
#[verifier::external_body]
fn join_condition_model(op: &JoinOperator) -> SqlExpr {
    let c = match op {
        J::Join(c) | J::Inner(c) | J::Left(c) | J::LeftOuter(c) | J::Right(c) | J::RightOuter(c)
        | J::FullOuter(c) | J::CrossJoin(c) | J::Semi(c) | J::LeftSemi(c) | J::RightSemi(c)
        | J::Anti(c) | J::LeftAnti(c) | J::RightAnti(c) | J::StraightJoin(c)
        | J::AsOf { constraint: c, .. } => c,
        _ => return SqlExpr::Other,
    };
    match c {
        JoinConstraint::On(e) => expr_model(e),
        _ => SqlExpr::Other,
    }
}

/// Part of the conversion that `parse_sql` makes: a parsed relation. Nothing
/// is claimed of it beyond what `parse_sql` claims.
#[verifier::external_body]
fn table_factor_model(f: &TableFactor) -> SqlTableFactor {
    match f {
        TableFactor::Table { name, .. } => SqlTableFactor::Table(name.0.iter().map(name_part_model).collect()),
        TableFactor::Derived { subquery, .. } => SqlTableFactor::Derived(Box::new(query_model(subquery))),
        TableFactor::NestedJoin { table_with_joins, .. } => SqlTableFactor::Nested(Box::new(from_model(table_with_joins))),
        _ => SqlTableFactor::Other,
    }
}

/// Part of the conversion that `parse_sql` makes: a parsed expression.
/// Nothing is claimed of it beyond what `parse_sql` claims.
#[verifier::external_body]
fn expr_model(e: &Expr) -> SqlExpr {
    match e {
        Expr::Subquery(q) => SqlExpr::Subquery(Box::new(query_model(q))),
        Expr::InSubquery { expr, subquery, .. } => SqlExpr::InSubquery {
            expr: Box::new(expr_model(expr)),
            subquery: Box::new(query_model(subquery)),
        },
        Expr::Exists { subquery, .. } => SqlExpr::Exists(Box::new(query_model(subquery))),
        Expr::BinaryOp { left, right, .. } => SqlExpr::BinaryOp { left: Box::new(expr_model(left)), right: Box::new(expr_model(right)) },
        Expr::UnaryOp { expr, .. } => SqlExpr::UnaryOp(Box::new(expr_model(expr))),
        Expr::Nested(x) => SqlExpr::Nested(Box::new(expr_model(x))),
        _ => compound_model(e),
    }
}

/// Part of the conversion that `parse_sql` makes: an expression made of
/// others. Nothing is claimed of it beyond what `parse_sql` claims.
#[verifier::external_body]
fn compound_model(e: &Expr) -> SqlExpr {
    match e {
        Expr::InList { expr, list, .. } => SqlExpr::Compound(std::iter::once(&**expr).chain(list).map(expr_model).collect()),
        Expr::Between { expr, low, high, .. } => SqlExpr::Compound(vec![expr_model(expr), expr_model(low), expr_model(high)]),
        Expr::Function(f) => function_args_model(&f.args),
        Expr::Case { .. } => case_model(e),
        _ => SqlExpr::Other,
    }
}

/// Part of the conversion that `parse_sql` makes: a CASE expression's parts,
/// in order. Nothing is claimed of it beyond what `parse_sql` claims.
#[verifier::external_body]
fn case_model(e: &Expr) -> SqlExpr {
    match e {
        Expr::Case { operand, conditions, else_result, .. } => SqlExpr::Compound(
            operand.iter().map(|x| expr_model(x))
                .chain(conditions.iter().flat_map(|w| [expr_model(&w.condition), expr_model(&w.result)]))
                .chain(else_result.iter().map(|x| expr_model(x)))
                .collect(),
        ),
        _ => SqlExpr::Other,
    }
}

/// Part of the conversion that `parse_sql` makes: a function call's
/// arguments. Nothing is claimed of it beyond what `parse_sql` claims.
#[verifier::external_body]
fn function_args_model(a: &FunctionArguments) -> SqlExpr {
    match a {
        FunctionArguments::Subquery(q) => SqlExpr::Subquery(Box::new(query_model(q))),
        FunctionArguments::List(l) => SqlExpr::Compound(l.args.iter().map(function_arg_model).collect()),
        FunctionArguments::None => SqlExpr::Other,
    }
}

/// Part of the conversion that `parse_sql` makes: one argument of a
/// function call. Nothing is claimed of it beyond what `parse_sql` claims.
#[verifier::external_body]
fn function_arg_model(a: &FunctionArg) -> SqlExpr {
    match a {
        FunctionArg::Named { arg: FunctionArgExpr::Expr(e), .. } => expr_model(e),
        FunctionArg::ExprNamed { arg: FunctionArgExpr::Expr(e), .. } => expr_model(e),
        FunctionArg::Unnamed(FunctionArgExpr::Expr(e)) => expr_model(e),
        _ => SqlExpr::Other,
    }
}

/// Parses `sql` with `sqlparser::parser::Parser::parse_sql` and the generic
/// dialect, and keeps of each statement what can name tables: the result is
/// named `parsed_sql`.
#[verifier::external_body]
pub(crate) fn parse_sql(sql: &str) -> (r: Result<Vec<SqlStatement>, String>)
    ensures
        match r {
            Ok(v) => parsed_sql(sql@) == Ok::<Seq<SqlStatementV>, Seq<char>>(statements_view(v@)),
            Err(e) => parsed_sql(sql@) == Err::<Seq<SqlStatementV>, Seq<char>>(e@),
        },
{
    match Parser::parse_sql(&GenericDialect {}, sql) {
        Ok(stmts) => Ok(stmts.iter().map(|s| match s {
            Statement::Query(q) => SqlStatement::Query(query_model(q)),
            _ => SqlStatement::Other,
        }).collect()),
        Err(e) => Err(e.to_string()),
    }
}

// ---------------------------------------------------------------------------
// The tables a statement names.
/// A table's name: the parts joined by dots.
pub open spec fn dotted(parts: Seq<Seq<char>>) -> Seq<char>
    decreases parts.len(),
{
    if parts.len() == 0 {
        Seq::empty()
    } else if parts.len() == 1 {
        parts[0]
    } else {
        dotted(parts.drop_last()) + "."@ + parts.last()
    }
}

/// The tables a query names, in order: those of its WITH queries, then those
/// of its body, then those of the subqueries in its ORDER BY.
pub open spec fn query_tables(q: SqlQueryV) -> Seq<Seq<char>>
    decreases q,
{
    queries_tables(q.ctes) + set_expr_tables(*q.body) + exprs_tables(q.order_by)
}

pub open spec fn queries_tables(qs: Seq<SqlQueryV>) -> Seq<Seq<char>>
    decreases qs,
{
    if qs.len() == 0 {
        Seq::empty()
    } else {
        queries_tables(qs.subrange(0, qs.len() - 1)) + query_tables(qs[qs.len() - 1])
    }
}

/// The tables a query body names: a SELECT's, those of its FROM list, then
/// those of the subqueries in its WHERE condition, in the expressions it
/// selects and in its HAVING condition; a set operation's, those of its left
/// side and then of its right side.
pub open spec fn set_expr_tables(e: SqlSetExprV) -> Seq<Seq<char>>
    decreases e,
{
    match e {
        SqlSetExprV::Select { projection, from, selection, having } => froms_tables(from)
            + opt_expr_tables(selection) + exprs_tables(projection) + opt_expr_tables(having),
        SqlSetExprV::Query(q) => query_tables(*q),
        SqlSetExprV::SetOperation { left, right } => set_expr_tables(*left) + set_expr_tables(*right),
        SqlSetExprV::Other => Seq::empty(),
    }
}

pub open spec fn froms_tables(fs: Seq<SqlTableWithJoinsV>) -> Seq<Seq<char>>
    decreases fs,
{
    if fs.len() == 0 {
        Seq::empty()
    } else {
        froms_tables(fs.subrange(0, fs.len() - 1)) + from_tables(fs[fs.len() - 1])
    }
}

pub open spec fn from_tables(t: SqlTableWithJoinsV) -> Seq<Seq<char>>
    decreases t,
{
    factor_tables(t.relation) + factors_tables(t.joins) + exprs_tables(t.join_conditions)
}

pub open spec fn factors_tables(fs: Seq<SqlTableFactorV>) -> Seq<Seq<char>>
    decreases fs,
{
    if fs.len() == 0 {
        Seq::empty()
    } else {
        factors_tables(fs.subrange(0, fs.len() - 1)) + factor_tables(fs[fs.len() - 1])
    }
}

/// The tables a relation names: a table its name, a subquery its tables,
/// joins in parentheses theirs.
pub open spec fn factor_tables(f: SqlTableFactorV) -> Seq<Seq<char>>
    decreases f,
{
    match f {
        SqlTableFactorV::Table(parts) => seq![dotted(parts)],
        SqlTableFactorV::Derived(q) => query_tables(*q),
        SqlTableFactorV::Nested(t) => from_tables(*t),
        SqlTableFactorV::Other => Seq::empty(),
    }
}

/// The tables of the subqueries an expression holds, from left to right.
pub open spec fn expr_tables(x: SqlExprV) -> Seq<Seq<char>>
    decreases x,
{
    match x {
        SqlExprV::Subquery(q) => query_tables(*q),
        SqlExprV::InSubquery { expr, subquery } => expr_tables(*expr) + query_tables(*subquery),
        SqlExprV::Exists(q) => query_tables(*q),
        SqlExprV::BinaryOp { left, right } => expr_tables(*left) + expr_tables(*right),
        SqlExprV::UnaryOp(y) => expr_tables(*y),
        SqlExprV::Nested(y) => expr_tables(*y),
        SqlExprV::Compound(ys) => exprs_tables(ys),
        SqlExprV::Other => Seq::empty(),
    }
}

pub open spec fn opt_expr_tables(o: Option<SqlExprV>) -> Seq<Seq<char>>
    decreases o,
{
    match o {
        Some(x) => expr_tables(x),
        None => Seq::empty(),
    }
}

pub open spec fn exprs_tables(xs: Seq<SqlExprV>) -> Seq<Seq<char>>
    decreases xs,
{
    if xs.len() == 0 {
        Seq::empty()
    } else {
        exprs_tables(xs.subrange(0, xs.len() - 1)) + expr_tables(xs[xs.len() - 1])
    }
}

pub open spec fn statement_tables(s: SqlStatementV) -> Seq<Seq<char>> {
    match s {
        SqlStatementV::Query(q) => query_tables(q),
        SqlStatementV::Other => Seq::empty(),
    }
}

pub open spec fn statements_tables(ss: Seq<SqlStatementV>) -> Seq<Seq<char>>
    decreases ss.len(),
{
    if ss.len() == 0 {
        Seq::empty()
    } else {
        statements_tables(ss.subrange(0, ss.len() - 1)) + statement_tables(ss[ss.len() - 1])
    }
}

/// A table's name from the parts of it (see `dotted`).
pub fn dotted_name(parts: &Vec<String>) -> (r: String)
    ensures
        r@ == dotted(strings_view(parts@)),
{
    let ghost s = strings_view(parts@);
    let mut r = String::new();
    proof {
        assert(s.subrange(0, 0).len() == 0);
    }
    for i in 0..parts.len()
        invariant
            s == strings_view(parts@),
            r@ == dotted(s.subrange(0, i as int)),
    {
        let ghost p = s.subrange(0, i + 1);
        if i > 0 {
            r.append(".");
            proof {
                assert(p.drop_last() =~= s.subrange(0, i as int));
            }
        } else {
            proof {
                assert(r@ =~= Seq::<char>::empty());
            }
        }
        r.append(parts[i].as_str());
        proof {
            assert(p.last() == parts@[i as int]@);
        }
    }
    proof {
        assert(s.subrange(0, s.len() as int) =~= s);
    }
    r
}

} // verus!
