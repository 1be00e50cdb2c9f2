//! Querying the daily climate data of weather stations with SQL: the tables
//! a query names are station ids, and each station's data is loaded before
//! the query runs.
use vstd::prelude::*;
use crate::json::{Json, JsonV, owned};
use crate::text::{decimal, push_decimal};
use crate::tools::{result_view, str_arg, string_arg_schema, string_arg_schema_json};
use crate::tools::station_data::{
    LoadAction, LoadEvent, LoadWorld, ensure_station_data_loaded, lemma_load_stations_settles,
    lemma_settled_load_stations, load_next, load_stations, settled,
};
use crate::tools::sql::{
    SqlExpr, SqlExprV, SqlQuery, SqlQueryV, SqlSetExpr, SqlStatement, SqlStatementV, SqlTableFactor,
    SqlTableFactorV, SqlTableWithJoins, SqlTableWithJoinsV,
    dotted_name, expr_tables, exprs_tables, lemma_deep_exprs, opt_expr_tables, factor_tables, factors_tables, from_tables, froms_tables,
    lemma_deep_factors, lemma_deep_froms, lemma_deep_queries, parse_sql, parsed_sql, queries_tables,
    query_tables, set_expr_tables, statement_tables, statements_tables, statements_view, strings_view,
};

verus! {

/// `ids` with `t` added at the end, where it is not in it yet.
pub open spec fn insert_unique(ids: Seq<Seq<char>>, t: Seq<char>) -> Seq<Seq<char>> {
    if ids.contains(t) {
        ids
    } else {
        ids.push(t)
    }
}

/// `ids` with each of `ts` added in turn, where it is not in it yet.
pub open spec fn collect(ids: Seq<Seq<char>>, ts: Seq<Seq<char>>) -> Seq<Seq<char>>
    decreases ts.len(),
{
    if ts.len() == 0 {
        ids
    } else {
        insert_unique(collect(ids, ts.subrange(0, ts.len() - 1)), ts[ts.len() - 1])
    }
}

pub proof fn lemma_collect_concat(ids: Seq<Seq<char>>, a: Seq<Seq<char>>, b: Seq<Seq<char>>)
    ensures
        collect(ids, a + b) == collect(collect(ids, a), b),
    decreases b.len(),
{
    if b.len() == 0 {
        assert(a + b =~= a);
    } else {
        let b0 = b.subrange(0, b.len() - 1);
        lemma_collect_concat(ids, a, b0);
        assert((a + b).subrange(0, (a + b).len() - 1) =~= a + b0);
        assert((a + b)[(a + b).len() - 1] == b[b.len() - 1]);
    }
}

/// Collecting keeps the names distinct, and holds exactly those it started
/// with and those it was given.
pub proof fn lemma_collect_set(ids: Seq<Seq<char>>, ts: Seq<Seq<char>>)
    requires
        ids.no_duplicates(),
    ensures
        collect(ids, ts).no_duplicates(),
        forall|x: Seq<char>| #[trigger] collect(ids, ts).contains(x) <==> ids.contains(x) || ts.contains(x),
    decreases ts.len(),
{
    if ts.len() > 0 {
        let t0 = ts.subrange(0, ts.len() - 1);
        lemma_collect_set(ids, t0);
        let c0 = collect(ids, t0);
        let t = ts[ts.len() - 1];
        assert forall|x: Seq<char>| #[trigger] collect(ids, ts).contains(x) <==> ids.contains(x) || ts.contains(x) by {
            if ts.contains(x) && !t0.contains(x) {
                let k = choose|k: int| 0 <= k < ts.len() && ts[k] == x;
                if k < ts.len() - 1 {
                    assert(t0[k] == x);
                }
            }
            if t0.contains(x) {
                let k = choose|k: int| 0 <= k < t0.len() && t0[k] == x;
                assert(ts[k] == x);
            }
            if !c0.contains(t) {
                assert(c0.push(t)[c0.len() as int] == t);
                if c0.push(t).contains(x) && x != t {
                    let k = choose|k: int| 0 <= k < c0.push(t).len() && c0.push(t)[k] == x;
                    assert(c0[k] == x);
                }
                if c0.contains(x) {
                    let k = choose|k: int| 0 <= k < c0.len() && c0[k] == x;
                    assert(c0.push(t)[k] == x);
                }
            }
        }
        if !c0.contains(t) {
            assert forall|i: int, j: int| 0 <= i < j < c0.push(t).len() implies c0.push(t)[i] != c0.push(t)[j] by {
                if j == c0.len() {
                    assert(c0[i] == c0.push(t)[i]);
                }
            }
        }
    }
}

/// The station ids of a query hold each table it names exactly once, and nothing else.
pub proof fn lemma_station_ids_exact(stmts: Seq<SqlStatementV>)
    ensures
        collect(Seq::empty(), statements_tables(stmts)).no_duplicates(),
        forall|x: Seq<char>|
            #[trigger] collect(Seq::empty(), statements_tables(stmts)).contains(x)
                <==> statements_tables(stmts).contains(x),
{
    lemma_collect_set(Seq::empty(), statements_tables(stmts));
}

/// Collecting only adds: the names that were there stay, in their places,
/// and with nothing given nothing changes.
pub proof fn lemma_collect_only_adds(ids: Seq<Seq<char>>, ts: Seq<Seq<char>>)
    ensures
        ids.len() <= collect(ids, ts).len(),
        collect(ids, ts).subrange(0, ids.len() as int) == ids,
        ts.len() == 0 ==> collect(ids, ts) == ids,
    decreases ts.len(),
{
    if ts.len() > 0 {
        let t0 = ts.subrange(0, ts.len() - 1);
        lemma_collect_only_adds(ids, t0);
        let c0 = collect(ids, t0);
        let t = ts[ts.len() - 1];
        if !c0.contains(t) {
            assert(c0.push(t).subrange(0, ids.len() as int) =~= c0.subrange(0, ids.len() as int));
        }
    } else {
        assert(ids.subrange(0, ids.len() as int) =~= ids);
    }
}

/// Finding the tables of a statement only adds to the station ids found so
/// far: those stay, in their places; a statement that is not a query adds
/// nothing, and nor does a query whose body is neither a SELECT, a query in
/// parentheses nor a set operation, and that has no WITH queries and no
/// ORDER BY.
pub proof fn lemma_find_tables_only_adds(ids: Seq<Seq<char>>, stmt: SqlStatementV)
    ensures
        ids.len() <= collect(ids, statement_tables(stmt)).len(),
        collect(ids, statement_tables(stmt)).subrange(0, ids.len() as int) == ids,
        stmt is Other ==> collect(ids, statement_tables(stmt)) == ids,
        (stmt matches SqlStatementV::Query(q) && q.ctes.len() == 0 && *q.body is Other && q.order_by.len()
            == 0)
            ==> collect(ids, statement_tables(stmt)) == ids,
{
    lemma_collect_only_adds(ids, statement_tables(stmt));
    if let SqlStatementV::Query(q) = stmt {
        if q.ctes.len() == 0 && q.order_by.len() == 0 {
            assert(queries_tables(q.ctes) == Seq::<Seq<char>>::empty());
            assert(exprs_tables(q.order_by) == Seq::<Seq<char>>::empty());
            assert(query_tables(q) =~= set_expr_tables(*q.body));
        }
    }
}

/// Adds `t` to `ids` where it is not in it yet.
fn add_unique(ids: &mut Vec<String>, t: &String)
    ensures
        strings_view(final(ids)@) == insert_unique(strings_view(old(ids)@), t@),
{
    let ghost v = strings_view(ids@);
    let mut i: usize = 0;
    while i < ids.len()
        invariant
            i <= ids@.len(),
            v == strings_view(ids@),
            forall|k: int| 0 <= k < i ==> v[k] != t@,
        decreases ids@.len() - i,
    {
        if ids[i] == *t {
            assert(v[i as int] == t@);
            return;
        }
        i = i + 1;
    }
    ids.push(t.clone());
    assert(strings_view(ids@) =~= v.push(t@));
}

// ---------------------------------------------------------------------------
// The tool.
#[derive(Debug, PartialEq)]
pub struct ClimateDataTool {
    db_path: String,
    data_dir: String,
}

/// The key of column `i` of a result: its name, or "column_" and its number
/// where there is no name for it.
pub open spec fn column_key(names: Seq<Seq<char>>, i: nat) -> Seq<char> {
    if i < names.len() {
        names[i as int]
    } else {
        "column_"@ + decimal(i)
    }
}

/// A result row as an object from column keys to values.
pub open spec fn row_object(row: Seq<JsonV>, names: Seq<Seq<char>>) -> JsonV {
    JsonV::Object(Seq::new(row.len(), |i: int| (column_key(names, i as nat), row[i])))
}

/// The result rows as an array of objects.
pub open spec fn rows_json(rows: Seq<Seq<JsonV>>, names: Seq<Seq<char>>) -> JsonV {
    JsonV::Array(Seq::new(rows.len(), |r: int| row_object(rows[r], names)))
}

pub open spec fn rows_view(rows: Seq<Vec<Json>>) -> Seq<Seq<JsonV>> {
    Seq::new(rows.len(), |r: int| Json::deep_seq(rows[r]@))
}

fn row_to_json(row: &Vec<Json>, names: &Vec<String>) -> (r: Json)
    ensures
        r.deep() == row_object(Json::deep_seq(row@), strings_view(names@)),
{
    proof {
        crate::json::lemma_deep_seq(row@);
    }
    let mut es: Vec<(String, Json)> = Vec::new();
    for i in 0..row.len()
        invariant
            es@.len() == i,
            Json::deep_seq(row@).len() == row@.len(),
            forall|k: int| 0 <= k < row@.len() ==> #[trigger] Json::deep_seq(row@)[k] == row@[k].deep(),
            forall|k: int|
                0 <= k < i ==> (#[trigger] es@[k]).0@ == column_key(strings_view(names@), k as nat)
                    && es@[k].1.deep() == row@[k].deep(),
    {
        let key = if i < names.len() {
            names[i].clone()
        } else {
            let mut k = owned("column_");
            push_decimal(&mut k, i as u64);
            k
        };
        es.push((key, row[i].duplicate()));
    }
    proof {
        let d = Json::deep_seq(row@);
        let target = Seq::new(d.len(), |i: int| (column_key(strings_view(names@), i as nat), d[i]));
        assert forall|k: int| 0 <= k < es@.len() implies (#[trigger] es@[k]).0@ == target[k].0
            && es@[k].1.deep() == target[k].1 by {}
        crate::json::lemma_deep_entries_ext(es@, target);
    }
    Json::Object(es)
}

impl ClimateDataTool {
    pub closed spec fn db_path_view(self) -> Seq<char> {
        self.db_path@
    }

    pub closed spec fn data_dir_view(self) -> Seq<char> {
        self.data_dir@
    }

    /// A tool on the database at `db_path` (in memory where it is empty),
    /// loading station files from `data_dir`.
    pub fn new(db_path: &str, data_dir: &str) -> (r: ClimateDataTool)
        ensures
            r.db_path_view() == db_path@,
            r.data_dir_view() == data_dir@,
    {
        ClimateDataTool { db_path: owned(db_path), data_dir: owned(data_dir) }
    }

    /// The database to open, or `None` for one in memory.
    pub fn database(&self) -> (r: Option<&String>)
        ensures
            match r {
                Some(p) => p@ == self.db_path_view() && p@.len() > 0,
                None => self.db_path_view().len() == 0,
            },
    {
        if self.db_path.as_str().is_empty() {
            None
        } else {
            Some(&self.db_path)
        }
    }

    /// The directory of the station files.
    pub fn data_dir(&self) -> (r: &String)
        ensures
            r@ == self.data_dir_view(),
    {
        &self.data_dir
    }

    pub fn name(&self) -> (r: &'static str)
        ensures
            r@ == "climate_data"@,
    {
        "climate_data"
    }

    pub fn description(&self) -> (r: &'static str)
        ensures
            r@
                == "Query historical climate data (GHCN Daily) using SQL. The tables in your SQL query should be weather station IDs (e.g., WA003475270). The tool will automatically load the data for the stations you reference."@,
    {
        "Query historical climate data (GHCN Daily) using SQL. The tables in your SQL query should be weather station IDs (e.g., WA003475270). The tool will automatically load the data for the stations you reference."
    }

    pub fn input_schema(&self) -> (r: Json)
        ensures
            r.deep() == string_arg_schema(
                "query"@,
                "The SQL query to run. Table names must be station IDs."@,
            ),
    {
        string_arg_schema_json("query", "The SQL query to run. Table names must be station IDs.")
    }

    /// The next step of loading a station's data from the tool's data
    /// directory: the step that `ensure_station_data_loaded` takes with that
    /// directory.
    pub fn ensure_data_loaded(&self, station_id: &str, event: LoadEvent) -> (r: LoadAction)
        ensures
            r@ == load_next(self.data_dir_view(), station_id@, event@),
    {
        ensure_station_data_loaded(self.data_dir.as_str(), station_id, event)
    }

    /// The SQL query to run.
    pub fn query(&self, args: &Json) -> (r: Result<String, String>)
        ensures
            result_view(r) == str_arg(args.deep(), "query"@, "Missing query argument"@),
    {
        crate::tools::required_str_arg(args, "query", "Missing query argument")
    }

    /// Adds the tables a query names: those of its WITH queries, then those
    /// of its body.
    fn find_tables_in_query(&self, q: &SqlQuery, station_ids: &mut Vec<String>)
        ensures
            strings_view(final(station_ids)@) == collect(strings_view(old(station_ids)@), query_tables(q.deep())),
        decreases q,
    {
        let ghost cs = SqlQuery::deep_queries(q.ctes@);
        let ghost ids0 = strings_view(station_ids@);
        proof {
            lemma_deep_queries(q.ctes@);
            assert(cs.subrange(0, 0) =~= Seq::<SqlQueryV>::empty());
        }
        let mut i: usize = 0;
        while i < q.ctes.len()
            invariant
                i <= q.ctes@.len(),
                cs == SqlQuery::deep_queries(q.ctes@),
                cs.len() == q.ctes@.len(),
                forall|k: int| 0 <= k < q.ctes@.len() ==> #[trigger] cs[k] == q.ctes@[k].deep(),
                strings_view(station_ids@) == collect(ids0, queries_tables(cs.subrange(0, i as int))),
            decreases q.ctes@.len() - i,
        {
            proof {
                assert(decreases_to!(*q => q.ctes));
                assert(decreases_to!(q.ctes => q.ctes@));
                assert(decreases_to!(q.ctes@ => q.ctes@[i as int]));
            }
            self.find_tables_in_query(&q.ctes[i], station_ids);
            proof {
                let p = cs.subrange(0, i as int);
                assert(cs.subrange(0, i + 1).subrange(0, i as int) =~= p);
                lemma_collect_concat(ids0, queries_tables(p), query_tables(cs[i as int]));
            }
            i = i + 1;
        }
        proof {
            assert(cs.subrange(0, cs.len() as int) =~= cs);
            assert(decreases_to!(*q => *q.body));
        }
        self.find_tables_in_set_expr(&*q.body, station_ids);
        proof {
            assert(decreases_to!(*q => q.order_by));
        }
        self.find_tables_in_exprs(&q.order_by, station_ids);
        proof {
            let b = set_expr_tables((*q.body).deep());
            lemma_collect_concat(ids0, queries_tables(cs), b);
            lemma_collect_concat(ids0, queries_tables(cs) + b, exprs_tables(SqlExpr::deep_exprs(q.order_by@)));
        }
    }

    /// Adds the tables a query body names: a SELECT's FROM list and WHERE
    /// subqueries, a parenthesised query's, or both sides of a set operation.
    fn find_tables_in_set_expr(&self, e: &SqlSetExpr, station_ids: &mut Vec<String>)
        ensures
            strings_view(final(station_ids)@) == collect(strings_view(old(station_ids)@), set_expr_tables(e.deep())),
        decreases e,
    {
        let ghost before = strings_view(station_ids@);
        match e {
            SqlSetExpr::Select { projection, from, selection, having } => {
                self.find_tables_in_froms(from, station_ids);
                self.find_tables_in_opt_expr(selection, station_ids);
                self.find_tables_in_exprs(projection, station_ids);
                self.find_tables_in_opt_expr(having, station_ids);
                proof {
                    let f = froms_tables(SqlTableWithJoins::deep_froms(from@));
                    let w = opt_expr_tables(SqlExpr::deep_opt(*selection));
                    let p = exprs_tables(SqlExpr::deep_exprs(projection@));
                    let h = opt_expr_tables(SqlExpr::deep_opt(*having));
                    lemma_collect_concat(before, f, w);
                    lemma_collect_concat(before, f + w, p);
                    lemma_collect_concat(before, f + w + p, h);
                }
            },
            SqlSetExpr::Query(q) => self.find_tables_in_query(&**q, station_ids),
            SqlSetExpr::SetOperation { left, right } => {
                self.find_tables_in_set_expr(&**left, station_ids);
                self.find_tables_in_set_expr(&**right, station_ids);
                proof {
                    lemma_collect_concat(before, set_expr_tables((**left).deep()), set_expr_tables((**right).deep()));
                }
            },
            SqlSetExpr::Other => {},
        }
    }

    /// Adds the tables of the subqueries in an expression that may be absent.
    fn find_tables_in_opt_expr(&self, o: &Option<SqlExpr>, station_ids: &mut Vec<String>)
        ensures
            strings_view(final(station_ids)@) == collect(
                strings_view(old(station_ids)@),
                opt_expr_tables(SqlExpr::deep_opt(*o)),
            ),
        decreases o,
    {
        match o {
            Some(x) => self.find_tables_in_expr(x, station_ids),
            None => {},
        }
    }

    /// Adds the tables of the subqueries in a list of expressions, in order.
    fn find_tables_in_exprs(&self, xs: &Vec<SqlExpr>, station_ids: &mut Vec<String>)
        ensures
            strings_view(final(station_ids)@) == collect(
                strings_view(old(station_ids)@),
                exprs_tables(SqlExpr::deep_exprs(xs@)),
            ),
        decreases xs,
    {
        let ghost ds = SqlExpr::deep_exprs(xs@);
        let ghost ids0 = strings_view(station_ids@);
        proof {
            lemma_deep_exprs(xs@);
            assert(ds.subrange(0, 0) =~= Seq::<SqlExprV>::empty());
        }
        let mut i: usize = 0;
        while i < xs.len()
            invariant
                i <= xs@.len(),
                ds == SqlExpr::deep_exprs(xs@),
                ds.len() == xs@.len(),
                forall|k: int| 0 <= k < xs@.len() ==> #[trigger] ds[k] == xs@[k].deep(),
                strings_view(station_ids@) == collect(ids0, exprs_tables(ds.subrange(0, i as int))),
            decreases xs@.len() - i,
        {
            proof {
                assert(decreases_to!(*xs => xs@));
                assert(decreases_to!(xs@ => xs@[i as int]));
            }
            self.find_tables_in_expr(&xs[i], station_ids);
            proof {
                let p = ds.subrange(0, i as int);
                assert(ds.subrange(0, i + 1).subrange(0, i as int) =~= p);
                lemma_collect_concat(ids0, exprs_tables(p), expr_tables(ds[i as int]));
            }
            i = i + 1;
        }
        proof {
            assert(ds.subrange(0, ds.len() as int) =~= ds);
        }
    }

    /// Adds the tables named in a FROM list, item by item.
    fn find_tables_in_froms(&self, froms: &Vec<SqlTableWithJoins>, station_ids: &mut Vec<String>)
        ensures
            strings_view(final(station_ids)@) == collect(
                strings_view(old(station_ids)@),
                froms_tables(SqlTableWithJoins::deep_froms(froms@)),
            ),
        decreases froms,
    {
        let ghost ds = SqlTableWithJoins::deep_froms(froms@);
        let ghost ids0 = strings_view(station_ids@);
        proof {
            lemma_deep_froms(froms@);
            assert(ds.subrange(0, 0) =~= Seq::<SqlTableWithJoinsV>::empty());
        }
        let mut i: usize = 0;
        while i < froms.len()
            invariant
                i <= froms@.len(),
                ds == SqlTableWithJoins::deep_froms(froms@),
                ds.len() == froms@.len(),
                forall|k: int| 0 <= k < froms@.len() ==> #[trigger] ds[k] == froms@[k].deep(),
                strings_view(station_ids@) == collect(ids0, froms_tables(ds.subrange(0, i as int))),
            decreases froms@.len() - i,
        {
            proof {
                assert(decreases_to!(*froms => froms@));
                assert(decreases_to!(froms@ => froms@[i as int]));
            }
            self.find_tables_in_from(&froms[i], station_ids);
            proof {
                let p = ds.subrange(0, i as int);
                assert(ds.subrange(0, i + 1).subrange(0, i as int) =~= p);
                lemma_collect_concat(ids0, froms_tables(p), from_tables(ds[i as int]));
            }
            i = i + 1;
        }
        proof {
            assert(ds.subrange(0, ds.len() as int) =~= ds);
        }
    }

    /// Adds the tables one item of a FROM list names: those of its relation,
    /// then those of the relations joined to it, then those of the
    /// subqueries in the joins' ON conditions.
    fn find_tables_in_from(&self, from: &SqlTableWithJoins, station_ids: &mut Vec<String>)
        ensures
            strings_view(final(station_ids)@) == collect(strings_view(old(station_ids)@), from_tables(from.deep())),
        decreases from,
    {
        let ghost before = strings_view(station_ids@);
        proof {
            assert(decreases_to!(*from => from.relation));
        }
        self.find_tables_in_relation(&from.relation, station_ids);
        let ghost mid = strings_view(station_ids@);
        let mut j: usize = 0;
        let ghost js = SqlTableFactor::deep_factors(from.joins@);
        proof {
            lemma_deep_factors(from.joins@);
            assert(js.subrange(0, 0) =~= Seq::<SqlTableFactorV>::empty());
            assert(factors_tables(js.subrange(0, 0)) =~= Seq::<Seq<char>>::empty());
        }
        while j < from.joins.len()
            invariant
                j <= from.joins@.len(),
                js == SqlTableFactor::deep_factors(from.joins@),
                js.len() == from.joins@.len(),
                forall|k: int| 0 <= k < from.joins@.len() ==> #[trigger] js[k] == from.joins@[k].deep(),
                strings_view(station_ids@) == collect(mid, factors_tables(js.subrange(0, j as int))),
            decreases from.joins@.len() - j,
        {
            proof {
                assert(decreases_to!(*from => from.joins));
                assert(decreases_to!(from.joins => from.joins@));
                assert(decreases_to!(from.joins@ => from.joins@[j as int]));
            }
            self.find_tables_in_relation(&from.joins[j], station_ids);
            proof {
                let p = js.subrange(0, j as int);
                assert(js.subrange(0, j + 1).subrange(0, j as int) =~= p);
                lemma_collect_concat(mid, factors_tables(p), factor_tables(js[j as int]));
            }
            j = j + 1;
        }
        proof {
            assert(js.subrange(0, js.len() as int) =~= js);
            assert(decreases_to!(*from => from.join_conditions));
        }
        self.find_tables_in_exprs(&from.join_conditions, station_ids);
        proof {
            let d = from.deep();
            lemma_collect_concat(before, factor_tables(d.relation), factors_tables(js));
            lemma_collect_concat(before, factor_tables(d.relation) + factors_tables(js), exprs_tables(d.join_conditions));
        }
    }

    /// Adds the tables a relation names: a table's name (its parts joined by
    /// dots), or those a subquery names.
    fn find_tables_in_relation(&self, relation: &SqlTableFactor, station_ids: &mut Vec<String>)
        ensures
            strings_view(final(station_ids)@) == collect(
                strings_view(old(station_ids)@),
                factor_tables(relation.deep()),
            ),
        decreases relation,
    {
        match relation {
            SqlTableFactor::Table(parts) => {
                let name = dotted_name(parts);
                add_unique(station_ids, &name);
                proof {
                    let v = strings_view(old(station_ids)@);
                    assert(seq![name@].subrange(0, 0) =~= Seq::<Seq<char>>::empty());
                    assert(collect(v, Seq::<Seq<char>>::empty()) == v);
                    assert(collect(v, seq![name@]) == insert_unique(v, name@));
                }
            },
            SqlTableFactor::Derived(q) => self.find_tables_in_query(&**q, station_ids),
            SqlTableFactor::Nested(t) => self.find_tables_in_from(&**t, station_ids),
            SqlTableFactor::Other => {},
        }
    }

    /// Adds the tables of the subqueries an expression holds, from left to right.
    fn find_tables_in_expr(&self, x: &SqlExpr, station_ids: &mut Vec<String>)
        ensures
            strings_view(final(station_ids)@) == collect(strings_view(old(station_ids)@), expr_tables(x.deep())),
        decreases x,
    {
        let ghost before = strings_view(station_ids@);
        match x {
            SqlExpr::Subquery(q) => self.find_tables_in_query(&**q, station_ids),
            SqlExpr::InSubquery { expr, subquery } => {
                self.find_tables_in_expr(&**expr, station_ids);
                self.find_tables_in_query(&**subquery, station_ids);
                proof {
                    lemma_collect_concat(before, expr_tables((**expr).deep()), query_tables((**subquery).deep()));
                }
            },
            SqlExpr::Exists(q) => self.find_tables_in_query(&**q, station_ids),
            SqlExpr::BinaryOp { left, right } => {
                self.find_tables_in_expr(&**left, station_ids);
                self.find_tables_in_expr(&**right, station_ids);
                proof {
                    lemma_collect_concat(before, expr_tables((**left).deep()), expr_tables((**right).deep()));
                }
            },
            SqlExpr::UnaryOp(y) => self.find_tables_in_expr(&**y, station_ids),
            SqlExpr::Nested(y) => self.find_tables_in_expr(&**y, station_ids),
            SqlExpr::Compound(ys) => self.find_tables_in_exprs(ys, station_ids),
            SqlExpr::Other => {},
        }
    }

    /// Adds the tables a statement names: for a query, those it names.
    fn find_tables(&self, stmt: &SqlStatement, station_ids: &mut Vec<String>)
        ensures
            strings_view(final(station_ids)@) == collect(
                strings_view(old(station_ids)@),
                statement_tables(stmt.deep()),
            ),
    {
        match stmt {
            SqlStatement::Query(q) => self.find_tables_in_query(q, station_ids),
            SqlStatement::Other => {},
        }
    }

    /// The station ids that parsed statements name, each once, in the order
    /// in which they first appear.
    pub fn station_ids_of(&self, statements: &Vec<SqlStatement>) -> (r: Vec<String>)
        ensures
            strings_view(r@) == collect(Seq::empty(), statements_tables(statements_view(statements@))),
    {
        let mut ids: Vec<String> = Vec::new();
        let ghost sv = statements_view(statements@);
        proof {
            assert(strings_view(ids@) =~= Seq::<Seq<char>>::empty());
            assert(sv.subrange(0, 0) =~= Seq::<SqlStatementV>::empty());
        }
        for i in 0..statements.len()
            invariant
                sv == statements_view(statements@),
                strings_view(ids@) == collect(Seq::empty(), statements_tables(sv.subrange(0, i as int))),
        {
            self.find_tables(&statements[i], &mut ids);
            proof {
                let p = sv.subrange(0, i as int);
                assert(sv.subrange(0, i + 1).subrange(0, i as int) =~= p);
                assert(sv[i as int] == statements@[i as int].deep());
                lemma_collect_concat(Seq::empty(), statements_tables(p), statement_tables(sv[i as int]));
            }
        }
        proof {
            assert(sv.subrange(0, sv.len() as int) =~= sv);
        }
        ids
    }

    /// The station ids that a query names, each once: the error of parsing
    /// where it does not parse.
    pub fn extract_station_ids(&self, sql: &str) -> (r: Result<Vec<String>, String>)
        ensures
            match parsed_sql(sql@) {
                Ok(stmts) => r is Ok && strings_view(r->Ok_0@) == collect(
                    Seq::empty(),
                    statements_tables(stmts),
                ),
                Err(e) => r is Err && r->Err_0@ == e,
            },
    {
        match parse_sql(sql) {
            Ok(stmts) => Ok(self.station_ids_of(&stmts)),
            Err(e) => Err(e),
        }
    }

    /// The result rows as an array of objects (see `rows_json`).
    pub fn assemble_rows(&self, rows: &Vec<Vec<Json>>, column_names: &Vec<String>) -> (r: Json)
        ensures
            r.deep() == rows_json(rows_view(rows@), strings_view(column_names@)),
    {
        let mut out: Vec<Json> = Vec::new();
        for i in 0..rows.len()
            invariant
                out@.len() == i,
                forall|k: int|
                    0 <= k < i ==> (#[trigger] out@[k]).deep() == row_object(
                        Json::deep_seq(rows@[k]@),
                        strings_view(column_names@),
                    ),
        {
            out.push(row_to_json(&rows[i], column_names));
        }
        proof {
            let rv = rows_view(rows@);
            crate::json::lemma_deep_seq_ext(
                out@,
                Seq::new(rv.len(), |r: int| row_object(rv[r], strings_view(column_names@))),
            );
        }
        Json::Array(out)
    }
}

/// The database a call of the tool loads into, given the one the last call
/// left: where the tool's database is in memory (`database` is `None`), a
/// fresh one with no tables; where it is a file, that same database.
pub open spec fn call_database(tool: ClimateDataTool, left: LoadWorld) -> LoadWorld {
    if tool.db_path_view().len() == 0 {
        LoadWorld { tables: Set::empty(), files: left.files, create_succeeds: left.create_succeeds }
    } else {
        left
    }
}

/// The loading a call of the tool does for the station ids of its query:
/// how it ends, the database after it, and how many tables it made.
pub open spec fn call_loads(tool: ClimateDataTool, ids: Seq<Seq<char>>, left: LoadWorld) -> (
    Result<(), Seq<char>>,
    LoadWorld,
    nat,
) {
    load_stations(tool.data_dir_view(), ids, call_database(tool, left))
}

/// Two successive calls of the tool: with a database in memory the second
/// starts with none of the tables the first loaded; with a database file it
/// starts from the database the first left, and where its stations are
/// among those the first loaded, it loads none of them again, makes no
/// table and leaves the database as it was.
pub proof fn lemma_two_calls(tool: ClimateDataTool, ids1: Seq<Seq<char>>, ids2: Seq<Seq<char>>, w0: LoadWorld)
    requires
        call_loads(tool, ids1, w0).0 is Ok,
    ensures
        tool.db_path_view().len() == 0 ==> call_database(tool, call_loads(tool, ids1, w0).1).tables
            == Set::<Seq<char>>::empty(),
        tool.db_path_view().len() > 0 ==> call_database(tool, call_loads(tool, ids1, w0).1)
            == call_loads(tool, ids1, w0).1,
        tool.db_path_view().len() > 0 && (forall|y: Seq<char>| ids2.contains(y) ==> ids1.contains(y))
            ==> call_loads(tool, ids2, call_loads(tool, ids1, w0).1) == (
            Ok::<(), Seq<char>>(()),
            call_loads(tool, ids1, w0).1,
            0nat,
        ),
{
    let dir = tool.data_dir_view();
    let w1 = call_loads(tool, ids1, w0).1;
    lemma_load_stations_settles(dir, ids1, call_database(tool, w0));
    if tool.db_path_view().len() > 0 && (forall|y: Seq<char>| ids2.contains(y) ==> ids1.contains(y)) {
        assert forall|y: Seq<char>| ids2.contains(y) implies settled(dir, y, w1) by {
            assert(ids1.contains(y));
        }
        lemma_settled_load_stations(dir, ids2, w1);
    }
}


/// The result holds one object per row, in the rows' order; each row's
/// object holds one entry per value of the row, in order, the value keyed
/// by its column's name, or by "column_" and its number where the column has
/// no name.
pub proof fn lemma_rows_json_in_order(rows: Seq<Seq<JsonV>>, names: Seq<Seq<char>>)
    ensures
        rows_json(rows, names).array_value() matches Some(a) && a.len() == rows.len(),
        forall|k: int|
            0 <= k < rows.len() ==> match #[trigger] rows_json(rows, names).item(k) {
                JsonV::Object(es) => {
                    &&& es.len() == rows[k].len()
                    &&& forall|i: int|
                        0 <= i < es.len() ==> (#[trigger] es[i]).1 == rows[k][i] && (i < names.len() ==> es[i].0
                            == names[i]) && (i >= names.len() ==> es[i].0 == "column_"@ + decimal(i as nat))
                },
                _ => false,
            },
{
}

} // verus!
