//! Evaluation of a `SELECT`: the rows of the table source (or a single empty
//! row without one) are filtered by `WHERE`, sorted by `ORDER BY` (a stable
//! ascending sort on one column), cut to `TOP (n)`, and projected through the
//! select list.

use vstd::prelude::*;

use crate::ast::{
    items_view, ColumnRefModel, Expr, ExprModel, LiteralModel, ObjectNameModel,
    OperandModel, Select, SelectItem, SelectItemModel, SelectList, SelectListModel, SelectModel,
    TableRefModel,
};
use crate::catalog::{is_sys, read_source, spec_source, table_result};
use crate::database::{
    db_wf, inserted_row, lemma_find_table_after_update,
    lemma_find_table_from_range, lookup_table, rows_view, spec_insert, with_table,
    Database, DatabaseModel, TableModel,
};
use crate::eval::{
    bind_column, bind_expr, bind_filter, bound_filter_view, eval_expr, expr_in, keep_rows, opt_scope, scope_wf, spec_bind_column, spec_bind_expr, spec_bind_filter,
    spec_eval_expr, spec_keep_rows, BoundExpr, BoundExprModel, Scope, ScopeModel,
};
use crate::text::{copy_chars, string_from_chars};
use crate::types::{
    copy_row, row_view, table_wf, DataType, DbError, DbErrorModel, QueryResult, QueryResultModel,
    Value, ValueModel,
};
use crate::text::lexicographic_lt;
use crate::values::{
    int_value, law_datetimes_ascend_by_instant, law_null_sorts_first, law_numbers_ascend_by_value,
    law_texts_ascend_lexicographically, law_value_lt_asymmetric, law_value_lt_negatively_transitive,
    text_value, value_less, value_lt,
};

verus! {

// ---------------------------------------------------------------------------
// Specification
// ---------------------------------------------------------------------------

/// The name through which the columns of a table source are qualified: its
/// alias, else its own name.
pub open spec fn ref_qualifier(r: TableRefModel) -> Seq<char> {
    match r.alias {
        Some(a) => a,
        None => r.object.name,
    }
}

/// The scope of a table source's columns.
pub open spec fn source_scope(q: Seq<char>, t: QueryResultModel) -> ScopeModel {
    ScopeModel { qualifier: q, names: t.columns, types: t.column_types }
}

/// Where row `row` goes among the sorted rows `s[0..p]`: after every row
/// whose key it does not precede, so that rows with equal keys keep their order.
pub open spec fn insert_pos(s: Seq<Seq<ValueModel>>, row: Seq<ValueModel>, k: int, p: int) -> int
    decreases p,
{
    if p <= 0 {
        0
    } else if value_lt(row[k], s[p - 1][k]) {
        insert_pos(s, row, k, p - 1)
    } else {
        p
    }
}

pub open spec fn insert_sorted(s: Seq<Seq<ValueModel>>, row: Seq<ValueModel>, k: int) -> Seq<
    Seq<ValueModel>,
> {
    s.insert(insert_pos(s, row, k, s.len() as int), row)
}

/// The rows sorted ascending on column `k`; rows with equal keys keep their
/// order (a stable sort).
pub open spec fn sort_rows(rows: Seq<Seq<ValueModel>>, k: int) -> Seq<Seq<ValueModel>>
    decreases rows.len(),
{
    if rows.len() == 0 {
        seq![]
    } else {
        insert_sorted(sort_rows(rows.drop_last(), k), rows.last(), k)
    }
}

/// The first `n` rows (all of them when there are fewer).
pub open spec fn top_rows(rows: Seq<Seq<ValueModel>>, n: i64) -> Seq<Seq<ValueModel>> {
    if n < rows.len() {
        rows.take(n as int)
    } else {
        rows
    }
}

/// The name of a result column: the alias, else the column's name, else empty.
pub open spec fn item_name(it: SelectItemModel) -> Seq<char> {
    match it.alias {
        Some(a) => a,
        None => match it.expr {
            ExprModel::Operand(OperandModel::Column(c)) => c.name,
            _ => seq![],
        },
    }
}

/// The bound items of a select list and their types; the first failing item's error.
pub open spec fn spec_plan_items(scope: Option<ScopeModel>, xs: Seq<SelectItemModel>) -> Result<
    Seq<(BoundExprModel, DataType)>,
    DbErrorModel,
>
    decreases xs.len(),
{
    if xs.len() == 0 {
        Ok(seq![])
    } else {
        match spec_plan_items(scope, xs.drop_last()) {
            Err(e) => Err(e),
            Ok(ps) => match spec_bind_expr(scope, xs.last().expr) {
                Err(e) => Err(e),
                Ok(p) => Ok(ps.push(p)),
            },
        }
    }
}

/// The result of a select list over rows.
pub open spec fn project(
    xs: Seq<SelectItemModel>,
    ps: Seq<(BoundExprModel, DataType)>,
    rows: Seq<Seq<ValueModel>>,
    db: DatabaseModel,
    now: i64,
) -> QueryResultModel {
    QueryResultModel {
        columns: Seq::new(xs.len(), |k: int| item_name(xs[k])),
        column_types: Seq::new(xs.len(), |k: int| ps[k].1),
        column_nullabilities: Seq::new(xs.len(), |k: int| true),
        rows: Seq::new(
            rows.len(),
            |r: int| Seq::new(ps.len(), |k: int| spec_eval_expr(ps[k].0, rows[r], db, now)),
        ),
    }
}

pub open spec fn msg_star_without_table() -> Seq<char> {
    "Must specify table to select from."@
}

pub open spec fn msg_negative_top() -> Seq<char> {
    "A TOP N value may not be negative."@
}

/// The column `ORDER BY` sorts on, if any.
pub open spec fn spec_bind_order(scope: Option<ScopeModel>, o: Option<ColumnRefModel>) -> Result<
    Option<int>,
    DbErrorModel,
> {
    match o {
        None => Ok(None),
        Some(c) => match spec_bind_column(scope, c) {
            Err(e) => Err(e),
            Ok(k) => Ok(Some(k)),
        },
    }
}

/// The rows a `SELECT` returns before projection: the source's rows (one
/// empty row without a source) that satisfy the condition, sorted, cut to `TOP`.
pub open spec fn selected_rows(
    sel: SelectModel,
    src: Option<QueryResultModel>,
    f: Seq<crate::eval::BoundComparisonModel>,
    order: Option<int>,
    db: DatabaseModel,
    now: i64,
) -> Seq<Seq<ValueModel>> {
    let rows0 = match src {
        None => seq![seq![]],
        Some(t) => t.rows,
    };
    let rows1 = spec_keep_rows(rows0, f, db, now, true);
    let rows2 = match order {
        None => rows1,
        Some(k) => sort_rows(rows1, k),
    };
    match sel.top {
        None => rows2,
        Some(n) => top_rows(rows2, n),
    }
}

/// The result of a `SELECT` over an optional source whose columns are
/// qualified by `q`.
pub open spec fn spec_select_over(
    db: DatabaseModel,
    now: i64,
    sel: SelectModel,
    src: Option<(Seq<char>, QueryResultModel)>,
) -> Result<QueryResultModel, DbErrorModel> {
    let scope = match src {
        None => None,
        Some((q, t)) => Some(source_scope(q, t)),
    };
    let table = match src {
        None => None,
        Some((_, t)) => Some(t),
    };
    let plans: Result<Option<Seq<(BoundExprModel, DataType)>>, DbErrorModel> = match sel.list {
        SelectListModel::Star => if src is None {
            Err(DbErrorModel::Execution(msg_star_without_table()))
        } else {
            Ok(None)
        },
        SelectListModel::Items(xs) => match spec_plan_items(scope, xs) {
            Err(e) => Err(e),
            Ok(ps) => Ok(Some(ps)),
        },
    };
    match plans {
        Err(e) => Err(e),
        Ok(plans) => match spec_bind_filter(scope, sel.filter) {
            Err(e) => Err(e),
            Ok(f) => match spec_bind_order(scope, sel.order_by) {
                Err(e) => Err(e),
                Ok(order) => if sel.top matches Some(n) && n < 0 {
                    Err(DbErrorModel::Execution(msg_negative_top()))
                } else {
                    let rows = selected_rows(sel, table, f, order, db, now);
                    match plans {
                        None => {
                            let t = table->0;
                            Ok(QueryResultModel { rows, ..t })
                        },
                        Some(ps) => Ok(project(sel.list->Items_0, ps, rows, db, now)),
                    }
                },
            },
        },
    }
}

/// The result of a `SELECT`.
pub open spec fn spec_select(db: DatabaseModel, now: i64, sel: SelectModel) -> Result<
    QueryResultModel,
    DbErrorModel,
> {
    match sel.from {
        None => spec_select_over(db, now, sel, None),
        Some(r) => match spec_source(db, r) {
            Err(e) => Err(e),
            Ok(t) => spec_select_over(db, now, sel, Some((ref_qualifier(r), t))),
        },
    }
}

// ---------------------------------------------------------------------------
// Implementation
// ---------------------------------------------------------------------------

/// A bound select-list item and its type.
pub struct Plan {
    pub expr: BoundExpr,
    pub ty: DataType,
}

impl View for Plan {
    type V = (BoundExprModel, DataType);

    open spec fn view(&self) -> (BoundExprModel, DataType) {
        (self.expr@, self.ty)
    }
}

pub open spec fn plans_view(ps: Seq<Plan>) -> Seq<(BoundExprModel, DataType)> {
    ps.map_values(|p: Plan| p@)
}

proof fn lemma_plan_items_error_extends(scope: Option<ScopeModel>, xs: Seq<SelectItemModel>, k: int)
    requires
        0 <= k <= xs.len(),
        spec_plan_items(scope, xs.take(k)) is Err,
    ensures
        spec_plan_items(scope, xs) == spec_plan_items(scope, xs.take(k)),
    decreases xs.len() - k,
{
    if k < xs.len() {
        assert(xs.take(k + 1).drop_last() =~= xs.take(k));
        lemma_plan_items_error_extends(scope, xs, k + 1);
    } else {
        assert(xs.take(k) =~= xs);
    }
}

fn plan_items(scope: Option<&Scope>, xs: &Vec<SelectItem>) -> (r: Result<Vec<Plan>, DbError>)
    requires
        scope matches Some(sc) ==> scope_wf(sc@),
    ensures
        match r {
            Ok(ps) => spec_plan_items(opt_scope(scope), items_view(xs@)) == Ok::<
                Seq<(BoundExprModel, DataType)>,
                DbErrorModel,
            >(plans_view(ps@)) && ps@.len() == xs@.len() && (forall|k: int|
                0 <= k < ps@.len() ==> expr_in(
                    (#[trigger] ps@[k]).expr@,
                    match scope {
                        Some(sc) => sc.names@.len() as int,
                        None => 0,
                    },
                )),
            Err(e) => spec_plan_items(opt_scope(scope), items_view(xs@)) == Err::<
                Seq<(BoundExprModel, DataType)>,
                DbErrorModel,
            >(e@),
        },
{
    let ghost n: int = match scope {
        Some(sc) => sc.names@.len() as int,
        None => 0,
    };
    let ghost xv = items_view(xs@);
    let mut ps: Vec<Plan> = Vec::new();
    let mut k: usize = 0;
    assert(xv.take(0) =~= Seq::<SelectItemModel>::empty());
    assert(plans_view(ps@) =~= Seq::<(BoundExprModel, DataType)>::empty());
    while k < xs.len()
        invariant
            k <= xs@.len(),
            xv == items_view(xs@),
            scope matches Some(sc) ==> scope_wf(sc@),
            n == match scope {
                Some(sc) => sc.names@.len() as int,
                None => 0,
            },
            ps@.len() == k,
            spec_plan_items(opt_scope(scope), xv.take(k as int)) == Ok::<
                Seq<(BoundExprModel, DataType)>,
                DbErrorModel,
            >(plans_view(ps@)),
            forall|j: int| 0 <= j < ps@.len() ==> expr_in((#[trigger] ps@[j]).expr@, n),
        decreases xs@.len() - k,
    {
        assert(xv.take(k + 1).drop_last() =~= xv.take(k as int));
        assert(xv.take(k + 1).last() == xs@[k as int]@);
        match bind_expr(scope, &xs[k].expr) {
            Err(e) => {
                proof {
                    lemma_plan_items_error_extends(opt_scope(scope), xv, k + 1);
                }
                return Err(e);
            },
            Ok((b, t)) => {
                let ghost before = plans_view(ps@);
                let p = Plan { expr: b, ty: t };
                let ghost pv = p@;
                ps.push(p);
                assert(plans_view(ps@) =~= before.push(pv));
            },
        }
        k = k + 1;
    }
    assert(xv.take(xs@.len() as int) =~= xv);
    Ok(ps)
}

fn item_name_exec(it: &SelectItem) -> (s: String)
    ensures
        s@ == item_name(it@),
{
    match &it.alias {
        Some(a) => string_from_chars(a.as_slice()),
        None => match &it.expr {
            Expr::Operand(crate::ast::Operand::Column(c)) => string_from_chars(c.name.as_slice()),
            _ => String::new(),
        },
    }
}

fn project_exec(
    xs: &Vec<SelectItem>,
    ps: &Vec<Plan>,
    rows: &Vec<Vec<Value>>,
    width: usize,
    db: &Database,
    now: i64,
) -> (r: QueryResult)
    requires
        ps@.len() == xs@.len(),
        forall|k: int| 0 <= k < ps@.len() ==> expr_in((#[trigger] ps@[k]).expr@, width as int),
        forall|i: int| 0 <= i < rows@.len() ==> (#[trigger] rows@[i])@.len() == width,
    ensures
        r@ == project(items_view(xs@), plans_view(ps@), rows_view(rows@), db@, now),
        table_wf(r@),
{
    let n = xs.len();
    let mut columns: Vec<String> = Vec::new();
    let mut types: Vec<DataType> = Vec::new();
    let mut nulls: Vec<bool> = Vec::new();
    let mut k: usize = 0;
    while k < n
        invariant
            n == xs@.len(),
            n == ps@.len(),
            k <= n,
            columns@.len() == k,
            types@.len() == k,
            nulls@.len() == k,
            forall|j: int| 0 <= j < k ==> (#[trigger] columns@[j])@ == item_name(xs@[j]@),
            forall|j: int| 0 <= j < k ==> #[trigger] types@[j] == ps@[j].ty,
            forall|j: int| 0 <= j < k ==> #[trigger] nulls@[j],
        decreases n - k,
    {
        columns.push(item_name_exec(&xs[k]));
        types.push(ps[k].ty);
        nulls.push(true);
        k = k + 1;
    }
    let mut out: Vec<Vec<Value>> = Vec::new();
    let mut r: usize = 0;
    while r < rows.len()
        invariant
            n == ps@.len(),
            r <= rows@.len(),
            out@.len() == r,
            forall|j: int| 0 <= j < ps@.len() ==> expr_in((#[trigger] ps@[j]).expr@, width as int),
            forall|i: int| 0 <= i < rows@.len() ==> (#[trigger] rows@[i])@.len() == width,
            forall|i: int| 0 <= i < r ==> (#[trigger] out@[i])@.len() == n,
            forall|i: int|
                0 <= i < r ==> row_view(#[trigger] out@[i]) == Seq::new(
                    ps@.len() as nat,
                    |k: int| spec_eval_expr(ps@[k].expr@, row_view(rows@[i]), db@, now),
                ),
        decreases rows@.len() - r,
    {
        let row = &rows[r];
        let mut vals: Vec<Value> = Vec::new();
        let mut k: usize = 0;
        while k < n
            invariant
                n == ps@.len(),
                k <= n,
                row@.len() == width,
                forall|j: int| 0 <= j < ps@.len() ==> expr_in((#[trigger] ps@[j]).expr@, width as int),
                vals@.len() == k,
                forall|j: int|
                    0 <= j < k ==> (#[trigger] vals@[j])@ == spec_eval_expr(
                        ps@[j].expr@,
                        row_view(*row),
                        db@,
                        now,
                    ),
            decreases n - k,
        {
            vals.push(eval_expr(&ps[k].expr, row, db, now));
            k = k + 1;
        }
        assert(row_view(vals) =~= Seq::new(
            ps@.len() as nat,
            |k: int| spec_eval_expr(ps@[k].expr@, row_view(rows@[r as int]), db@, now),
        ));
        out.push(vals);
        r = r + 1;
    }
    let res = QueryResult { columns, column_types: types, column_nullabilities: nulls, rows: out };
    let ghost spec = project(items_view(xs@), plans_view(ps@), rows_view(rows@), db@, now);
    assert(res@.columns =~= spec.columns);
    assert(res@.column_types =~= spec.column_types);
    assert(res@.column_nullabilities =~= spec.column_nullabilities);
    assert forall|i: int| 0 <= i < spec.rows.len() implies #[trigger] res@.rows[i] == spec.rows[i] by {
        assert(rows_view(rows@)[i] == row_view(rows@[i]));
        assert(res@.rows[i] == row_view(res.rows@[i]));
        assert forall|k: int| 0 <= k < ps@.len() implies plans_view(ps@)[k].0 == ps@[k].expr@ by {}
        assert(res@.rows[i] =~= spec.rows[i]);
    }
    assert(res@.rows =~= spec.rows);
    res
}

/// Inserts `row` among rows sorted on column `k`, after every row whose key
/// it does not precede.
fn insert_row_sorted(rows: &mut Vec<Vec<Value>>, row: Vec<Value>, k: usize, width: usize)
    requires
        k < width,
        row@.len() == width,
        forall|i: int| 0 <= i < old(rows)@.len() ==> (#[trigger] old(rows)@[i])@.len() == width,
    ensures
        rows_view(final(rows)@) == insert_sorted(rows_view(old(rows)@), row_view(row), k as int),
        forall|i: int| 0 <= i < final(rows)@.len() ==> (#[trigger] final(rows)@[i])@.len() == width,
{
    let ghost s = rows_view(rows@);
    let ghost rv = row_view(row);
    let mut p: usize = rows.len();
    while p > 0 && value_less(&row[k], &rows[p - 1][k])
        invariant
            p <= rows@.len(),
            k < width,
            row@.len() == width,
            s == rows_view(rows@),
            rv == row_view(row),
            rows@ == old(rows)@,
            forall|i: int| 0 <= i < rows@.len() ==> (#[trigger] rows@[i])@.len() == width,
            insert_pos(s, rv, k as int, rows@.len() as int) == insert_pos(s, rv, k as int, p as int),
        decreases p,
    {
        assert(s[p - 1][k as int] == rows@[p - 1]@[k as int]@);
        assert(rv[k as int] == row@[k as int]@);
        p = p - 1;
    }
    proof {
        if p > 0 {
            assert(s[p - 1][k as int] == rows@[p - 1]@[k as int]@);
            assert(rv[k as int] == row@[k as int]@);
        }
    }
    let ghost old_rows = rows@;
    let ghost rowc = row;
    rows.insert(p, row);
    assert(rows@ == old_rows.insert(p as int, rowc));
    assert(rows_view(rows@) =~= s.insert(p as int, rv));
    assert forall|i: int| 0 <= i < rows@.len() implies (#[trigger] rows@[i])@.len() == width by {
        if i < p {
            assert(rows@[i] == old_rows[i]);
        } else if i > p {
            assert(rows@[i] == old_rows[i - 1]);
        }
    }
}

/// Sorts rows ascending on column `k`, keeping the order of equal keys.
fn sort_rows_exec(rows: &Vec<Vec<Value>>, k: usize, width: usize) -> (r: Vec<Vec<Value>>)
    requires
        k < width,
        forall|i: int| 0 <= i < rows@.len() ==> (#[trigger] rows@[i])@.len() == width,
    ensures
        rows_view(r@) == sort_rows(rows_view(rows@), k as int),
        forall|i: int| 0 <= i < r@.len() ==> (#[trigger] r@[i])@.len() == width,
{
    let ghost rv = rows_view(rows@);
    let mut out: Vec<Vec<Value>> = Vec::new();
    let mut i: usize = 0;
    assert(rv.take(0) =~= Seq::<Seq<ValueModel>>::empty());
    assert(rows_view(out@) =~= Seq::<Seq<ValueModel>>::empty());
    while i < rows.len()
        invariant
            i <= rows@.len(),
            k < width,
            rv == rows_view(rows@),
            forall|j: int| 0 <= j < rows@.len() ==> (#[trigger] rows@[j])@.len() == width,
            forall|j: int| 0 <= j < out@.len() ==> (#[trigger] out@[j])@.len() == width,
            rows_view(out@) == sort_rows(rv.take(i as int), k as int),
        decreases rows@.len() - i,
    {
        assert(rv.take(i + 1).drop_last() =~= rv.take(i as int));
        assert(rv.take(i + 1).last() == row_view(rows@[i as int]));
        let row = copy_row(&rows[i]);
        assert(row@.len() == row_view(row).len());
        insert_row_sorted(&mut out, row, k, width);
        i = i + 1;
    }
    assert(rv.take(rows@.len() as int) =~= rv);
    out
}

fn copy_strings(v: &Vec<String>) -> (r: Vec<String>)
    ensures
        r@.map_values(|s: String| s@) == v@.map_values(|s: String| s@),
{
    let mut r: Vec<String> = Vec::new();
    let mut k: usize = 0;
    while k < v.len()
        invariant
            k <= v@.len(),
            r@.len() == k,
            forall|j: int| 0 <= j < k ==> (#[trigger] r@[j])@ == v@[j]@,
        decreases v@.len() - k,
    {
        r.push(v[k].clone());
        k = k + 1;
    }
    assert(r@.map_values(|s: String| s@) =~= v@.map_values(|s: String| s@));
    r
}

fn copy_types(v: &Vec<DataType>) -> (r: Vec<DataType>)
    ensures
        r@ == v@,
{
    let mut r: Vec<DataType> = Vec::new();
    let mut k: usize = 0;
    while k < v.len()
        invariant
            k <= v@.len(),
            r@ == v@.take(k as int),
        decreases v@.len() - k,
    {
        r.push(v[k]);
        k = k + 1;
        assert(r@ =~= v@.take(k as int));
    }
    assert(v@.take(v@.len() as int) =~= v@);
    r
}

pub open spec fn src_view(src: Option<(Vec<char>, QueryResult)>) -> Option<(Seq<char>, QueryResultModel)> {
    match src {
        None => None,
        Some((q, t)) => Some((q@, t@)),
    }
}

/// Evaluates a `SELECT` over an optional source whose columns are qualified by `q`.
pub fn select_over(
    db: &Database,
    now: i64,
    sel: &Select,
    src: Option<(Vec<char>, QueryResult)>,
) -> (r: Result<QueryResult, DbError>)
    requires
        src matches Some((_, t)) ==> table_wf(t@),
    ensures
        match r {
            Ok(q) => spec_select_over(
                db@,
                now,
                sel@,
                src_view(src),
            ) == Ok::<QueryResultModel, DbErrorModel>(q@) && table_wf(q@),
            Err(e) => spec_select_over(
                db@,
                now,
                sel@,
                src_view(src),
            ) == Err::<QueryResultModel, DbErrorModel>(e@),
        },
{
    let ghost srcv: Option<(Seq<char>, QueryResultModel)> = src_view(src);
    let ghost scope_v: Option<ScopeModel> = match srcv {
        None => None,
        Some((q, t)) => Some(source_scope(q, t)),
    };
    let ghost table_v: Option<QueryResultModel> = match srcv {
        None => None,
        Some((_, t)) => Some(t),
    };
    let (scope, table): (Option<Scope>, Option<QueryResult>) = match src {
        None => (None, None),
        Some((q, t)) => {
            let sc = Scope { qualifier: q, names: copy_strings(&t.columns), types: copy_types(&t.column_types) };
            (Some(sc), Some(t))
        },
    };
    let sref: Option<&Scope> = scope.as_ref();
    assert(opt_scope(sref) == scope_v);
    let width: usize = match &table {
        None => 0,
        Some(t) => t.columns.len(),
    };
    assert(sref matches Some(sc) ==> scope_wf(sc@));
    let plans: Option<Vec<Plan>> = match &sel.list {
        SelectList::Star => {
            if table.is_none() {
                return Err(DbError::Execution(String::from_str("Must specify table to select from.")));
            }
            None
        },
        SelectList::Items(xs) => match plan_items(sref, xs) {
            Err(e) => {
                return Err(e);
            },
            Ok(ps) => Some(ps),
        },
    };
    let f = match bind_filter(sref, &sel.filter) {
        Err(e) => {
            return Err(e);
        },
        Ok(f) => f,
    };
    let order: Option<usize> = match &sel.order_by {
        None => None,
        Some(c) => match bind_column(sref, c) {
            Err(e) => {
                return Err(e);
            },
            Ok(k) => Some(k),
        },
    };
    if let Some(n) = sel.top {
        if n < 0 {
            return Err(DbError::Execution(String::from_str("A TOP N value may not be negative.")));
        }
    }
    let rows0: Vec<Vec<Value>> = match &table {
        None => {
            let empty: Vec<Value> = Vec::new();
            assert(row_view(empty) =~= Seq::<ValueModel>::empty());
            let v = vec![empty];
            assert(rows_view(v@) =~= seq![Seq::<ValueModel>::empty()]);
            v
        },
        Some(t) => crate::database::copy_rows(&t.rows),
    };
    let ghost r0: Seq<Seq<ValueModel>> = match table_v {
        None => seq![seq![]],
        Some(t) => t.rows,
    };
    assert(rows_view(rows0@) == r0);
    assert forall|i: int| 0 <= i < rows0@.len() implies (#[trigger] rows0@[i])@.len() == width by {
        if let Some(t) = &table {
            assert(t@.rows[i] == row_view(t.rows@[i]));
            assert(rows_view(rows0@)[i] == row_view(rows0@[i]));
        }
    }
    let rows1 = keep_rows(&rows0, &f, width, db, now, true);
    let mut rows2 = match order {
        None => rows1,
        Some(k) => sort_rows_exec(&rows1, k, width),
    };
    if let Some(n) = sel.top {
        if (n as u64) < (rows2.len() as u64) {
            let ghost before = rows2@;
            rows2.truncate(n as usize);
            assert(rows_view(rows2@) =~= rows_view(before).take(n as int));
        }
    }
    let ghost rows_spec = selected_rows(sel@, table_v, bound_filter_view(f@), match order {
        None => None,
        Some(k) => Some(k as int),
    }, db@, now);
    assert(rows_view(rows2@) == rows_spec);
    match plans {
        None => {
            let t = table.unwrap();
            let res = QueryResult { rows: rows2, ..t };
            assert forall|i: int| 0 <= i < res@.rows.len() implies (#[trigger] res@.rows[i]).len() == res@.columns.len() by {
                assert(res@.rows[i] == row_view(res.rows@[i]));
            }
            Ok(res)
        },
        Some(ps) => {
            let xs = match &sel.list {
                SelectList::Items(xs) => xs,
                SelectList::Star => {
                    return Err(DbError::Execution(String::from_str("Must specify table to select from.")));
                },
            };
            Ok(project_exec(xs, &ps, &rows2, width, db, now))
        },
    }
}

/// Evaluates a `SELECT` over the database at the instant `now`.
pub fn run_select(db: &Database, now: i64, sel: &Select) -> (r: Result<QueryResult, DbError>)
    requires
        db_wf(db@),
    ensures
        match r {
            Ok(q) => spec_select(db@, now, sel@) == Ok::<QueryResultModel, DbErrorModel>(q@),
            Err(e) => spec_select(db@, now, sel@) == Err::<QueryResultModel, DbErrorModel>(e@),
        },
{
    match &sel.from {
        None => select_over(db, now, sel, None),
        Some(r) => match read_source(db, r) {
            Err(e) => Err(e),
            Ok(t) => {
                let q = match &r.alias {
                    Some(a) => copy_chars(a),
                    None => copy_chars(&r.object.name),
                };
                select_over(db, now, sel, Some((q, t)))
            },
        },
    }
}

// ---------------------------------------------------------------------------
// Laws
// ---------------------------------------------------------------------------

/// `SELECT * FROM table`.
pub open spec fn select_all(table: ObjectNameModel) -> SelectModel {
    SelectModel {
        top: None,
        list: SelectListModel::Star,
        from: Some(TableRefModel { object: table, call: false, alias: None }),
        filter: seq![],
        order_by: None,
    }
}

/// A condition with no comparisons keeps every row.
pub proof fn lemma_keep_all(rows: Seq<Seq<ValueModel>>, db: DatabaseModel, now: i64)
    ensures
        spec_keep_rows(rows, seq![], db, now, true) == rows,
    decreases rows.len(),
{
    if rows.len() > 0 {
        lemma_keep_all(rows.drop_last(), db, now);
        assert(crate::eval::spec_row_matches(seq![], rows.last(), db, now));
        assert(rows.drop_last().push(rows.last()) =~= rows);
    }
}

/// `SELECT * FROM t` reads a user table's columns and all its rows in order.
pub proof fn lemma_select_all_reads_table(db: DatabaseModel, now: i64, table: ObjectNameModel)
    requires
        lookup_table(db, table) is Some,
    ensures
        spec_select(db, now, select_all(table)) == Ok::<QueryResultModel, DbErrorModel>(
            table_result(db.tables[lookup_table(db, table)->0]),
        ),
{
    reveal_strlit("DBO");
    reveal_strlit("SYS");
    let ti = lookup_table(db, table)->0;
    lemma_find_table_from_range(db.tables, table.name, 0);
    if let Some(sch) = table.schema {
        assert(crate::text::word_is(sch, "DBO"@));
        assert(crate::text::upper_eq(sch[0], 'D'));
    }
    assert(!is_sys(table.schema));
    let r = TableRefModel { object: table, call: false, alias: None };
    let t = table_result(db.tables[ti]);
    assert(spec_source(db, r) == Ok::<QueryResultModel, DbErrorModel>(t));
    lemma_keep_all(t.rows, db, now);
    assert(QueryResultModel { rows: t.rows, ..t } == t);
}

/// What a read gives back of a write: after a successful `INSERT`,
/// `SELECT * FROM` the table answers what it answered before, with the
/// inserted row added at the end.
pub proof fn law_select_all_after_insert(
    db: DatabaseModel,
    now: i64,
    table: ObjectNameModel,
    names: Seq<Seq<char>>,
    values: Seq<LiteralModel>,
    later: i64,
)
    requires
        spec_insert(db, now, table, names, values) is Ok,
    ensures
        spec_select(db, later, select_all(table)) is Ok,
        spec_select(spec_insert(db, now, table, names, values)->Ok_0, later, select_all(table))
            == Ok::<QueryResultModel, DbErrorModel>(
            QueryResultModel {
                rows: spec_select(db, later, select_all(table))->Ok_0.rows.push(
                    inserted_row(db, now, table, names, values),
                ),
                ..spec_select(db, later, select_all(table))->Ok_0
            },
        ),
{
    crate::database::law_insert_appends_row(db, now, table, names, values);
    let ti = lookup_table(db, table)->0;
    lemma_find_table_from_range(db.tables, table.name, 0);
    let t = db.tables[ti];
    let t2 = TableModel { rows: t.rows.push(inserted_row(db, now, table, names, values)), ..t };
    let db2 = spec_insert(db, now, table, names, values)->Ok_0;
    assert(db2 == with_table(db, ti, t2));
    lemma_find_table_after_update(db.tables, ti, t2, table.name, 0);
    assert(lookup_table(db2, table) == Some(ti));
    lemma_select_all_reads_table(db, later, table);
    lemma_select_all_reads_table(db2, later, table);
    assert(db2.tables[ti] == t2);
    let r1 = table_result(t);
    let r2 = table_result(t2);
    assert(r2.columns =~= r1.columns);
    assert(r2.column_types =~= r1.column_types);
    assert(r2.column_nullabilities =~= r1.column_nullabilities);
}

/// Rows are in ascending order on column `k`: no row's key comes before the
/// key of an earlier row.
pub open spec fn sorted_on(rows: Seq<Seq<ValueModel>>, k: int) -> bool {
    forall|i: int, j: int|
        0 <= i < j < rows.len() ==> !value_lt(#[trigger] rows[j][k], #[trigger] rows[i][k])
}

proof fn lemma_insert_pos(s: Seq<Seq<ValueModel>>, row: Seq<ValueModel>, k: int, p: int)
    requires
        0 <= p <= s.len(),
    ensures
        0 <= insert_pos(s, row, k, p) <= p,
        forall|q: int|
            insert_pos(s, row, k, p) <= q < p ==> value_lt(row[k], #[trigger] s[q][k]),
        insert_pos(s, row, k, p) > 0 ==> !value_lt(row[k], s[insert_pos(s, row, k, p) - 1][k]),
    decreases p,
{
    if p > 0 && value_lt(row[k], s[p - 1][k]) {
        lemma_insert_pos(s, row, k, p - 1);
    }
}

proof fn lemma_insert_sorted(s: Seq<Seq<ValueModel>>, row: Seq<ValueModel>, k: int)
    requires
        sorted_on(s, k),
    ensures
        sorted_on(insert_sorted(s, row, k), k),
{
    let p = insert_pos(s, row, k, s.len() as int);
    lemma_insert_pos(s, row, k, s.len() as int);
    let n = s.insert(p, row);
    assert forall|i: int, j: int| 0 <= i < j < n.len() implies !value_lt(#[trigger] n[j][k], #[trigger] n[i][k]) by {
        if j < p {
            assert(n[i] == s[i] && n[j] == s[j]);
        } else if j == p {
            assert(n[i] == s[i] && n[j] == row);
            if i < p - 1 {
                assert(!value_lt(s[p - 1][k], s[i][k]));
                if value_lt(row[k], s[i][k]) {
                    law_value_lt_negatively_transitive(s[i][k], s[p - 1][k], row[k]);
                }
            }
        } else if i < p {
            assert(n[i] == s[i] && n[j] == s[j - 1]);
        } else if i == p {
            assert(n[i] == row && n[j] == s[j - 1]);
            assert(value_lt(row[k], s[j - 1][k]));
            law_value_lt_asymmetric(row[k], s[j - 1][k]);
        } else {
            assert(n[i] == s[i - 1] && n[j] == s[j - 1]);
        }
    }
}

/// `ORDER BY` sorts: the rows come out in ascending order of the key, and
/// they are the rows that went in, each as often as before.
pub proof fn law_sort_rows_sorts(rows: Seq<Seq<ValueModel>>, k: int)
    ensures
        sorted_on(sort_rows(rows, k), k),
        sort_rows(rows, k).to_multiset() == rows.to_multiset(),
    decreases rows.len(),
{
    broadcast use vstd::seq_lib::to_multiset_insert, vstd::seq_lib::to_multiset_build;

    if rows.len() == 0 {
        assert(rows =~= Seq::<Seq<ValueModel>>::empty());
    } else {
        let rest = sort_rows(rows.drop_last(), k);
        law_sort_rows_sorts(rows.drop_last(), k);
        lemma_insert_sorted(rest, rows.last(), k);
        let p = insert_pos(rest, rows.last(), k, rest.len() as int);
        lemma_insert_pos(rest, rows.last(), k, rest.len() as int);
        assert(rest.insert(p, rows.last()).to_multiset() == rest.to_multiset().insert(rows.last()));
        assert(rows.drop_last().push(rows.last()) =~= rows);
        assert(rows.drop_last().push(rows.last()).to_multiset() == rows.drop_last().to_multiset().insert(
            rows.last(),
        ));
    }
}

/// `ORDER BY` without `DESC` sorts ascending: of two rows of the sorted
/// output, where the later key is `NULL` the earlier one is too; two
/// datetimes come earlier instant first; two numbers smaller first; two texts
/// in lexicographic order up to case, never the later before the earlier.
pub proof fn law_order_by_ascends(rows: Seq<Seq<ValueModel>>, k: int, i: int, j: int)
    requires
        0 <= i < j < sort_rows(rows, k).len(),
    ensures
        sort_rows(rows, k)[j][k] is Null ==> sort_rows(rows, k)[i][k] is Null,
        sort_rows(rows, k)[i][k] is DateTime && sort_rows(rows, k)[j][k] is DateTime ==> sort_rows(
            rows,
            k,
        )[i][k]->DateTime_0 <= sort_rows(rows, k)[j][k]->DateTime_0,
        int_value(sort_rows(rows, k)[i][k]) is Some && int_value(sort_rows(rows, k)[j][k]) is Some
            ==> int_value(sort_rows(rows, k)[i][k])->0 <= int_value(sort_rows(rows, k)[j][k])->0,
        text_value(sort_rows(rows, k)[i][k]) is Some && text_value(sort_rows(rows, k)[j][k]) is Some
            ==> !lexicographic_lt(
            text_value(sort_rows(rows, k)[j][k])->0,
            text_value(sort_rows(rows, k)[i][k])->0,
        ),
{
    let s = sort_rows(rows, k);
    law_sort_rows_sorts(rows, k);
    assert(!value_lt(s[j][k], s[i][k]));
    law_null_sorts_first(s[i][k]);
    if s[i][k] is DateTime && s[j][k] is DateTime {
        law_datetimes_ascend_by_instant(s[j][k]->DateTime_0, s[i][k]->DateTime_0);
    }
    if int_value(s[i][k]) is Some && int_value(s[j][k]) is Some {
        law_numbers_ascend_by_value(s[j][k], s[i][k]);
    }
    if text_value(s[i][k]) is Some && text_value(s[j][k]) is Some {
        law_texts_ascend_lexicographically(s[j][k], s[i][k]);
    }
}

} // verus!
