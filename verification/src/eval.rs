//! Expressions over the rows of a table: binding resolves each column
//! reference against the columns in scope (once, before any row is read), and
//! evaluation computes a bound expression on one row. A `WHERE` condition is a
//! list of bound comparisons that must all hold.

use vstd::prelude::*;

use crate::ast::{
    filter_view, operands_view, ColumnRef, ColumnRefModel, Comparison, ComparisonModel, Expr,
    ExprModel, Operand, OperandModel,
};
use crate::builtins::{
    apply, builtin_type, builtin_type_exec, eval_literal, resolve_call, spec_apply,
    spec_eval_literal, spec_resolve_call, Builtin,
};
use crate::database::{rows_view, Database, DatabaseModel};
use crate::text::{same_name, same_name_chars, same_name_str, string_from_chars};
use crate::types::{copy_row, copy_value, row_view, DataType, DbError, DbErrorModel, Value, ValueModel};
use crate::values::{sql_equal, values_equal};

verus! {

// ---------------------------------------------------------------------------
// Specification
// ---------------------------------------------------------------------------

/// The columns an expression may name: those of one table (or table
/// source), reached through `qualifier` (its alias or name) or unqualified.
pub struct ScopeModel {
    pub qualifier: Seq<char>,
    pub names: Seq<Seq<char>>,
    pub types: Seq<DataType>,
}

/// A scope names a type for each of its columns.
pub open spec fn scope_wf(sc: ScopeModel) -> bool {
    sc.names.len() == sc.types.len()
}

/// A bound operand: a constant, or column `k` of the row.
pub enum BoundOperandModel {
    Const(ValueModel),
    Col(int),
}

/// A bound expression.
pub enum BoundExprModel {
    Operand(BoundOperandModel),
    Call(Builtin, Seq<BoundOperandModel>),
}

/// A bound comparison `left = right`.
pub struct BoundComparisonModel {
    pub left: BoundExprModel,
    pub right: BoundExprModel,
}

/// The first name at or after `k` equal to `name` up to case.
pub open spec fn find_name_from(names: Seq<Seq<char>>, name: Seq<char>, k: int) -> Option<int>
    decreases names.len() - k,
{
    if k < 0 || k >= names.len() {
        None
    } else if same_name(names[k], name) {
        Some(k)
    } else {
        find_name_from(names, name, k + 1)
    }
}

pub open spec fn msg_invalid_column(name: Seq<char>) -> Seq<char> {
    "Invalid column name '"@ + name + "'."@
}

pub open spec fn msg_unbound(qualifier: Seq<char>, name: Seq<char>) -> Seq<char> {
    "The multi-part identifier \""@ + qualifier + "."@ + name + "\" could not be bound."@
}

/// The column of the scope a reference names.
pub open spec fn spec_bind_column(scope: Option<ScopeModel>, c: ColumnRefModel) -> Result<
    int,
    DbErrorModel,
> {
    match scope {
        None => match c.qualifier {
            Some(q) => Err(DbErrorModel::Execution(msg_unbound(q, c.name))),
            None => Err(DbErrorModel::Execution(msg_invalid_column(c.name))),
        },
        Some(sc) => if c.qualifier is Some && !same_name(c.qualifier->0, sc.qualifier) {
            Err(DbErrorModel::Execution(msg_unbound(c.qualifier->0, c.name)))
        } else {
            match find_name_from(sc.names, c.name, 0) {
                Some(k) => Ok(k),
                None => Err(DbErrorModel::Execution(msg_invalid_column(c.name))),
            }
        },
    }
}

/// A bound operand and its type.
pub open spec fn spec_bind_operand(scope: Option<ScopeModel>, o: OperandModel) -> Result<
    (BoundOperandModel, DataType),
    DbErrorModel,
> {
    match o {
        OperandModel::Literal(l) => Ok(
            (BoundOperandModel::Const(spec_eval_literal(l).0), spec_eval_literal(l).1),
        ),
        OperandModel::Column(c) => match spec_bind_column(scope, c) {
            Err(e) => Err(e),
            Ok(k) => Ok((BoundOperandModel::Col(k), scope->0.types[k])),
        },
    }
}

/// Bound operands, left to right; the first failing operand's error.
pub open spec fn spec_bind_operands(scope: Option<ScopeModel>, os: Seq<OperandModel>) -> Result<
    Seq<BoundOperandModel>,
    DbErrorModel,
>
    decreases os.len(),
{
    if os.len() == 0 {
        Ok(seq![])
    } else {
        match spec_bind_operands(scope, os.drop_last()) {
            Err(e) => Err(e),
            Ok(bs) => match spec_bind_operand(scope, os.last()) {
                Err(e) => Err(e),
                Ok((b, _)) => Ok(bs.push(b)),
            },
        }
    }
}

/// A bound expression and its type.
pub open spec fn spec_bind_expr(scope: Option<ScopeModel>, e: ExprModel) -> Result<
    (BoundExprModel, DataType),
    DbErrorModel,
> {
    match e {
        ExprModel::Operand(o) => match spec_bind_operand(scope, o) {
            Err(err) => Err(err),
            Ok((b, t)) => Ok((BoundExprModel::Operand(b), t)),
        },
        ExprModel::Call(f, args) => match spec_resolve_call(f, args.len()) {
            Err(err) => Err(err),
            Ok(b) => match spec_bind_operands(scope, args) {
                Err(err) => Err(err),
                Ok(bs) => Ok((BoundExprModel::Call(b, bs), builtin_type(b))),
            },
        },
    }
}

/// The bound comparisons of a `WHERE` condition; the first failing one's error.
pub open spec fn spec_bind_filter(scope: Option<ScopeModel>, cs: Seq<ComparisonModel>) -> Result<
    Seq<BoundComparisonModel>,
    DbErrorModel,
>
    decreases cs.len(),
{
    if cs.len() == 0 {
        Ok(seq![])
    } else {
        match spec_bind_filter(scope, cs.drop_last()) {
            Err(e) => Err(e),
            Ok(bs) => match spec_bind_expr(scope, cs.last().left) {
                Err(e) => Err(e),
                Ok((l, _)) => match spec_bind_expr(scope, cs.last().right) {
                    Err(e) => Err(e),
                    Ok((r, _)) => Ok(bs.push(BoundComparisonModel { left: l, right: r })),
                },
            },
        }
    }
}

pub open spec fn spec_eval_operand(o: BoundOperandModel, row: Seq<ValueModel>) -> ValueModel {
    match o {
        BoundOperandModel::Const(v) => v,
        BoundOperandModel::Col(k) => row[k],
    }
}

/// The value of a bound expression on a row.
pub open spec fn spec_eval_expr(
    e: BoundExprModel,
    row: Seq<ValueModel>,
    db: DatabaseModel,
    now: i64,
) -> ValueModel {
    match e {
        BoundExprModel::Operand(o) => spec_eval_operand(o, row),
        BoundExprModel::Call(b, os) => spec_apply(
            b,
            Seq::new(os.len(), |i: int| spec_eval_operand(os[i], row)),
            db,
            now,
        ),
    }
}

/// A row satisfies every comparison of the condition.
pub open spec fn spec_row_matches(
    f: Seq<BoundComparisonModel>,
    row: Seq<ValueModel>,
    db: DatabaseModel,
    now: i64,
) -> bool {
    forall|i: int|
        0 <= i < f.len() ==> sql_equal(
            spec_eval_expr(#[trigger] f[i].left, row, db, now),
            spec_eval_expr(f[i].right, row, db, now),
        )
}

/// The rows whose match of the condition is `keep`, in order.
pub open spec fn spec_keep_rows(
    rows: Seq<Seq<ValueModel>>,
    f: Seq<BoundComparisonModel>,
    db: DatabaseModel,
    now: i64,
    keep: bool,
) -> Seq<Seq<ValueModel>>
    decreases rows.len(),
{
    if rows.len() == 0 {
        seq![]
    } else {
        let before = spec_keep_rows(rows.drop_last(), f, db, now, keep);
        if spec_row_matches(f, rows.last(), db, now) == keep {
            before.push(rows.last())
        } else {
            before
        }
    }
}

/// The value of a column default: the constant expression evaluated with no
/// row in scope.
pub open spec fn spec_eval_default(e: ExprModel, db: DatabaseModel, now: i64) -> ValueModel {
    match spec_bind_expr(None, e) {
        Ok((b, _)) => spec_eval_expr(b, seq![], db, now),
        Err(_) => ValueModel::Null,
    }
}

/// Every column a bound operand reads is below `n`.
pub open spec fn operand_in(o: BoundOperandModel, n: int) -> bool {
    match o {
        BoundOperandModel::Const(_) => true,
        BoundOperandModel::Col(k) => 0 <= k < n,
    }
}

pub open spec fn expr_in(e: BoundExprModel, n: int) -> bool {
    match e {
        BoundExprModel::Operand(o) => operand_in(o, n),
        BoundExprModel::Call(_, os) => forall|i: int| 0 <= i < os.len() ==> operand_in(#[trigger] os[i], n),
    }
}

pub open spec fn filter_in(f: Seq<BoundComparisonModel>, n: int) -> bool {
    forall|i: int| 0 <= i < f.len() ==> expr_in(#[trigger] f[i].left, n) && expr_in(f[i].right, n)
}

// ---------------------------------------------------------------------------
// Implementation
// ---------------------------------------------------------------------------

/// The columns in scope.
pub struct Scope {
    pub qualifier: Vec<char>,
    pub names: Vec<String>,
    pub types: Vec<DataType>,
}

impl View for Scope {
    type V = ScopeModel;

    open spec fn view(&self) -> ScopeModel {
        ScopeModel {
            qualifier: self.qualifier@,
            names: self.names@.map_values(|s: String| s@),
            types: self.types@,
        }
    }
}

pub open spec fn opt_scope(s: Option<&Scope>) -> Option<ScopeModel> {
    match s {
        None => None,
        Some(sc) => Some(sc@),
    }
}

pub enum BoundOperand {
    Const(Value),
    Col(usize),
}

impl View for BoundOperand {
    type V = BoundOperandModel;

    open spec fn view(&self) -> BoundOperandModel {
        match self {
            BoundOperand::Const(v) => BoundOperandModel::Const(v@),
            BoundOperand::Col(k) => BoundOperandModel::Col(*k as int),
        }
    }
}

pub open spec fn bound_operands_view(os: Seq<BoundOperand>) -> Seq<BoundOperandModel> {
    os.map_values(|o: BoundOperand| o@)
}

pub enum BoundExpr {
    Operand(BoundOperand),
    Call(Builtin, Vec<BoundOperand>),
}

impl View for BoundExpr {
    type V = BoundExprModel;

    open spec fn view(&self) -> BoundExprModel {
        match self {
            BoundExpr::Operand(o) => BoundExprModel::Operand(o@),
            BoundExpr::Call(b, os) => BoundExprModel::Call(*b, bound_operands_view(os@)),
        }
    }
}

pub struct BoundComparison {
    pub left: BoundExpr,
    pub right: BoundExpr,
}

impl View for BoundComparison {
    type V = BoundComparisonModel;

    open spec fn view(&self) -> BoundComparisonModel {
        BoundComparisonModel { left: self.left@, right: self.right@ }
    }
}

pub open spec fn bound_filter_view(f: Seq<BoundComparison>) -> Seq<BoundComparisonModel> {
    f.map_values(|c: BoundComparison| c@)
}

fn find_name(names: &Vec<String>, name: &Vec<char>) -> (r: Option<usize>)
    ensures
        match r {
            None => find_name_from(names@.map_values(|s: String| s@), name@, 0) is None,
            Some(k) => find_name_from(names@.map_values(|s: String| s@), name@, 0) == Some(
                k as int,
            ) && k < names@.len(),
        },
{
    let ghost nv = names@.map_values(|s: String| s@);
    let mut k: usize = 0;
    while k < names.len()
        invariant
            k <= names@.len(),
            nv == names@.map_values(|s: String| s@),
            find_name_from(nv, name@, 0) == find_name_from(nv, name@, k as int),
        decreases names@.len() - k,
    {
        if same_name_str(&names[k], name) {
            return Some(k);
        }
        k = k + 1;
    }
    None
}

pub fn invalid_column(name: &Vec<char>) -> (e: DbError)
    ensures
        e@ == DbErrorModel::Execution(msg_invalid_column(name@)),
{
    let mut s = String::from_str("Invalid column name '");
    let n = string_from_chars(name.as_slice());
    s.append(n.as_str());
    s.append("'.");
    DbError::Execution(s)
}

fn unbound(q: &Vec<char>, name: &Vec<char>) -> (e: DbError)
    ensures
        e@ == DbErrorModel::Execution(msg_unbound(q@, name@)),
{
    let mut s = String::from_str("The multi-part identifier \"");
    let qs = string_from_chars(q.as_slice());
    s.append(qs.as_str());
    s.append(".");
    let n = string_from_chars(name.as_slice());
    s.append(n.as_str());
    s.append("\" could not be bound.");
    DbError::Execution(s)
}

/// The column of the scope a reference names.
pub fn bind_column(scope: Option<&Scope>, c: &ColumnRef) -> (r: Result<usize, DbError>)
    ensures
        match r {
            Ok(k) => spec_bind_column(opt_scope(scope), c@) == Ok::<int, DbErrorModel>(k as int)
                && scope is Some && k < scope->0.names@.len(),
            Err(e) => spec_bind_column(opt_scope(scope), c@) == Err::<int, DbErrorModel>(e@),
        },
{
    match scope {
        None => match &c.qualifier {
            Some(q) => Err(unbound(q, &c.name)),
            None => Err(invalid_column(&c.name)),
        },
        Some(sc) => {
            if let Some(q) = &c.qualifier {
                if !same_name_chars(q, &sc.qualifier) {
                    return Err(unbound(q, &c.name));
                }
            }
            match find_name(&sc.names, &c.name) {
                Some(k) => Ok(k),
                None => Err(invalid_column(&c.name)),
            }
        },
    }
}

/// A bound operand and its type.
pub fn bind_operand(scope: Option<&Scope>, o: &Operand) -> (r: Result<(BoundOperand, DataType), DbError>)
    requires
        scope matches Some(sc) ==> scope_wf(sc@),
    ensures
        match r {
            Ok((b, t)) => spec_bind_operand(opt_scope(scope), o@) == Ok::<
                (BoundOperandModel, DataType),
                DbErrorModel,
            >((b@, t)) && operand_in(
                b@,
                match scope {
                    Some(sc) => sc.names@.len() as int,
                    None => 0,
                },
            ),
            Err(e) => spec_bind_operand(opt_scope(scope), o@) == Err::<
                (BoundOperandModel, DataType),
                DbErrorModel,
            >(e@),
        },
{
    match o {
        Operand::Literal(l) => {
            let (v, t) = eval_literal(l);
            Ok((BoundOperand::Const(v), t))
        },
        Operand::Column(c) => match bind_column(scope, c) {
            Err(e) => Err(e),
            Ok(k) => {
                let sc = scope.unwrap();
                Ok((BoundOperand::Col(k), sc.types[k]))
            },
        },
    }
}

proof fn lemma_bind_operands_error_extends(scope: Option<ScopeModel>, os: Seq<OperandModel>, k: int)
    requires
        0 <= k <= os.len(),
        spec_bind_operands(scope, os.take(k)) is Err,
    ensures
        spec_bind_operands(scope, os) == spec_bind_operands(scope, os.take(k)),
    decreases os.len() - k,
{
    if k < os.len() {
        assert(os.take(k + 1).drop_last() =~= os.take(k));
        lemma_bind_operands_error_extends(scope, os, k + 1);
    } else {
        assert(os.take(k) =~= os);
    }
}

/// Bound operands, left to right.
pub fn bind_operands(scope: Option<&Scope>, os: &Vec<Operand>) -> (r: Result<Vec<BoundOperand>, DbError>)
    requires
        scope matches Some(sc) ==> scope_wf(sc@),
    ensures
        match r {
            Ok(bs) => spec_bind_operands(opt_scope(scope), operands_view(os@)) == Ok::<
                Seq<BoundOperandModel>,
                DbErrorModel,
            >(bound_operands_view(bs@)) && (forall|i: int|
                0 <= i < bs@.len() ==> operand_in(
                    #[trigger] bs@[i]@,
                    match scope {
                        Some(sc) => sc.names@.len() as int,
                        None => 0,
                    },
                )),
            Err(e) => spec_bind_operands(opt_scope(scope), operands_view(os@)) == Err::<
                Seq<BoundOperandModel>,
                DbErrorModel,
            >(e@),
        },
{
    let ghost n: int = match scope {
        Some(sc) => sc.names@.len() as int,
        None => 0,
    };
    let ghost ov = operands_view(os@);
    let mut out: Vec<BoundOperand> = Vec::new();
    let mut k: usize = 0;
    assert(ov.take(0) =~= Seq::<OperandModel>::empty());
    assert(bound_operands_view(out@) =~= Seq::<BoundOperandModel>::empty());
    while k < os.len()
        invariant
            k <= os@.len(),
            ov == operands_view(os@),
            scope matches Some(sc) ==> scope_wf(sc@),
            n == match scope {
                Some(sc) => sc.names@.len() as int,
                None => 0,
            },
            spec_bind_operands(opt_scope(scope), ov.take(k as int)) == Ok::<
                Seq<BoundOperandModel>,
                DbErrorModel,
            >(bound_operands_view(out@)),
            forall|i: int| 0 <= i < out@.len() ==> operand_in(#[trigger] out@[i]@, n),
        decreases os@.len() - k,
    {
        assert(ov.take(k + 1).drop_last() =~= ov.take(k as int));
        assert(ov.take(k + 1).last() == os@[k as int]@);
        match bind_operand(scope, &os[k]) {
            Err(e) => {
                proof {
                    lemma_bind_operands_error_extends(opt_scope(scope), ov, k + 1);
                }
                return Err(e);
            },
            Ok((b, _)) => {
                let ghost before = out@;
                let ghost bv = b@;
                out.push(b);
                assert(bound_operands_view(out@) =~= bound_operands_view(before).push(bv));
            },
        }
        k = k + 1;
    }
    assert(ov.take(os@.len() as int) =~= ov);
    Ok(out)
}

/// A bound expression and its type.
pub fn bind_expr(scope: Option<&Scope>, e: &Expr) -> (r: Result<(BoundExpr, DataType), DbError>)
    requires
        scope matches Some(sc) ==> scope_wf(sc@),
    ensures
        match r {
            Ok((b, t)) => spec_bind_expr(opt_scope(scope), e@) == Ok::<
                (BoundExprModel, DataType),
                DbErrorModel,
            >((b@, t)) && expr_in(
                b@,
                match scope {
                    Some(sc) => sc.names@.len() as int,
                    None => 0,
                },
            ),
            Err(err) => spec_bind_expr(opt_scope(scope), e@) == Err::<
                (BoundExprModel, DataType),
                DbErrorModel,
            >(err@),
        },
{
    match e {
        Expr::Operand(o) => match bind_operand(scope, o) {
            Err(err) => Err(err),
            Ok((b, t)) => Ok((BoundExpr::Operand(b), t)),
        },
        Expr::Call(f, args) => match resolve_call(f, args.len()) {
            Err(err) => Err(err),
            Ok(b) => match bind_operands(scope, args) {
                Err(err) => Err(err),
                Ok(bs) => Ok((BoundExpr::Call(b, bs), builtin_type_exec(b))),
            },
        },
    }
}

proof fn lemma_bind_filter_error_extends(scope: Option<ScopeModel>, cs: Seq<ComparisonModel>, k: int)
    requires
        0 <= k <= cs.len(),
        spec_bind_filter(scope, cs.take(k)) is Err,
    ensures
        spec_bind_filter(scope, cs) == spec_bind_filter(scope, cs.take(k)),
    decreases cs.len() - k,
{
    if k < cs.len() {
        assert(cs.take(k + 1).drop_last() =~= cs.take(k));
        lemma_bind_filter_error_extends(scope, cs, k + 1);
    } else {
        assert(cs.take(k) =~= cs);
    }
}

/// The bound comparisons of a `WHERE` condition.
pub fn bind_filter(scope: Option<&Scope>, cs: &Vec<Comparison>) -> (r: Result<
    Vec<BoundComparison>,
    DbError,
>)
    requires
        scope matches Some(sc) ==> scope_wf(sc@),
    ensures
        match r {
            Ok(bs) => spec_bind_filter(opt_scope(scope), filter_view(cs@)) == Ok::<
                Seq<BoundComparisonModel>,
                DbErrorModel,
            >(bound_filter_view(bs@)) && filter_in(
                bound_filter_view(bs@),
                match scope {
                    Some(sc) => sc.names@.len() as int,
                    None => 0,
                },
            ),
            Err(e) => spec_bind_filter(opt_scope(scope), filter_view(cs@)) == Err::<
                Seq<BoundComparisonModel>,
                DbErrorModel,
            >(e@),
        },
{
    let ghost n: int = match scope {
        Some(sc) => sc.names@.len() as int,
        None => 0,
    };
    let ghost cv = filter_view(cs@);
    let mut out: Vec<BoundComparison> = Vec::new();
    let mut k: usize = 0;
    assert(cv.take(0) =~= Seq::<ComparisonModel>::empty());
    assert(bound_filter_view(out@) =~= Seq::<BoundComparisonModel>::empty());
    while k < cs.len()
        invariant
            k <= cs@.len(),
            cv == filter_view(cs@),
            scope matches Some(sc) ==> scope_wf(sc@),
            n == match scope {
                Some(sc) => sc.names@.len() as int,
                None => 0,
            },
            spec_bind_filter(opt_scope(scope), cv.take(k as int)) == Ok::<
                Seq<BoundComparisonModel>,
                DbErrorModel,
            >(bound_filter_view(out@)),
            filter_in(bound_filter_view(out@), n),
        decreases cs@.len() - k,
    {
        assert(cv.take(k + 1).drop_last() =~= cv.take(k as int));
        assert(cv.take(k + 1).last() == cs@[k as int]@);
        match bind_expr(scope, &cs[k].left) {
            Err(e) => {
                proof {
                    lemma_bind_filter_error_extends(opt_scope(scope), cv, k + 1);
                }
                return Err(e);
            },
            Ok((l, _)) => match bind_expr(scope, &cs[k].right) {
                Err(e) => {
                    proof {
                        lemma_bind_filter_error_extends(opt_scope(scope), cv, k + 1);
                    }
                    return Err(e);
                },
                Ok((r, _)) => {
                    let ghost before = out@;
                    let c = BoundComparison { left: l, right: r };
                    let ghost cv2 = c@;
                    out.push(c);
                    assert(bound_filter_view(out@) =~= bound_filter_view(before).push(cv2));
                },
            },
        }
        k = k + 1;
    }
    assert(cv.take(cs@.len() as int) =~= cv);
    Ok(out)
}

fn eval_operand(o: &BoundOperand, row: &Vec<Value>) -> (v: Value)
    requires
        operand_in(o@, row@.len() as int),
    ensures
        v@ == spec_eval_operand(o@, row_view(*row)),
{
    match o {
        BoundOperand::Const(v) => copy_value(v),
        BoundOperand::Col(k) => copy_value(&row[*k]),
    }
}

/// The value of a bound expression on a row.
pub fn eval_expr(e: &BoundExpr, row: &Vec<Value>, db: &Database, now: i64) -> (v: Value)
    requires
        expr_in(e@, row@.len() as int),
    ensures
        v@ == spec_eval_expr(e@, row_view(*row), db@, now),
{
    match e {
        BoundExpr::Operand(o) => eval_operand(o, row),
        BoundExpr::Call(b, os) => {
            assert forall|i: int| 0 <= i < os@.len() implies operand_in(#[trigger] os@[i]@, row@.len() as int) by {
                assert(bound_operands_view(os@)[i] == os@[i]@);
            }
            let mut args: Vec<Value> = Vec::new();
            let mut k: usize = 0;
            while k < os.len()
                invariant
                    k <= os@.len(),
                    args@.len() == k,
                    forall|i: int| 0 <= i < os@.len() ==> operand_in(#[trigger] os@[i]@, row@.len() as int),
                    forall|i: int|
                        0 <= i < k ==> (#[trigger] args@[i])@ == spec_eval_operand(
                            os@[i]@,
                            row_view(*row),
                        ),
                decreases os@.len() - k,
            {
                assert(operand_in(os@[k as int]@, row@.len() as int));
                args.push(eval_operand(&os[k], row));
                k = k + 1;
            }
            let ghost ov = bound_operands_view(os@);
            assert(args@.map_values(|x: Value| x@) =~= Seq::new(
                ov.len(),
                |i: int| spec_eval_operand(ov[i], row_view(*row)),
            ));
            apply(*b, &args, db, now)
        },
    }
}

/// Whether a row satisfies every comparison of the condition.
pub fn row_matches(f: &Vec<BoundComparison>, row: &Vec<Value>, db: &Database, now: i64) -> (b: bool)
    requires
        filter_in(bound_filter_view(f@), row@.len() as int),
    ensures
        b == spec_row_matches(bound_filter_view(f@), row_view(*row), db@, now),
{
    let ghost fv = bound_filter_view(f@);
    let mut k: usize = 0;
    while k < f.len()
        invariant
            k <= f@.len(),
            fv == bound_filter_view(f@),
            filter_in(fv, row@.len() as int),
            forall|i: int|
                0 <= i < k ==> sql_equal(
                    spec_eval_expr(#[trigger] fv[i].left, row_view(*row), db@, now),
                    spec_eval_expr(fv[i].right, row_view(*row), db@, now),
                ),
        decreases f@.len() - k,
    {
        assert(fv[k as int] == f@[k as int]@);
        assert(expr_in(fv[k as int].left, row@.len() as int) && expr_in(fv[k as int].right, row@.len() as int));
        let l = eval_expr(&f[k].left, row, db, now);
        let r = eval_expr(&f[k].right, row, db, now);
        if !values_equal(&l, &r) {
            return false;
        }
        k = k + 1;
    }
    true
}

/// The rows whose match of the condition is `keep`, in order.
pub fn keep_rows(
    rows: &Vec<Vec<Value>>,
    f: &Vec<BoundComparison>,
    width: usize,
    db: &Database,
    now: i64,
    keep: bool,
) -> (r: Vec<Vec<Value>>)
    requires
        filter_in(bound_filter_view(f@), width as int),
        forall|i: int| 0 <= i < rows@.len() ==> (#[trigger] rows@[i])@.len() == width,
    ensures
        rows_view(r@) == spec_keep_rows(rows_view(rows@), bound_filter_view(f@), db@, now, keep),
        forall|i: int| 0 <= i < r@.len() ==> (#[trigger] r@[i])@.len() == width,
{
    let ghost rv = rows_view(rows@);
    let ghost fv = bound_filter_view(f@);
    let mut out: Vec<Vec<Value>> = Vec::new();
    let mut k: usize = 0;
    assert(rv.take(0) =~= Seq::<Seq<ValueModel>>::empty());
    assert(rows_view(out@) =~= Seq::<Seq<ValueModel>>::empty());
    while k < rows.len()
        invariant
            k <= rows@.len(),
            rv == rows_view(rows@),
            fv == bound_filter_view(f@),
            filter_in(fv, width as int),
            forall|i: int| 0 <= i < rows@.len() ==> (#[trigger] rows@[i])@.len() == width,
            forall|i: int| 0 <= i < out@.len() ==> (#[trigger] out@[i])@.len() == width,
            rows_view(out@) == spec_keep_rows(rv.take(k as int), fv, db@, now, keep),
        decreases rows@.len() - k,
    {
        assert(rv.take(k + 1).drop_last() =~= rv.take(k as int));
        assert(rv.take(k + 1).last() == row_view(rows@[k as int]));
        assert(row_view(rows@[k as int]).len() == width);
        if row_matches(f, &rows[k], db, now) == keep {
            let ghost before = out@;
            out.push(copy_row(&rows[k]));
            assert(rows_view(out@) =~= rows_view(before).push(row_view(rows@[k as int])));
        }
        k = k + 1;
    }
    assert(rv.take(rows@.len() as int) =~= rv);
    out
}

/// The value of a column default.
pub fn eval_default(e: &Expr, db: &Database, now: i64) -> (v: Value)
    ensures
        v@ == spec_eval_default(e@, db@, now),
{
    match bind_expr(None, e) {
        Ok((b, _)) => {
            let empty: Vec<Value> = Vec::new();
            assert(row_view(empty) =~= Seq::<ValueModel>::empty());
            eval_expr(&b, &empty, db, now)
        },
        Err(_) => Value::Null,
    }
}

// ---------------------------------------------------------------------------
// Laws
// ---------------------------------------------------------------------------

/// A condition keeps exactly the rows whose match is `keep`: every kept row
/// matches as asked, and every row of the input that matches as asked is kept.
pub proof fn law_keep_rows_exact(
    rows: Seq<Seq<ValueModel>>,
    f: Seq<BoundComparisonModel>,
    db: DatabaseModel,
    now: i64,
    keep: bool,
)
    ensures
        forall|x: int|
            0 <= x < spec_keep_rows(rows, f, db, now, keep).len() ==> spec_row_matches(
                f,
                #[trigger] spec_keep_rows(rows, f, db, now, keep)[x],
                db,
                now,
            ) == keep,
        forall|r: int|
            0 <= r < rows.len() && spec_row_matches(f, #[trigger] rows[r], db, now) == keep
                ==> spec_keep_rows(rows, f, db, now, keep).contains(rows[r]),
    decreases rows.len(),
{
    if rows.len() > 0 {
        let d = rows.drop_last();
        law_keep_rows_exact(d, f, db, now, keep);
        let kd = spec_keep_rows(d, f, db, now, keep);
        let kr = spec_keep_rows(rows, f, db, now, keep);
        assert forall|x: int| 0 <= x < kr.len() implies spec_row_matches(f, #[trigger] kr[x], db, now) == keep by {
            if x < kd.len() {
                assert(kr[x] == kd[x]);
            }
        }
        assert forall|r: int| 0 <= r < rows.len() && spec_row_matches(f, #[trigger] rows[r], db, now) == keep implies kr.contains(rows[r]) by {
            if r < d.len() {
                assert(rows[r] == d[r]);
                let x = choose|x: int| 0 <= x < kd.len() && kd[x] == d[r];
                assert(kr[x] == kd[x]);
            } else {
                assert(kr[kr.len() - 1] == rows[r]);
            }
        }
    }
}

} // verus!
