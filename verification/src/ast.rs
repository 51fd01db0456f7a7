//! Statements of the T-SQL subset the engine runs: queries, `SET` options,
//! `EXEC` of the describe procedures, table definition (`CREATE TABLE`,
//! `ALTER TABLE`), row changes (`INSERT`, `UPDATE`, `DELETE`) and
//! transactions (`BEGIN TRANSACTION`, `COMMIT`, `ROLLBACK`).

use vstd::prelude::*;

use crate::text::copy_chars;

verus! {

/// A literal: `NULL`, an integer, `'text'` or `N'text'`.
#[derive(Clone, Debug)]
pub enum Literal {
    Null,
    Int(i64),
    Str(Vec<char>),
    NStr(Vec<char>),
}

pub enum LiteralModel {
    Null,
    Int(i64),
    Str(Seq<char>),
    NStr(Seq<char>),
}

impl View for Literal {
    type V = LiteralModel;

    open spec fn view(&self) -> LiteralModel {
        match self {
            Literal::Null => LiteralModel::Null,
            Literal::Int(n) => LiteralModel::Int(*n),
            Literal::Str(s) => LiteralModel::Str(s@),
            Literal::NStr(s) => LiteralModel::NStr(s@),
        }
    }
}

pub open spec fn literals_view(ls: Seq<Literal>) -> Seq<LiteralModel> {
    ls.map_values(|l: Literal| l@)
}

/// A reference to a column, optionally qualified by a table name or alias.
#[derive(Clone, Debug)]
pub struct ColumnRef {
    pub qualifier: Option<Vec<char>>,
    pub name: Vec<char>,
}

pub struct ColumnRefModel {
    pub qualifier: Option<Seq<char>>,
    pub name: Seq<char>,
}

pub open spec fn opt_chars_view(o: Option<Vec<char>>) -> Option<Seq<char>> {
    match o {
        None => None,
        Some(v) => Some(v@),
    }
}

impl View for ColumnRef {
    type V = ColumnRefModel;

    open spec fn view(&self) -> ColumnRefModel {
        ColumnRefModel { qualifier: opt_chars_view(self.qualifier), name: self.name@ }
    }
}

/// An argument of a function call: a literal or a column.
#[derive(Clone, Debug)]
pub enum Operand {
    Literal(Literal),
    Column(ColumnRef),
}

pub enum OperandModel {
    Literal(LiteralModel),
    Column(ColumnRefModel),
}

impl View for Operand {
    type V = OperandModel;

    open spec fn view(&self) -> OperandModel {
        match self {
            Operand::Literal(l) => OperandModel::Literal(l@),
            Operand::Column(c) => OperandModel::Column(c@),
        }
    }
}

pub open spec fn operands_view(os: Seq<Operand>) -> Seq<OperandModel> {
    os.map_values(|o: Operand| o@)
}

/// An expression: an operand, or a call of a built-in function on operands.
#[derive(Clone, Debug)]
pub enum Expr {
    Operand(Operand),
    Call(Vec<char>, Vec<Operand>),
}

pub enum ExprModel {
    Operand(OperandModel),
    Call(Seq<char>, Seq<OperandModel>),
}

impl View for Expr {
    type V = ExprModel;

    open spec fn view(&self) -> ExprModel {
        match self {
            Expr::Operand(o) => ExprModel::Operand(o@),
            Expr::Call(f, args) => ExprModel::Call(f@, operands_view(args@)),
        }
    }
}

/// `left = right`.
#[derive(Clone, Debug)]
pub struct Comparison {
    pub left: Expr,
    pub right: Expr,
}

pub struct ComparisonModel {
    pub left: ExprModel,
    pub right: ExprModel,
}

impl View for Comparison {
    type V = ComparisonModel;

    open spec fn view(&self) -> ComparisonModel {
        ComparisonModel { left: self.left@, right: self.right@ }
    }
}

/// A `WHERE` condition: comparisons joined by `AND` (none: every row).
pub open spec fn filter_view(f: Seq<Comparison>) -> Seq<ComparisonModel> {
    f.map_values(|c: Comparison| c@)
}

/// One entry of a select list, with its optional `AS` alias.
#[derive(Clone, Debug)]
pub struct SelectItem {
    pub expr: Expr,
    pub alias: Option<Vec<char>>,
}

pub struct SelectItemModel {
    pub expr: ExprModel,
    pub alias: Option<Seq<char>>,
}

impl View for SelectItem {
    type V = SelectItemModel;

    open spec fn view(&self) -> SelectItemModel {
        SelectItemModel { expr: self.expr@, alias: opt_chars_view(self.alias) }
    }
}

pub open spec fn items_view(items: Seq<SelectItem>) -> Seq<SelectItemModel> {
    items.map_values(|i: SelectItem| i@)
}

/// A select list: `*` or a list of items.
#[derive(Clone, Debug)]
pub enum SelectList {
    Star,
    Items(Vec<SelectItem>),
}

pub enum SelectListModel {
    Star,
    Items(Seq<SelectItemModel>),
}

impl View for SelectList {
    type V = SelectListModel;

    open spec fn view(&self) -> SelectListModel {
        match self {
            SelectList::Star => SelectListModel::Star,
            SelectList::Items(items) => SelectListModel::Items(items_view(items@)),
        }
    }
}

/// A table name, `[schema.]name`.
#[derive(Clone, Debug)]
pub struct ObjectName {
    pub schema: Option<Vec<char>>,
    pub name: Vec<char>,
}

pub struct ObjectNameModel {
    pub schema: Option<Seq<char>>,
    pub name: Seq<char>,
}

impl View for ObjectName {
    type V = ObjectNameModel;

    open spec fn view(&self) -> ObjectNameModel {
        ObjectNameModel { schema: opt_chars_view(self.schema), name: self.name@ }
    }
}

/// A table source: a table name, called with `()` when it is a table-valued
/// function, with an optional alias.
#[derive(Clone, Debug)]
pub struct TableRef {
    pub object: ObjectName,
    pub call: bool,
    pub alias: Option<Vec<char>>,
}

pub struct TableRefModel {
    pub object: ObjectNameModel,
    pub call: bool,
    pub alias: Option<Seq<char>>,
}

impl View for TableRef {
    type V = TableRefModel;

    open spec fn view(&self) -> TableRefModel {
        TableRefModel { object: self.object@, call: self.call, alias: opt_chars_view(self.alias) }
    }
}

/// A `SELECT` statement.
#[derive(Clone, Debug)]
pub struct Select {
    pub top: Option<i64>,
    pub list: SelectList,
    pub from: Option<TableRef>,
    pub filter: Vec<Comparison>,
    pub order_by: Option<ColumnRef>,
}

pub struct SelectModel {
    pub top: Option<i64>,
    pub list: SelectListModel,
    pub from: Option<TableRefModel>,
    pub filter: Seq<ComparisonModel>,
    pub order_by: Option<ColumnRefModel>,
}

pub open spec fn opt_table_view(o: Option<TableRef>) -> Option<TableRefModel> {
    match o {
        None => None,
        Some(t) => Some(t@),
    }
}

pub open spec fn opt_column_view(o: Option<ColumnRef>) -> Option<ColumnRefModel> {
    match o {
        None => None,
        Some(c) => Some(c@),
    }
}

impl View for Select {
    type V = SelectModel;

    open spec fn view(&self) -> SelectModel {
        SelectModel {
            top: self.top,
            list: self.list@,
            from: opt_table_view(self.from),
            filter: filter_view(self.filter@),
            order_by: opt_column_view(self.order_by),
        }
    }
}

/// A column definition of `CREATE TABLE` or `ALTER TABLE`.
#[derive(Clone, Debug)]
pub struct ColumnSpec {
    pub name: Vec<char>,
    pub data_type: crate::types::DataType,
    pub nullable: bool,
    pub primary_key: bool,
    pub default: Option<Expr>,
}

pub struct ColumnSpecModel {
    pub name: Seq<char>,
    pub data_type: crate::types::DataType,
    pub nullable: bool,
    pub primary_key: bool,
    pub default: Option<ExprModel>,
}

pub open spec fn opt_expr_view(o: Option<Expr>) -> Option<ExprModel> {
    match o {
        None => None,
        Some(e) => Some(e@),
    }
}

impl View for ColumnSpec {
    type V = ColumnSpecModel;

    open spec fn view(&self) -> ColumnSpecModel {
        ColumnSpecModel {
            name: self.name@,
            data_type: self.data_type,
            nullable: self.nullable,
            primary_key: self.primary_key,
            default: opt_expr_view(self.default),
        }
    }
}

pub open spec fn column_specs_view(cs: Seq<ColumnSpec>) -> Seq<ColumnSpecModel> {
    cs.map_values(|c: ColumnSpec| c@)
}

/// `column = value` of `UPDATE`.
#[derive(Clone, Debug)]
pub struct Assignment {
    pub column: Vec<char>,
    pub value: Literal,
}

pub struct AssignmentModel {
    pub column: Seq<char>,
    pub value: LiteralModel,
}

impl View for Assignment {
    type V = AssignmentModel;

    open spec fn view(&self) -> AssignmentModel {
        AssignmentModel { column: self.column@, value: self.value@ }
    }
}

pub open spec fn assignments_view(a: Seq<Assignment>) -> Seq<AssignmentModel> {
    a.map_values(|x: Assignment| x@)
}

/// What `ALTER TABLE` does.
#[derive(Clone, Debug)]
pub enum AlterAction {
    AddColumn(ColumnSpec),
    DropColumn(Vec<char>),
    AlterColumn(ColumnSpec),
}

pub enum AlterActionModel {
    AddColumn(ColumnSpecModel),
    DropColumn(Seq<char>),
    AlterColumn(ColumnSpecModel),
}

impl View for AlterAction {
    type V = AlterActionModel;

    open spec fn view(&self) -> AlterActionModel {
        match self {
            AlterAction::AddColumn(c) => AlterActionModel::AddColumn(c@),
            AlterAction::DropColumn(n) => AlterActionModel::DropColumn(n@),
            AlterAction::AlterColumn(c) => AlterActionModel::AlterColumn(c@),
        }
    }
}

/// An argument of `EXEC`: a literal, optionally named `@param = `.
#[derive(Clone, Debug)]
pub struct ExecArg {
    pub name: Option<Vec<char>>,
    pub value: Literal,
}

pub struct ExecArgModel {
    pub name: Option<Seq<char>>,
    pub value: LiteralModel,
}

impl View for ExecArg {
    type V = ExecArgModel;

    open spec fn view(&self) -> ExecArgModel {
        ExecArgModel { name: opt_chars_view(self.name), value: self.value@ }
    }
}

pub open spec fn exec_args_view(args: Seq<ExecArg>) -> Seq<ExecArgModel> {
    args.map_values(|a: ExecArg| a@)
}

pub open spec fn names_view(ws: Seq<Vec<char>>) -> Seq<Seq<char>> {
    ws.map_values(|w: Vec<char>| w@)
}

/// A statement.
#[derive(Clone, Debug)]
pub enum Statement {
    Select(Select),
    SetOption { words: Vec<Vec<char>>, on: bool },
    Exec { procedure: Vec<char>, args: Vec<ExecArg> },
    CreateTable { table: ObjectName, columns: Vec<ColumnSpec> },
    Insert { table: ObjectName, columns: Vec<Vec<char>>, values: Vec<Literal> },
    Update { table: ObjectName, assignments: Vec<Assignment>, filter: Vec<Comparison> },
    Delete { table: ObjectName, filter: Vec<Comparison> },
    AlterTable { table: ObjectName, action: AlterAction },
    BeginTransaction,
    CommitTransaction,
    RollbackTransaction,
}

pub enum StatementModel {
    Select(SelectModel),
    SetOption { words: Seq<Seq<char>>, on: bool },
    Exec { procedure: Seq<char>, args: Seq<ExecArgModel> },
    CreateTable { table: ObjectNameModel, columns: Seq<ColumnSpecModel> },
    Insert { table: ObjectNameModel, columns: Seq<Seq<char>>, values: Seq<LiteralModel> },
    Update { table: ObjectNameModel, assignments: Seq<AssignmentModel>, filter: Seq<ComparisonModel> },
    Delete { table: ObjectNameModel, filter: Seq<ComparisonModel> },
    AlterTable { table: ObjectNameModel, action: AlterActionModel },
    BeginTransaction,
    CommitTransaction,
    RollbackTransaction,
}

impl View for Statement {
    type V = StatementModel;

    open spec fn view(&self) -> StatementModel {
        match self {
            Statement::Select(s) => StatementModel::Select(s@),
            Statement::SetOption { words, on } => StatementModel::SetOption {
                words: names_view(words@),
                on: *on,
            },
            Statement::Exec { procedure, args } => StatementModel::Exec {
                procedure: procedure@,
                args: exec_args_view(args@),
            },
            Statement::CreateTable { table, columns } => StatementModel::CreateTable {
                table: table@,
                columns: column_specs_view(columns@),
            },
            Statement::Insert { table, columns, values } => StatementModel::Insert {
                table: table@,
                columns: names_view(columns@),
                values: literals_view(values@),
            },
            Statement::Update { table, assignments, filter } => StatementModel::Update {
                table: table@,
                assignments: assignments_view(assignments@),
                filter: filter_view(filter@),
            },
            Statement::Delete { table, filter } => StatementModel::Delete {
                table: table@,
                filter: filter_view(filter@),
            },
            Statement::AlterTable { table, action } => StatementModel::AlterTable {
                table: table@,
                action: action@,
            },
            Statement::BeginTransaction => StatementModel::BeginTransaction,
            Statement::CommitTransaction => StatementModel::CommitTransaction,
            Statement::RollbackTransaction => StatementModel::RollbackTransaction,
        }
    }
}

pub open spec fn statements_view(s: Seq<Statement>) -> Seq<StatementModel> {
    s.map_values(|st: Statement| st@)
}

// ---------------------------------------------------------------------------
// Copies
// ---------------------------------------------------------------------------

/// A copy of a literal.
pub fn copy_literal(l: &Literal) -> (r: Literal)
    ensures
        r@ == l@,
{
    match l {
        Literal::Null => Literal::Null,
        Literal::Int(n) => Literal::Int(*n),
        Literal::Str(s) => Literal::Str(copy_chars(s)),
        Literal::NStr(s) => Literal::NStr(copy_chars(s)),
    }
}

/// A copy of an optional name.
pub fn copy_opt_chars(o: &Option<Vec<char>>) -> (r: Option<Vec<char>>)
    ensures
        opt_chars_view(r) == opt_chars_view(*o),
{
    match o {
        None => None,
        Some(v) => Some(copy_chars(v)),
    }
}

/// A copy of a column reference.
pub fn copy_column_ref(c: &ColumnRef) -> (r: ColumnRef)
    ensures
        r@ == c@,
{
    ColumnRef { qualifier: copy_opt_chars(&c.qualifier), name: copy_chars(&c.name) }
}

/// A copy of an operand.
pub fn copy_operand(o: &Operand) -> (r: Operand)
    ensures
        r@ == o@,
{
    match o {
        Operand::Literal(l) => Operand::Literal(copy_literal(l)),
        Operand::Column(c) => Operand::Column(copy_column_ref(c)),
    }
}

/// A copy of an expression.
pub fn copy_expr(e: &Expr) -> (r: Expr)
    ensures
        r@ == e@,
{
    match e {
        Expr::Operand(o) => Expr::Operand(copy_operand(o)),
        Expr::Call(f, args) => {
            let mut out: Vec<Operand> = Vec::new();
            let mut k: usize = 0;
            while k < args.len()
                invariant
                    k <= args@.len(),
                    out@.len() == k,
                    forall|j: int| 0 <= j < k ==> (#[trigger] out@[j])@ == args@[j]@,
                decreases args@.len() - k,
            {
                out.push(copy_operand(&args[k]));
                k = k + 1;
            }
            assert(operands_view(out@) =~= operands_view(args@));
            Expr::Call(copy_chars(f), out)
        },
    }
}

/// A copy of a column definition.
pub fn copy_column_spec(c: &ColumnSpec) -> (r: ColumnSpec)
    ensures
        r@ == c@,
{
    ColumnSpec {
        name: copy_chars(&c.name),
        data_type: c.data_type,
        nullable: c.nullable,
        primary_key: c.primary_key,
        default: match &c.default {
            None => None,
            Some(e) => Some(copy_expr(e)),
        },
    }
}

/// A copy of a list of column definitions.
pub fn copy_column_specs(cs: &Vec<ColumnSpec>) -> (r: Vec<ColumnSpec>)
    ensures
        column_specs_view(r@) == column_specs_view(cs@),
{
    let mut out: Vec<ColumnSpec> = Vec::new();
    let mut k: usize = 0;
    while k < cs.len()
        invariant
            k <= cs@.len(),
            out@.len() == k,
            forall|j: int| 0 <= j < k ==> (#[trigger] out@[j])@ == cs@[j]@,
        decreases cs@.len() - k,
    {
        out.push(copy_column_spec(&cs[k]));
        k = k + 1;
    }
    assert(column_specs_view(out@) =~= column_specs_view(cs@));
    out
}

} // verus!
