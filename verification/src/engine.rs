//! The engine: runs parsed statements against a session.
//!
//! A session holds the `SHOWPLAN_XML` and `STATISTICS XML` options, the
//! database, and the open transaction. While a plan option is on, a `SELECT`
//! is not evaluated: it answers a single row holding an XML plan document
//! instead. `EXEC` runs the describe procedures; a batch handed to
//! `sp_describe_first_result_set` runs in the same session, and the procedure
//! describes the first result set it produces. `BEGIN TRANSACTION` keeps a copy of
//! the database that `ROLLBACK` brings back; transactions nest, and only the
//! outermost `COMMIT` ends one.
//!
//! The statements run at an instant (milliseconds since 1970) that
//! `GETDATE()` and column defaults read: the `_at` methods take it as an
//! argument, the others read the clock once per call.

use vstd::prelude::*;

use crate::ast::{
    names_view, statements_view,
    ExecArg, ExecArgModel, Literal, SelectModel, Statement, StatementModel,
};
use crate::clock::current_millis;
use crate::database::{
    copy_db, db_wf, empty_db, spec_alter_table, spec_create_table, spec_delete, spec_insert,
    spec_update, Database, DatabaseModel,
};
use crate::builtins::text_of;
use crate::describe::{
    args_view, check_describe_args, describe_first_result_set, execute_sp_describe_undeclared_parameters,
    msg_undeclared_missing_arg, spec_describe_args_error, spec_describe_first_result_set,
    undeclared_result,
};
use crate::parser::{
    law_parsed_arguments_shorter_than_batch, literal_fits, parse_batch, spec_parse_batch,
    statement_fits,
};
use crate::text::{word_is, word_matches};
use crate::select::{run_select, spec_select};
use crate::text::string_from_chars;
use crate::types::{
    DataType, DbError, DbErrorModel, QueryResult, QueryResultModel, StmtOutcome, StmtOutcomeModel,
    Value, ValueModel, MAX_LEN,
};

verus! {

/// The options of a session.
#[derive(Clone, Copy, Debug, PartialEq, Eq, Structural)]
pub struct SessionOptions {
    pub showplan_xml: bool,
    pub statistics_xml: bool,
}

// ---------------------------------------------------------------------------
// Specification
// ---------------------------------------------------------------------------

/// The options of a fresh session: every plan option off.
pub open spec fn initial_options() -> SessionOptions {
    SessionOptions { showplan_xml: false, statistics_xml: false }
}

/// `words` name an option spelled `one` or `first second`.
pub open spec fn names_option(
    words: Seq<Seq<char>>,
    one: Seq<char>,
    first: Seq<char>,
    second: Seq<char>,
) -> bool {
    (words.len() == 1 && word_is(words[0], one)) || (words.len() == 2 && word_is(words[0], first)
        && word_is(words[1], second))
}

pub open spec fn msg_unsupported_option() -> Seq<char> {
    "SET option is not supported"@
}

/// `SET words ON|OFF`: `SHOWPLAN_XML` (or `SHOWPLAN XML`) and `STATISTICS XML`
/// (or `STATISTICS_XML`) switch the plan options; `NOCOUNT`, `STATISTICS IO`
/// and `STATISTICS TIME` are accepted and change nothing; any other option
/// is refused.
pub open spec fn spec_set_option(s: SessionOptions, words: Seq<Seq<char>>, on: bool) -> Result<
    SessionOptions,
    DbErrorModel,
> {
    if names_option(words, "SHOWPLAN_XML"@, "SHOWPLAN"@, "XML"@) {
        Ok(SessionOptions { showplan_xml: on, ..s })
    } else if names_option(words, "STATISTICS_XML"@, "STATISTICS"@, "XML"@) {
        Ok(SessionOptions { statistics_xml: on, ..s })
    } else if names_option(words, "NOCOUNT"@, "NOCOUNT"@, "NOCOUNT"@) || names_option(
        words,
        "STATISTICS_IO"@,
        "STATISTICS"@,
        "IO"@,
    ) || names_option(words, "STATISTICS_TIME"@, "STATISTICS"@, "TIME"@) {
        Ok(s)
    } else {
        Err(DbErrorModel::Execution(msg_unsupported_option()))
    }
}

pub open spec fn showplan_document() -> Seq<char> {
    "<ShowPlanXML xmlns=\"http://schemas.microsoft.com/sqlserver/2004/07/showplan\" Version=\"1.564\" Build=\"17.0.1000.7\"><BatchSequence><Batch><Statements><StmtSimple StatementType=\"SELECT\"><QueryPlan/></StmtSimple></Statements></Batch></BatchSequence></ShowPlanXML>"@
}

pub open spec fn statistics_document() -> Seq<char> {
    "<ShowPlanXML xmlns=\"http://schemas.microsoft.com/sqlserver/2004/07/showplan\" Version=\"1.564\" Build=\"17.0.1000.7\"><BatchSequence><Batch><Statements><StmtSimple StatementType=\"SELECT\"><QueryPlan><RunTimeInformation><RunTimeCountersPerThread Thread=\"0\" ActualRows=\"1\" ActualExecutions=\"1\"/></RunTimeInformation></QueryPlan></StmtSimple></Statements></Batch></BatchSequence></ShowPlanXML>"@
}

/// A one-row, one-column result holding an XML plan document.
pub open spec fn plan_result(column: Seq<char>, document: Seq<char>) -> QueryResultModel {
    QueryResultModel {
        columns: seq![column],
        column_types: seq![DataType::NVarChar { max_len: MAX_LEN }],
        column_nullabilities: seq![true],
        rows: seq![seq![ValueModel::NVarChar(document)]],
    }
}

/// What a `SELECT` answers in place of its rows under the session's plan
/// options; `SHOWPLAN_XML` comes before `STATISTICS XML`.
pub open spec fn spec_plan_interception(s: SessionOptions) -> Option<QueryResultModel> {
    if s.showplan_xml {
        Some(plan_result("Microsoft SQL Server 2005 XML Showplan"@, showplan_document()))
    } else if s.statistics_xml {
        Some(plan_result("Microsoft SQL Server 2005 XML Statistics"@, statistics_document()))
    } else {
        None
    }
}

/// The texts of `EXEC` arguments; `None` when one of them is not text.
pub open spec fn arg_texts(args: Seq<ExecArgModel>) -> Option<Seq<Seq<char>>>
    decreases args.len(),
{
    if args.len() == 0 {
        Some(seq![])
    } else {
        match (arg_texts(args.drop_last()), text_of(args.last().value)) {
            (Some(ts), Some(t)) => Some(ts.push(t)),
            _ => None,
        }
    }
}

pub open spec fn msg_tsql_type() -> Seq<char> {
    "Procedure expects parameter '@tsql' of type 'nvarchar(max)'."@
}

pub open spec fn msg_unknown_procedure(name: Seq<char>) -> Seq<char> {
    "Could not find stored procedure '"@ + name + "'."@
}

/// One more than the length of the first argument of an `EXEC` where that
/// argument is text, else 0: it bounds the batch that
/// `sp_describe_first_result_set` runs for the statement, so that running
/// nested batches ends.
pub open spec fn describe_size(st: StatementModel) -> nat {
    match st {
        StatementModel::Exec { args, .. } => if args.len() > 0 && text_of(args[0].value) is Some {
            text_of(args[0].value)->0.len() + 1
        } else {
            0
        },
        _ => 0,
    }
}

/// The largest `describe_size` of the statements.
pub open spec fn batch_size(stmts: Seq<StatementModel>) -> nat
    decreases stmts.len(),
{
    if stmts.len() == 0 {
        0
    } else if describe_size(stmts[0]) >= batch_size(stmts.drop_first()) {
        describe_size(stmts[0])
    } else {
        batch_size(stmts.drop_first())
    }
}

/// The answer of a batch so far, `acc`, after a statement answered `o`: the
/// first result set produced when `keep_first`, else the last.
pub open spec fn pick_answer(
    keep_first: bool,
    acc: Option<QueryResultModel>,
    o: Option<QueryResultModel>,
) -> Option<QueryResultModel> {
    if o is None || (keep_first && acc is Some) {
        acc
    } else {
        o
    }
}

/// The outcome of a batch as the describe procedure reads it.
pub open spec fn batch_outcome(r: Result<Option<QueryResultModel>, DbErrorModel>) -> Result<
    StmtOutcomeModel,
    DbErrorModel,
> {
    match r {
        Ok(o) => Ok(StmtOutcomeModel::Completed(o)),
        Err(e) => Err(e),
    }
}

pub open spec fn some_result(r: Result<QueryResultModel, DbErrorModel>) -> Result<
    Option<QueryResultModel>,
    DbErrorModel,
> {
    match r {
        Ok(q) => Ok(Some(q)),
        Err(e) => Err(e),
    }
}

/// The state of a session: its options, its database, the copy of the
/// database that `BEGIN TRANSACTION` kept, and the number of open
/// transactions.
pub struct EngineState {
    pub options: SessionOptions,
    pub db: DatabaseModel,
    pub saved: DatabaseModel,
    pub tran_count: u32,
}

/// A fresh session: every option off, no table, no open transaction.
pub open spec fn initial_state() -> EngineState {
    EngineState {
        options: initial_options(),
        db: empty_db(),
        saved: empty_db(),
        tran_count: 0,
    }
}

pub open spec fn msg_commit_without_begin() -> Seq<char> {
    "The COMMIT TRANSACTION request has no corresponding BEGIN TRANSACTION."@
}

pub open spec fn msg_rollback_without_begin() -> Seq<char> {
    "The ROLLBACK TRANSACTION request has no corresponding BEGIN TRANSACTION."@
}

pub open spec fn msg_tran_limit() -> Seq<char> {
    "Too many nested transactions."@
}

/// The session after a statement that changes the database, and its answer.
pub open spec fn db_step(s: EngineState, r: Result<DatabaseModel, DbErrorModel>) -> (
    EngineState,
    Result<Option<QueryResultModel>, DbErrorModel>,
) {
    match r {
        Ok(db) => (EngineState { db, ..s }, Ok(None)),
        Err(e) => (s, Err(e)),
    }
}

/// The session after a statement run at the instant `now`, and what the
/// statement answered.
pub open spec fn spec_execute(s: EngineState, now: i64, st: StatementModel) -> (
    EngineState,
    Result<Option<QueryResultModel>, DbErrorModel>,
)
    decreases describe_size(st), 0nat, 0nat,
{
    match st {
        StatementModel::Select(sel) => match spec_plan_interception(s.options) {
            Some(x) => (s, Ok(Some(x))),
            None => (s, some_result(spec_select(s.db, now, sel))),
        },
        StatementModel::SetOption { words, on } => match spec_set_option(s.options, words, on) {
            Ok(o) => (EngineState { options: o, ..s }, Ok(None)),
            Err(e) => (s, Err(e)),
        },
        StatementModel::Exec { procedure, args } => if word_is(
            procedure,
            "SP_DESCRIBE_FIRST_RESULT_SET"@,
        ) {
            match arg_texts(args) {
                None => (s, Err(DbErrorModel::Execution(msg_tsql_type()))),
                Some(texts) => match spec_describe_args_error(texts) {
                    Some(e) => (s, Err(e)),
                    None => {
                        proof {
                            lemma_arg_texts_are_texts(args);
                        }
                        let (s2, out) = spec_run_text(s, now, texts[0], true);
                        (s2, some_result(spec_describe_first_result_set(batch_outcome(out))))
                    },
                },
            }
        } else if word_is(procedure, "SP_DESCRIBE_UNDECLARED_PARAMETERS"@) {
            match arg_texts(args) {
                None => (s, Err(DbErrorModel::Execution(msg_tsql_type()))),
                Some(texts) => if texts.len() == 0 {
                    (s, Err(DbErrorModel::Execution(msg_undeclared_missing_arg())))
                } else {
                    (s, Ok(Some(undeclared_result())))
                },
            }
        } else {
            (s, Err(DbErrorModel::Execution(msg_unknown_procedure(procedure))))
        },
        StatementModel::CreateTable { table, columns } => db_step(
            s,
            spec_create_table(s.db, table, columns),
        ),
        StatementModel::Insert { table, columns, values } => db_step(
            s,
            spec_insert(s.db, now, table, columns, values),
        ),
        StatementModel::Update { table, assignments, filter } => db_step(
            s,
            spec_update(s.db, now, table, assignments, filter),
        ),
        StatementModel::Delete { table, filter } => db_step(s, spec_delete(s.db, now, table, filter)),
        StatementModel::AlterTable { table, action } => db_step(
            s,
            spec_alter_table(s.db, now, table, action),
        ),
        StatementModel::BeginTransaction => if s.tran_count == u32::MAX {
            (s, Err(DbErrorModel::Execution(msg_tran_limit())))
        } else {
            (
                EngineState {
                    saved: if s.tran_count == 0 {
                        s.db
                    } else {
                        s.saved
                    },
                    tran_count: (s.tran_count + 1) as u32,
                    ..s
                },
                Ok(None),
            )
        },
        StatementModel::CommitTransaction => if s.tran_count == 0 {
            (s, Err(DbErrorModel::Execution(msg_commit_without_begin())))
        } else {
            (EngineState { tran_count: (s.tran_count - 1) as u32, ..s }, Ok(None))
        },
        StatementModel::RollbackTransaction => if s.tran_count == 0 {
            (s, Err(DbErrorModel::Execution(msg_rollback_without_begin())))
        } else {
            (EngineState { db: s.saved, tran_count: 0, ..s }, Ok(None))
        },
    }
}

/// Runs statements in order, stopping at the first error, from the answer
/// `acc`. A batch answers the last result set any of its statements
/// produced, or the first when `keep_first`.
pub open spec fn spec_run_statements(
    s: EngineState,
    now: i64,
    stmts: Seq<StatementModel>,
    keep_first: bool,
    acc: Option<QueryResultModel>,
) -> (EngineState, Result<Option<QueryResultModel>, DbErrorModel>)
    decreases batch_size(stmts), 1nat, stmts.len(),
{
    if stmts.len() == 0 {
        (s, Ok(acc))
    } else {
        let (s2, r) = spec_execute(s, now, stmts[0]);
        match r {
            Err(e) => (s2, Err(e)),
            Ok(o) => spec_run_statements(
                s2,
                now,
                stmts.drop_first(),
                keep_first,
                pick_answer(keep_first, acc, o),
            ),
        }
    }
}

/// Parses and runs a batch text; it answers the last result set produced, or
/// the first when `keep_first`.
pub open spec fn spec_run_text(s: EngineState, now: i64, sql: Seq<char>, keep_first: bool) -> (
    EngineState,
    Result<Option<QueryResultModel>, DbErrorModel>,
)
    decreases sql.len(), 2nat, 0nat,
{
    match spec_parse_batch(sql) {
        Err(e) => (s, Err(e)),
        Ok(stmts) => {
            proof {
                lemma_parsed_batch_size(sql);
            }
            spec_run_statements(s, now, stmts, keep_first, None)
        },
    }
}

/// The model of what a statement or batch answered.
pub open spec fn answer_view(r: Result<Option<QueryResult>, DbError>) -> Result<
    Option<QueryResultModel>,
    DbErrorModel,
> {
    match r {
        Ok(Some(q)) => Ok(Some(q@)),
        Ok(None) => Ok(None),
        Err(e) => Err(e@),
    }
}

// ---------------------------------------------------------------------------
// Implementation
// ---------------------------------------------------------------------------

/// A session of the engine.
pub struct Engine {
    options: SessionOptions,
    db: Database,
    saved: Database,
    tran_count: u32,
}

impl View for Engine {
    type V = EngineState;

    closed spec fn view(&self) -> EngineState {
        EngineState {
            options: self.options,
            db: self.db@,
            saved: self.saved@,
            tran_count: self.tran_count,
        }
    }
}

impl Engine {
    /// Both databases of a session are well formed.
    #[verifier::type_invariant]
    spec fn engine_wf(self) -> bool {
        db_wf(self.db@) && db_wf(self.saved@)
    }
}

fn names_option_exec(words: &Vec<Vec<char>>, one: &str, first: &str, second: &str) -> (b: bool)
    ensures
        b == names_option(names_view(words@), one@, first@, second@),
{
    (words.len() == 1 && word_matches(&words[0], one)) || (words.len() == 2 && word_matches(
        &words[0],
        first,
    ) && word_matches(&words[1], second))
}

fn set_option(s: SessionOptions, words: &Vec<Vec<char>>, on: bool) -> (r: Result<
    SessionOptions,
    DbError,
>)
    ensures
        match r {
            Ok(s2) => spec_set_option(s, names_view(words@), on) == Ok::<
                SessionOptions,
                DbErrorModel,
            >(s2),
            Err(e) => spec_set_option(s, names_view(words@), on) == Err::<
                SessionOptions,
                DbErrorModel,
            >(e@),
        },
{
    if names_option_exec(words, "SHOWPLAN_XML", "SHOWPLAN", "XML") {
        Ok(SessionOptions { showplan_xml: on, ..s })
    } else if names_option_exec(words, "STATISTICS_XML", "STATISTICS", "XML") {
        Ok(SessionOptions { statistics_xml: on, ..s })
    } else if names_option_exec(words, "NOCOUNT", "NOCOUNT", "NOCOUNT") || names_option_exec(
        words,
        "STATISTICS_IO",
        "STATISTICS",
        "IO",
    ) || names_option_exec(words, "STATISTICS_TIME", "STATISTICS", "TIME") {
        Ok(s)
    } else {
        Err(DbError::Execution(String::from_str("SET option is not supported")))
    }
}

fn plan_result_exec(column: &str, document: &str) -> (r: QueryResult)
    ensures
        r@ == plan_result(column@, document@),
{
    let r = QueryResult {
        columns: vec![String::from_str(column)],
        column_types: vec![DataType::NVarChar { max_len: MAX_LEN }],
        column_nullabilities: vec![true],
        rows: vec![vec![Value::NVarChar(String::from_str(document))]],
    };
    assert(r@.columns =~= plan_result(column@, document@).columns);
    assert(r@.column_types =~= plan_result(column@, document@).column_types);
    assert(r@.column_nullabilities =~= plan_result(column@, document@).column_nullabilities);
    assert(r@.rows =~~= plan_result(column@, document@).rows);
    r
}

fn plan_interception(s: SessionOptions) -> (r: Option<QueryResult>)
    ensures
        match r {
            None => spec_plan_interception(s) is None,
            Some(q) => spec_plan_interception(s) == Some(q@),
        },
{
    if s.showplan_xml {
        Some(
            plan_result_exec(
                "Microsoft SQL Server 2005 XML Showplan",
                "<ShowPlanXML xmlns=\"http://schemas.microsoft.com/sqlserver/2004/07/showplan\" Version=\"1.564\" Build=\"17.0.1000.7\"><BatchSequence><Batch><Statements><StmtSimple StatementType=\"SELECT\"><QueryPlan/></StmtSimple></Statements></Batch></BatchSequence></ShowPlanXML>",
            ),
        )
    } else if s.statistics_xml {
        Some(
            plan_result_exec(
                "Microsoft SQL Server 2005 XML Statistics",
                "<ShowPlanXML xmlns=\"http://schemas.microsoft.com/sqlserver/2004/07/showplan\" Version=\"1.564\" Build=\"17.0.1000.7\"><BatchSequence><Batch><Statements><StmtSimple StatementType=\"SELECT\"><QueryPlan><RunTimeInformation><RunTimeCountersPerThread Thread=\"0\" ActualRows=\"1\" ActualExecutions=\"1\"/></RunTimeInformation></QueryPlan></StmtSimple></Statements></Batch></BatchSequence></ShowPlanXML>",
            ),
        )
    } else {
        None
    }
}

fn exec_arg_texts(args: &Vec<ExecArg>) -> (r: Option<Vec<String>>)
    ensures
        match r {
            None => arg_texts(crate::ast::exec_args_view(args@)) is None,
            Some(ts) => arg_texts(crate::ast::exec_args_view(args@)) == Some(args_view(ts@)),
        },
{
    let ghost av = crate::ast::exec_args_view(args@);
    let mut out: Vec<String> = Vec::new();
    let mut k: usize = 0;
    assert(av.take(0) =~= Seq::<ExecArgModel>::empty());
    assert(args_view(out@) =~= Seq::<Seq<char>>::empty());
    while k < args.len()
        invariant
            k <= args@.len(),
            av == crate::ast::exec_args_view(args@),
            arg_texts(av.take(k as int)) == Some(args_view(out@)),
        decreases args@.len() - k,
    {
        assert(av.take(k + 1).drop_last() =~= av.take(k as int));
        match &args[k].value {
            Literal::Str(t) => {
                let ghost before = out@;
                out.push(string_from_chars(t.as_slice()));
                assert(args_view(out@) =~= args_view(before).push(t@));
            },
            Literal::NStr(t) => {
                let ghost before = out@;
                out.push(string_from_chars(t.as_slice()));
                assert(args_view(out@) =~= args_view(before).push(t@));
            },
            _ => {
                proof {
                    lemma_arg_texts_none_extends(av, k as int + 1);
                }
                return None;
            },
        }
        k = k + 1;
    }
    assert(av.take(args@.len() as int) =~= av);
    Some(out)
}

proof fn lemma_arg_texts_none_extends(args: Seq<ExecArgModel>, k: int)
    requires
        0 <= k <= args.len(),
        arg_texts(args.take(k)) is None,
    ensures
        arg_texts(args) is None,
    decreases args.len() - k,
{
    if k < args.len() {
        assert(args.take(k + 1).drop_last() =~= args.take(k));
        lemma_arg_texts_none_extends(args, k + 1);
    } else {
        assert(args.take(k) =~= args);
    }
}

/// The texts of the arguments are those of each argument in turn.
pub proof fn lemma_arg_texts_are_texts(args: Seq<ExecArgModel>)
    ensures
        arg_texts(args) matches Some(ts) ==> ts.len() == args.len() && forall|k: int|
            0 <= k < args.len() ==> text_of(args[k].value) == Some(#[trigger] ts[k]),
    decreases args.len(),
{
    if args.len() > 0 {
        let init = args.drop_last();
        lemma_arg_texts_are_texts(init);
        if let Some(ts) = arg_texts(args) {
            let t0 = arg_texts(init)->0;
            assert(ts == t0.push(text_of(args.last().value)->0));
            assert forall|k: int| 0 <= k < args.len() implies text_of(args[k].value) == Some(
                #[trigger] ts[k],
            ) by {
                if k < args.len() - 1 {
                    assert(init[k] == args[k]);
                }
            }
        }
    }
}

proof fn lemma_batch_size_fits(stmts: Seq<StatementModel>, n: nat)
    requires
        forall|k: int| 0 <= k < stmts.len() ==> statement_fits(#[trigger] stmts[k], n),
    ensures
        batch_size(stmts) <= n,
    decreases stmts.len(),
{
    if stmts.len() > 0 {
        let rest = stmts.drop_first();
        assert forall|k: int| 0 <= k < rest.len() implies statement_fits(#[trigger] rest[k], n) by {
            assert(rest[k] == stmts[k + 1]);
        }
        lemma_batch_size_fits(rest, n);
        assert(statement_fits(stmts[0], n));
        if let StatementModel::Exec { args, .. } = stmts[0] {
            if args.len() > 0 {
                assert(literal_fits(args[0].value, n));
            }
        }
    }
}

/// A parsed batch runs only batches shorter than its text.
pub proof fn lemma_parsed_batch_size(sql: Seq<char>)
    requires
        spec_parse_batch(sql) is Ok,
    ensures
        batch_size(spec_parse_batch(sql)->Ok_0) <= sql.len(),
{
    law_parsed_arguments_shorter_than_batch(sql);
    lemma_batch_size_fits(spec_parse_batch(sql)->Ok_0, sql.len());
}

/// No statement of a batch is larger than the batch.
proof fn lemma_batch_size_bounds(stmts: Seq<StatementModel>, k: int)
    requires
        0 <= k < stmts.len(),
    ensures
        describe_size(stmts[k]) <= batch_size(stmts),
    decreases stmts.len(),
{
    if k > 0 {
        lemma_batch_size_bounds(stmts.drop_first(), k - 1);
        assert(stmts.drop_first()[k - 1] == stmts[k]);
    }
}

fn unknown_procedure(name: &Vec<char>) -> (e: DbError)
    ensures
        e@ == DbErrorModel::Execution(msg_unknown_procedure(name@)),
{
    let mut s = String::from_str("Could not find stored procedure '");
    let n = string_from_chars(name.as_slice());
    s.append(n.as_str());
    s.append("'.");
    DbError::Execution(s)
}

fn to_outcome(r: Result<Option<QueryResult>, DbError>) -> (o: Result<StmtOutcome, DbError>)
    ensures
        crate::describe::batch_view(o) == batch_outcome(answer_view(r)),
{
    match r {
        Ok(q) => Ok(StmtOutcome::Completed(q)),
        Err(e) => Err(e),
    }
}

impl Engine {
    /// A fresh session.
    pub fn new() -> (e: Engine)
        ensures
            e@ == initial_state(),
            db_wf(e@.db),
    {
        Engine {
            options: SessionOptions { showplan_xml: false, statistics_xml: false },
            db: Database::new(),
            saved: Database::new(),
            tran_count: 0,
        }
    }

    /// The session's options.
    pub fn options(&self) -> (o: SessionOptions)
        ensures
            o == self@.options,
    {
        self.options
    }

    /// The number of open transactions.
    pub fn tran_count(&self) -> (n: u32)
        ensures
            n == self@.tran_count,
    {
        self.tran_count
    }

    fn execute_stmt(&mut self, stmt: &Statement, now: i64) -> (r: Result<
        Option<QueryResult>,
        DbError,
    >)
        ensures
            (final(self)@, answer_view(r)) == spec_execute(old(self)@, now, stmt@),
        decreases describe_size(stmt@), 0nat, 0nat,
    {
        proof {
            use_type_invariant(&*self);
        }
        match stmt {
            Statement::Select(sel) => match plan_interception(self.options) {
                Some(x) => Ok(Some(x)),
                None => match run_select(&self.db, now, sel) {
                    Ok(q) => Ok(Some(q)),
                    Err(e) => Err(e),
                },
            },
            Statement::SetOption { words, on } => match set_option(self.options, words, *on) {
                Ok(s2) => {
                    self.options = s2;
                    Ok(None)
                },
                Err(e) => Err(e),
            },
            Statement::Exec { procedure, args } => {
                if word_matches(procedure, "SP_DESCRIBE_FIRST_RESULT_SET") {
                    match exec_arg_texts(args) {
                        None => Err(
                            DbError::Execution(
                                String::from_str(
                                    "Procedure expects parameter '@tsql' of type 'nvarchar(max)'.",
                                ),
                            ),
                        ),
                        Some(texts) => match check_describe_args(texts.as_slice()) {
                            Err(e) => Err(e),
                            Ok(()) => {
                                proof {
                                    lemma_arg_texts_are_texts(crate::ast::exec_args_view(args@));
                                    assert(args_view(texts@)[0] == texts@[0]@);
                                }
                                let out = self.run_text(texts[0].as_str(), now, true);
                                match describe_first_result_set(to_outcome(out)) {
                                    Ok(q) => Ok(Some(q)),
                                    Err(e) => Err(e),
                                }
                            },
                        },
                    }
                } else if word_matches(procedure, "SP_DESCRIBE_UNDECLARED_PARAMETERS") {
                    match exec_arg_texts(args) {
                        None => Err(
                            DbError::Execution(
                                String::from_str(
                                    "Procedure expects parameter '@tsql' of type 'nvarchar(max)'.",
                                ),
                            ),
                        ),
                        Some(texts) => match execute_sp_describe_undeclared_parameters(
                            texts.as_slice(),
                        ) {
                            Ok(q) => Ok(Some(q)),
                            Err(e) => Err(e),
                        },
                    }
                } else {
                    Err(unknown_procedure(procedure))
                }
            },
            Statement::CreateTable { table, columns } => {
                let mut db = Database::new();
                std::mem::swap(&mut db, &mut self.db);
                let r = db.create_table(table, columns);
                self.db = db;
                match r {
                    Ok(()) => Ok(None),
                    Err(e) => Err(e),
                }
            },
            Statement::Insert { table, columns, values } => {
                let mut db = Database::new();
                std::mem::swap(&mut db, &mut self.db);
                let r = db.insert(now, table, columns, values);
                self.db = db;
                match r {
                    Ok(()) => Ok(None),
                    Err(e) => Err(e),
                }
            },
            Statement::Update { table, assignments, filter } => {
                let mut db = Database::new();
                std::mem::swap(&mut db, &mut self.db);
                let r = db.update(now, table, assignments, filter);
                self.db = db;
                match r {
                    Ok(()) => Ok(None),
                    Err(e) => Err(e),
                }
            },
            Statement::Delete { table, filter } => {
                let mut db = Database::new();
                std::mem::swap(&mut db, &mut self.db);
                let r = db.delete(now, table, filter);
                self.db = db;
                match r {
                    Ok(()) => Ok(None),
                    Err(e) => Err(e),
                }
            },
            Statement::AlterTable { table, action } => {
                let mut db = Database::new();
                std::mem::swap(&mut db, &mut self.db);
                let r = db.alter_table(now, table, action);
                self.db = db;
                match r {
                    Ok(()) => Ok(None),
                    Err(e) => Err(e),
                }
            },
            Statement::BeginTransaction => {
                if self.tran_count == 4294967295 {
                    Err(DbError::Execution(String::from_str("Too many nested transactions.")))
                } else {
                    if self.tran_count == 0 {
                        self.saved = copy_db(&self.db);
                    }
                    self.tran_count = self.tran_count + 1;
                    Ok(None)
                }
            },
            Statement::CommitTransaction => {
                if self.tran_count == 0 {
                    Err(
                        DbError::Execution(
                            String::from_str(
                                "The COMMIT TRANSACTION request has no corresponding BEGIN TRANSACTION.",
                            ),
                        ),
                    )
                } else {
                    self.tran_count = self.tran_count - 1;
                    Ok(None)
                }
            },
            Statement::RollbackTransaction => {
                if self.tran_count == 0 {
                    Err(
                        DbError::Execution(
                            String::from_str(
                                "The ROLLBACK TRANSACTION request has no corresponding BEGIN TRANSACTION.",
                            ),
                        ),
                    )
                } else {
                    self.db = copy_db(&self.saved);
                    self.tran_count = 0;
                    Ok(None)
                }
            },
        }
    }

    fn run_statements(&mut self, stmts: &Vec<Statement>, now: i64, keep_first: bool) -> (r: Result<
        Option<QueryResult>,
        DbError,
    >)
        ensures
            (final(self)@, answer_view(r)) == spec_run_statements(
                old(self)@,
                now,
                statements_view(stmts@),
                keep_first,
                None,
            ),
        decreases batch_size(statements_view(stmts@)), 1nat, stmts@.len(),
    {
        let mut acc: Option<QueryResult> = None;
        let mut k: usize = 0;
        let ghost sv = statements_view(stmts@);
        assert(sv.skip(0) =~= sv);
        while k < stmts.len()
            invariant
                k <= stmts@.len(),
                sv == statements_view(stmts@),
                spec_run_statements(old(self)@, now, sv, keep_first, None) == spec_run_statements(
                    self@,
                    now,
                    sv.skip(k as int),
                    keep_first,
                    match acc {
                        Some(q) => Some(q@),
                        None => None,
                    },
                ),
            decreases stmts@.len() - k,
        {
            let ghost rest = sv.skip(k as int);
            assert(rest[0] == stmts@[k as int]@);
            assert(rest.drop_first() =~= sv.skip(k + 1));
            proof {
                lemma_batch_size_bounds(sv, k as int);
            }
            let r = self.execute_stmt(&stmts[k], now);
            match r {
                Err(e) => {
                    return Err(e);
                },
                Ok(o) => {
                    if o.is_some() && !(keep_first && acc.is_some()) {
                        acc = o;
                    }
                },
            }
            k = k + 1;
        }
        assert(sv.skip(stmts@.len() as int) =~= Seq::<StatementModel>::empty());
        Ok(acc)
    }

    fn run_text(&mut self, sql: &str, now: i64, keep_first: bool) -> (r: Result<
        Option<QueryResult>,
        DbError,
    >)
        ensures
            (final(self)@, answer_view(r)) == spec_run_text(old(self)@, now, sql@, keep_first),
        decreases sql@.len(), 2nat, 0nat,
    {
        match parse_batch(sql) {
            Err(e) => Err(e),
            Ok(stmts) => {
                proof {
                    lemma_parsed_batch_size(sql@);
                }
                self.run_statements(&stmts, now, keep_first)
            },
        }
    }

    /// Runs one statement at the instant `now`.
    pub fn execute_at(&mut self, stmt: Statement, now: i64) -> (r: Result<Option<QueryResult>, DbError>)
        ensures
            (final(self)@, answer_view(r)) == spec_execute(old(self)@, now, stmt@),
            db_wf(final(self)@.db),
            db_wf(final(self)@.saved),
    {
        let r = self.execute_stmt(&stmt, now);
        proof {
            use_type_invariant(&*self);
        }
        r
    }

    /// Runs one statement at the time the clock reads.
    pub fn execute(&mut self, stmt: Statement) -> (r: Result<Option<QueryResult>, DbError>)
        ensures
            exists|now: i64|
                (final(self)@, answer_view(r)) == spec_execute(old(self)@, now, stmt@),
            db_wf(final(self)@.db),
            db_wf(final(self)@.saved),
    {
        let now = current_millis();
        self.execute_at(stmt, now)
    }

    /// Runs parsed statements in order at the instant `now`; answers the last
    /// result set produced.
    pub fn execute_batch_at(&mut self, stmts: Vec<Statement>, now: i64) -> (r: Result<
        Option<QueryResult>,
        DbError,
    >)
        ensures
            (final(self)@, answer_view(r)) == spec_run_statements(
                old(self)@,
                now,
                statements_view(stmts@),
                false,
                None,
            ),
            db_wf(final(self)@.db),
            db_wf(final(self)@.saved),
    {
        let r = self.run_statements(&stmts, now, false);
        proof {
            use_type_invariant(&*self);
        }
        r
    }

    /// Runs parsed statements in order at the time the clock reads; answers
    /// the last result set produced.
    pub fn execute_batch(&mut self, stmts: Vec<Statement>) -> (r: Result<Option<QueryResult>, DbError>)
        ensures
            exists|now: i64|
                (final(self)@, answer_view(r)) == spec_run_statements(
                    old(self)@,
                    now,
                    statements_view(stmts@),
                    false,
                    None,
                ),
            db_wf(final(self)@.db),
            db_wf(final(self)@.saved),
    {
        let now = current_millis();
        self.execute_batch_at(stmts, now)
    }

    /// Parses and runs a batch text at the instant `now`.
    pub fn execute_sql_at(&mut self, sql: &str, now: i64) -> (r: Result<Option<QueryResult>, DbError>)
        ensures
            (final(self)@, answer_view(r)) == spec_run_text(old(self)@, now, sql@, false),
            db_wf(final(self)@.db),
            db_wf(final(self)@.saved),
    {
        let r = self.run_text(sql, now, false);
        proof {
            use_type_invariant(&*self);
        }
        r
    }

    /// Parses and runs a batch text at the time the clock reads.
    pub fn execute_sql(&mut self, sql: &str) -> (r: Result<Option<QueryResult>, DbError>)
        ensures
            exists|now: i64|
                (final(self)@, answer_view(r)) == spec_run_text(old(self)@, now, sql@, false),
            db_wf(final(self)@.db),
            db_wf(final(self)@.saved),
    {
        let now = current_millis();
        self.execute_sql_at(sql, now)
    }
}

// ---------------------------------------------------------------------------
// Laws
// ---------------------------------------------------------------------------

/// While `SHOWPLAN_XML` is on, every `SELECT` answers the single-row XML
/// showplan instead of its rows, and changes nothing.
pub proof fn law_showplan_intercepts_select(s: EngineState, now: i64, sel: SelectModel)
    requires
        s.options.showplan_xml,
    ensures
        spec_execute(s, now, StatementModel::Select(sel)) == (
            s,
            Ok::<Option<QueryResultModel>, DbErrorModel>(
                Some(plan_result("Microsoft SQL Server 2005 XML Showplan"@, showplan_document())),
            ),
        ),
{
}

/// While `STATISTICS XML` is on (and `SHOWPLAN_XML` off), every `SELECT`
/// answers the single-row XML plan with run-time information.
pub proof fn law_statistics_xml_intercepts_select(s: EngineState, now: i64, sel: SelectModel)
    requires
        !s.options.showplan_xml,
        s.options.statistics_xml,
    ensures
        spec_execute(s, now, StatementModel::Select(sel)) == (
            s,
            Ok::<Option<QueryResultModel>, DbErrorModel>(
                Some(
                    plan_result("Microsoft SQL Server 2005 XML Statistics"@, statistics_document()),
                ),
            ),
        ),
{
}

/// With both plan options off, a `SELECT` answers its own result and changes
/// nothing.
pub proof fn law_select_evaluates_without_plan_options(s: EngineState, now: i64, sel: SelectModel)
    requires
        !s.options.showplan_xml,
        !s.options.statistics_xml,
    ensures
        spec_execute(s, now, StatementModel::Select(sel)) == (
            s,
            some_result(spec_select(s.db, now, sel)),
        ),
{
}

/// In one batch, `SET SHOWPLAN_XML ON` (in either spelling) followed by a
/// `SELECT` answers the XML showplan, whatever the `SELECT` reads.
pub proof fn law_set_showplan_then_select(
    s: EngineState,
    now: i64,
    words: Seq<Seq<char>>,
    sel: SelectModel,
)
    requires
        names_option(words, "SHOWPLAN_XML"@, "SHOWPLAN"@, "XML"@),
    ensures
        spec_run_statements(
            s,
            now,
            seq![StatementModel::SetOption { words, on: true }, StatementModel::Select(sel)],
            false,
            None,
        ).1 == Ok::<Option<QueryResultModel>, DbErrorModel>(
            Some(plan_result("Microsoft SQL Server 2005 XML Showplan"@, showplan_document())),
        ),
{
    let stmts = seq![StatementModel::SetOption { words, on: true }, StatementModel::Select(sel)];
    let s2 = EngineState { options: SessionOptions { showplan_xml: true, ..s.options }, ..s };
    let plan = plan_result("Microsoft SQL Server 2005 XML Showplan"@, showplan_document());
    let rest = stmts.drop_first();
    assert(spec_execute(s, now, stmts[0]) == (
        s2,
        Ok::<Option<QueryResultModel>, DbErrorModel>(None),
    ));
    assert(rest =~= seq![StatementModel::Select(sel)]);
    law_showplan_intercepts_select(s2, now, sel);
    assert(rest.drop_first() =~= Seq::<StatementModel>::empty());
    assert(spec_run_statements(s2, now, rest, false, None) == spec_run_statements(
        s2,
        now,
        rest.drop_first(),
        false,
        Some(plan),
    ));
}

/// Setting a plan option twice leaves the value of the second setting: the
/// last `SET` wins.
pub proof fn law_last_set_wins(s: SessionOptions, words: Seq<Seq<char>>, a: bool, b: bool)
    requires
        names_option(words, "SHOWPLAN_XML"@, "SHOWPLAN"@, "XML"@) || names_option(
            words,
            "STATISTICS_XML"@,
            "STATISTICS"@,
            "XML"@,
        ),
    ensures
        spec_set_option(s, words, a) matches Ok(s1) && spec_set_option(s1, words, b)
            == spec_set_option(s, words, b),
{
}

/// A statement that fails (other than `EXEC`, whose batch may have run in
/// part) leaves the session as it was: options, database and transaction.
pub proof fn law_failure_keeps_session(s: EngineState, now: i64, st: StatementModel)
    requires
        !(st is Exec),
        spec_execute(s, now, st).1 is Err,
    ensures
        spec_execute(s, now, st).0 == s,
{
}

/// A batch that does not parse is refused as a whole: none of it runs and
/// the session is left as it was.
pub proof fn law_unparsable_batch_refused(s: EngineState, now: i64, sql: Seq<char>, keep_first: bool)
    requires
        spec_parse_batch(sql) is Err,
    ensures
        spec_run_text(s, now, sql, keep_first) == (
            s,
            Err::<Option<QueryResultModel>, DbErrorModel>(spec_parse_batch(sql)->Err_0),
        ),
{
}

/// `EXEC` of any procedure other than the two describe procedures fails
/// and changes nothing.
pub proof fn law_unknown_procedure_refused(
    s: EngineState,
    now: i64,
    procedure: Seq<char>,
    args: Seq<ExecArgModel>,
)
    requires
        !word_is(procedure, "SP_DESCRIBE_FIRST_RESULT_SET"@),
        !word_is(procedure, "SP_DESCRIBE_UNDECLARED_PARAMETERS"@),
    ensures
        spec_execute(s, now, StatementModel::Exec { procedure, args }) == (
            s,
            Err::<Option<QueryResultModel>, DbErrorModel>(
                DbErrorModel::Execution(msg_unknown_procedure(procedure)),
            ),
        ),
{
}

/// The describe procedures read their first argument alone: with text
/// arguments, `EXEC` with all of them and `EXEC` with the first one only
/// leave the same session and give the same answer.
pub proof fn law_describe_reads_only_first_argument(
    s: EngineState,
    now: i64,
    procedure: Seq<char>,
    args: Seq<ExecArgModel>,
)
    requires
        args.len() >= 1,
        arg_texts(args) is Some,
    ensures
        spec_execute(s, now, StatementModel::Exec { procedure, args }) == spec_execute(
            s,
            now,
            StatementModel::Exec { procedure, args: args.take(1) },
        ),
{
    lemma_arg_texts_are_texts(args);
    let texts = arg_texts(args)->0;
    let first = args.take(1);
    assert(first.drop_last() =~= Seq::<ExecArgModel>::empty());
    assert(first.last() == args[0]);
    assert(first.len() == 1);
    assert(arg_texts(first.drop_last()) == Some(Seq::<Seq<char>>::empty()));
    assert(text_of(first.last().value) == Some(texts[0]));
    assert(Seq::<Seq<char>>::empty().push(texts[0]) =~= seq![texts[0]]);
    assert(arg_texts(first) == Some(seq![texts[0]]));
    assert(seq![texts[0]][0] == texts[0]);
}

/// Whatever follows, a batch run for its first result set keeps the result
/// set it already has.
proof fn lemma_first_answer_kept(
    s: EngineState,
    now: i64,
    stmts: Seq<StatementModel>,
    q: QueryResultModel,
)
    ensures
        spec_run_statements(s, now, stmts, true, Some(q)).1 is Ok ==> spec_run_statements(
            s,
            now,
            stmts,
            true,
            Some(q),
        ).1 == Ok::<Option<QueryResultModel>, DbErrorModel>(Some(q)),
    decreases stmts.len(),
{
    if stmts.len() > 0 {
        let (s2, r) = spec_execute(s, now, stmts[0]);
        if r is Ok {
            lemma_first_answer_kept(s2, now, stmts.drop_first(), q);
        }
    }
}

/// `sp_describe_first_result_set` reads the first result set of its batch:
/// when the batch's first statement answers a result set and the batch runs
/// through, the batch, run for its first result set, answers that one,
/// whatever the later statements answer.
pub proof fn law_describe_reads_first_result_set(
    s: EngineState,
    now: i64,
    stmts: Seq<StatementModel>,
    q: QueryResultModel,
)
    requires
        stmts.len() > 0,
        spec_execute(s, now, stmts[0]).1 == Ok::<Option<QueryResultModel>, DbErrorModel>(Some(q)),
        spec_run_statements(s, now, stmts, true, None).1 is Ok,
    ensures
        spec_run_statements(s, now, stmts, true, None).1 == Ok::<
            Option<QueryResultModel>,
            DbErrorModel,
        >(Some(q)),
{
    let s2 = spec_execute(s, now, stmts[0]).0;
    lemma_first_answer_kept(s2, now, stmts.drop_first(), q);
}

/// A statement that neither runs a batch (`EXEC`) nor opens or ends a
/// transaction.
pub open spec fn is_plain(st: StatementModel) -> bool {
    &&& !(st is Exec)
    &&& !(st is BeginTransaction)
    &&& !(st is CommitTransaction)
    &&& !(st is RollbackTransaction)
}

proof fn lemma_plain_keeps_transaction(s: EngineState, now: i64, st: StatementModel)
    requires
        is_plain(st),
    ensures
        spec_execute(s, now, st).0.saved == s.saved,
        spec_execute(s, now, st).0.tran_count == s.tran_count,
{
}

proof fn lemma_plain_run_keeps_transaction(
    s: EngineState,
    now: i64,
    stmts: Seq<StatementModel>,
    keep_first: bool,
    acc: Option<QueryResultModel>,
)
    requires
        forall|i: int| 0 <= i < stmts.len() ==> is_plain(#[trigger] stmts[i]),
    ensures
        spec_run_statements(s, now, stmts, keep_first, acc).0.saved == s.saved,
        spec_run_statements(s, now, stmts, keep_first, acc).0.tran_count == s.tran_count,
    decreases stmts.len(),
{
    if stmts.len() > 0 {
        lemma_plain_keeps_transaction(s, now, stmts[0]);
        let (s2, r) = spec_execute(s, now, stmts[0]);
        if let Ok(o) = r {
            let rest = stmts.drop_first();
            assert forall|i: int| 0 <= i < rest.len() implies is_plain(#[trigger] rest[i]) by {
                assert(rest[i] == stmts[i + 1]);
            }
            lemma_plain_run_keeps_transaction(
                s2,
                now,
                rest,
                keep_first,
                pick_answer(keep_first, acc, o),
            );
        }
    }
}

/// Running `a + b` runs `a`, then (if it succeeded) `b` from where `a` left
/// the session.
pub proof fn lemma_run_append(
    s: EngineState,
    now: i64,
    a: Seq<StatementModel>,
    b: Seq<StatementModel>,
    keep_first: bool,
    acc: Option<QueryResultModel>,
)
    ensures
        spec_run_statements(s, now, a + b, keep_first, acc) == match spec_run_statements(
            s,
            now,
            a,
            keep_first,
            acc,
        ) {
            (s2, Ok(l2)) => spec_run_statements(s2, now, b, keep_first, l2),
            (s2, Err(e)) => (s2, Err(e)),
        },
    decreases a.len(),
{
    if a.len() == 0 {
        assert(a + b =~= b);
    } else {
        assert((a + b)[0] == a[0]);
        assert((a + b).drop_first() =~= a.drop_first() + b);
        let (s2, r) = spec_execute(s, now, a[0]);
        if let Ok(o) = r {
            lemma_run_append(s2, now, a.drop_first(), b, keep_first, pick_answer(keep_first, acc, o));
        }
    }
}

/// `ROLLBACK` undoes what happened since `BEGIN TRANSACTION`: from a session
/// with no open transaction, `BEGIN TRANSACTION`, statements that succeed
/// and neither run a batch nor open or end a transaction, then `ROLLBACK`,
/// leave the database as it was before, with no transaction open.
pub proof fn law_rollback_restores_database(s: EngineState, now: i64, mid: Seq<StatementModel>)
    requires
        s.tran_count == 0,
        forall|i: int| 0 <= i < mid.len() ==> is_plain(#[trigger] mid[i]),
        spec_run_statements(
            EngineState { saved: s.db, tran_count: 1, ..s },
            now,
            mid,
            false,
            None,
        ).1 is Ok,
    ensures
        spec_run_statements(
            s,
            now,
            seq![StatementModel::BeginTransaction] + mid + seq![StatementModel::RollbackTransaction],
            false,
            None,
        ).0.db == s.db,
        spec_run_statements(
            s,
            now,
            seq![StatementModel::BeginTransaction] + mid + seq![StatementModel::RollbackTransaction],
            false,
            None,
        ).0.tran_count == 0,
        spec_run_statements(
            s,
            now,
            seq![StatementModel::BeginTransaction] + mid + seq![StatementModel::RollbackTransaction],
            false,
            None,
        ).1 is Ok,
{
    let begin = seq![StatementModel::BeginTransaction];
    let rollback = seq![StatementModel::RollbackTransaction];
    let s1 = EngineState { saved: s.db, tran_count: 1, ..s };
    assert(spec_execute(s, now, StatementModel::BeginTransaction) == (
        s1,
        Ok::<Option<QueryResultModel>, DbErrorModel>(None),
    ));
    assert(begin.drop_first() =~= Seq::<StatementModel>::empty());
    assert(spec_run_statements(s, now, begin, false, None) == spec_run_statements(
        s1,
        now,
        begin.drop_first(),
        false,
        None,
    ));
    lemma_run_append(s, now, begin, mid, false, None);
    lemma_run_append(s, now, begin + mid, rollback, false, None);
    lemma_plain_run_keeps_transaction(s1, now, mid, false, None);
    let (s2, r2) = spec_run_statements(s1, now, mid, false, None);
    assert(s2.saved == s.db && s2.tran_count == 1);
    assert(rollback.drop_first() =~= Seq::<StatementModel>::empty());
    let s3 = EngineState { db: s2.saved, tran_count: 0, ..s2 };
    assert(spec_execute(s2, now, StatementModel::RollbackTransaction) == (
        s3,
        Ok::<Option<QueryResultModel>, DbErrorModel>(None),
    ));
    assert(spec_run_statements(s2, now, rollback, false, r2->Ok_0) == spec_run_statements(
        s3,
        now,
        rollback.drop_first(),
        false,
        pick_answer(false, r2->Ok_0, None),
    ));
}

} // verus!
