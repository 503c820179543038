//! The execution orchestrator.
//!
//! Running a statement is a short conversation with the server: perhaps a
//! catalog lookup for the rewriter, perhaps a statement that switches plan
//! capture on, the statement itself, and the statement that switches plan
//! capture off again. The orchestrator decides what is sent next and what
//! becomes of each answer; sending is left to the caller, who hands every
//! answer back as an [`Event`]. Plan capture is state of the session, so a
//! session must not be shared while an [`Execution`] is under way.

use vstd::prelude::*;
use vstd::string::*;
use crate::decoder::{
    decoded_row, extract_row_values, views, Cell, PortableValue, PortableView, Probed,
};
use crate::rewriter::{
    catalog_lookup, catalog_query, rewrite, rewritten, table_name, ColumnTypeDescriptor,
};
use crate::text::{contains, decimal, has, push_decimal, to_chars};
use crate::types::{
    optional_text, row_views, texts, PlanType, QueryResult, QueryResultView,
};

verus! {

/// One result set of the wire client: the column names of its rows, and the
/// rows.
pub struct ResultSet {
    /// The names of the columns, in the server's order.
    pub columns: Vec<String>,
    /// The raw rows.
    pub rows: Vec<Vec<Cell>>,
}

/// What the server made of the text that was sent last.
pub enum Event {
    /// It answered with these result sets.
    Answered(Vec<ResultSet>),
    /// It failed, or could not be reached; the text is the client's error.
    Failed(String),
}

/// What the caller has to do next.
pub enum Action {
    /// Send this catalog query. The clock does not run yet.
    Lookup(String),
    /// Send this statement. The clock runs from the first of these.
    Execute(String),
    /// Stop the clock and take the result.
    Finish,
}

/// The mathematical value of an [`Action`].
pub enum ActionView {
    Lookup(Seq<char>),
    Execute(Seq<char>),
    Finish,
}

impl View for Action {
    type V = ActionView;

    open spec fn view(&self) -> ActionView {
        match self {
            Action::Lookup(q) => ActionView::Lookup(q@),
            Action::Execute(q) => ActionView::Execute(q@),
            Action::Finish => ActionView::Finish,
        }
    }
}

/// Where an execution stands.
#[derive(Clone, Copy, Debug, PartialEq, Eq, Structural)]
pub enum Stage {
    /// The catalog lookup is out.
    Describing,
    /// The statement that switches plan capture on is out.
    Enabling,
    /// The statement itself is out.
    Running,
    /// The statement that switches plan capture off is out.
    Restoring,
    /// Nothing more is to be sent.
    Done,
}

/// The mathematical value of an [`Execution`].
pub struct ExecutionView {
    /// The mode the statement runs in.
    pub mode: PlanType,
    /// Where the execution stands.
    pub stage: Stage,
    /// The statement as the caller wrote it.
    pub original: Seq<char>,
    /// The statement as it is sent.
    pub sql: Seq<char>,
    /// The messages so far.
    pub messages: Seq<Seq<char>>,
    /// The plan document, once captured.
    pub plan_xml: Option<Seq<char>>,
    /// The column names, once known.
    pub columns: Seq<Seq<char>>,
    /// The decoded rows.
    pub rows: Seq<Seq<PortableView>>,
    /// The number of rows that the statement returned.
    pub rows_affected: int,
    /// The error that the call will report, once one has arisen.
    pub failure: Option<Seq<char>>,
}

/// The note that is put before all other messages when the rewriter changed
/// the statement.
pub open spec fn advisory() -> Seq<char> {
    "Note: Alias types and date columns automatically cast to their base types for compatibility."@
}

/// The server's name for the plan capture of `mode`.
pub open spec fn capture_name(mode: PlanType) -> Seq<char> {
    match mode {
        PlanType::Estimated => "SHOWPLAN_XML"@,
        _ => "STATISTICS XML"@,
    }
}

/// The statement that switches the plan capture of `mode` on.
pub open spec fn enable_statement(mode: PlanType) -> Seq<char> {
    "SET "@ + capture_name(mode) + " ON"@
}

/// The statement that switches the plan capture of `mode` off.
pub open spec fn disable_statement(mode: PlanType) -> Seq<char> {
    "SET "@ + capture_name(mode) + " OFF"@
}

/// The error for a plan capture that could not be switched on.
pub open spec fn enable_failure(mode: PlanType, detail: Seq<char>) -> Seq<char> {
    "Failed to enable "@ + capture_name(mode) + ": "@ + detail
}

/// The error for a plan capture that could not be switched off.
pub open spec fn disable_failure(mode: PlanType, detail: Seq<char>) -> Seq<char> {
    "Failed to disable "@ + capture_name(mode) + ": "@ + detail
}

/// The text that takes the place of an error about a column type: which
/// server types are not supported, and what can be done about it in `mode`.
/// The client's own error follows it.
pub open spec fn remediation(mode: PlanType) -> Seq<char> {
    if mode.captures_plan() {
        "Query contains unsupported column types that cannot be used with execution plans.\nUnsupported types include: date, geometry, geography, hierarchyid, and certain CLR types.\n\nWorkarounds:\n\u{2022} Cast date columns to datetime: SELECT CAST(LicenseValidTo AS datetime) AS LicenseValidTo\n\u{2022} Exclude these columns from your SELECT statement\n\u{2022} Use 'No Plan' mode (though unsupported types will still cause errors)\n\nOriginal error: "@
    } else {
        "Query contains unsupported column types that are not supported by the database client.\nUnsupported types include: date, geometry, geography, hierarchyid, and certain CLR types.\n\nWorkarounds:\n\u{2022} Cast date columns to datetime: SELECT CAST(LicenseValidTo AS datetime) AS LicenseValidTo\n\u{2022} Exclude these columns from your SELECT statement\n\nOriginal error: "@
    }
}

/// Whether the client's error `detail` is about a column type.
pub open spec fn is_type_failure(detail: Seq<char>) -> bool {
    contains(detail, "column type"@)
}

/// The error for a statement that failed with the client's error `detail`.
pub open spec fn query_failure(mode: PlanType, detail: Seq<char>) -> Seq<char> {
    if is_type_failure(detail) {
        remediation(mode) + detail
    } else {
        "Query failed: "@ + detail
    }
}

/// The message that closes a successful execution in `mode` that returned
/// `count` rows.
pub open spec fn completion_message(mode: PlanType, count: nat) -> Seq<char> {
    match mode {
        PlanType::NoPlan => "Query executed. "@ + decimal(count) + " row(s) returned."@,
        PlanType::Estimated => "Estimated execution plan generated."@,
        PlanType::Actual => "Query executed. "@ + decimal(count)
            + " row(s) returned with actual execution plan."@,
    }
}

/// The message that reports the elapsed time, `elapsed` being the number
/// of milliseconds as the caller wants it shown.
pub open spec fn timing_message(elapsed: Seq<char>) -> Seq<char> {
    "Execution time: "@ + elapsed + "ms"@
}

/// The text of cell `i` of `row`, where there is such a cell and it holds
/// text.
pub open spec fn text_at(row: Seq<Cell>, i: int) -> Option<String> {
    if 0 <= i < row.len() {
        match row[i].text {
            Probed::Present(s) => Some(s),
            _ => None,
        }
    } else {
        None
    }
}

/// The unsigned byte in cell `i` of `row`, where there is one.
pub open spec fn byte_at(row: Seq<Cell>, i: int) -> Option<u8> {
    if 0 <= i < row.len() {
        match row[i].uint8 {
            Probed::Present(n) => Some(n),
            _ => None,
        }
    } else {
        None
    }
}

/// The 32-bit integer in cell `i` of `row`, where there is one.
pub open spec fn int_at(row: Seq<Cell>, i: int) -> Option<i32> {
    if 0 <= i < row.len() {
        match row[i].int32 {
            Probed::Present(n) => Some(n),
            _ => None,
        }
    } else {
        None
    }
}

/// The column that a row of the catalog's answer describes: its name, the
/// id of its storage type, the id and name of its declared type, and the
/// name of its storage type, in the order of the catalog query's columns.
pub open spec fn described(row: Seq<Cell>) -> ColumnTypeDescriptor {
    ColumnTypeDescriptor {
        name: text_at(row, 0),
        declared_type: text_at(row, 3),
        storage_type_id: byte_at(row, 1),
        declared_type_id: int_at(row, 2),
        storage_type: text_at(row, 4),
    }
}

/// The columns that the rows of one result set describe.
pub open spec fn set_columns(set: ResultSet) -> Seq<ColumnTypeDescriptor> {
    Seq::new(set.rows@.len(), |i: int| described(set.rows@[i]@))
}

/// The columns that the catalog's answer describes, in its order.
pub open spec fn catalog_columns(sets: Seq<ResultSet>) -> Seq<ColumnTypeDescriptor>
    decreases sets.len(),
{
    if sets.len() == 0 {
        Seq::empty()
    } else {
        catalog_columns(sets.drop_last()) + set_columns(sets.last())
    }
}

/// The decoded rows of one result set.
pub open spec fn set_rows(set: ResultSet) -> Seq<Seq<PortableView>> {
    Seq::new(set.rows@.len(), |i: int| decoded_row(set.columns@, set.rows@[i]@))
}

/// The decoded rows of all result sets, in order.
pub open spec fn all_rows(sets: Seq<ResultSet>) -> Seq<Seq<PortableView>>
    decreases sets.len(),
{
    if sets.len() == 0 {
        Seq::empty()
    } else {
        all_rows(sets.drop_last()) + set_rows(sets.last())
    }
}

/// The number of rows in all result sets.
pub open spec fn row_total(sets: Seq<ResultSet>) -> nat
    decreases sets.len(),
{
    if sets.len() == 0 {
        0
    } else {
        row_total(sets.drop_last()) + sets.last().rows@.len()
    }
}

/// The index of the first result set at or after `from` that has a row, or
/// the number of result sets.
pub open spec fn first_with_rows(sets: Seq<ResultSet>, from: int) -> int
    decreases sets.len() - from,
{
    if 0 <= from < sets.len() && sets[from].rows@.len() == 0 {
        first_with_rows(sets, from + 1)
    } else {
        from
    }
}

/// The column names of the first result set that has a row; none where no
/// result set has one.
pub open spec fn first_columns(sets: Seq<ResultSet>) -> Seq<Seq<char>> {
    let i = first_with_rows(sets, 0);
    if 0 <= i < sets.len() {
        texts(sets[i].columns@)
    } else {
        Seq::empty()
    }
}

/// The text in the first cell of the first row of `set`.
pub open spec fn leading_text(set: ResultSet) -> Option<Seq<char>> {
    if set.rows@.len() > 0 {
        optional_text(text_at(set.rows@[0]@, 0))
    } else {
        None
    }
}

/// The estimated plan in an answer: the text in the first cell of the
/// first row of the first result set.
pub open spec fn estimated_plan(sets: Seq<ResultSet>) -> Option<Seq<char>> {
    if sets.len() > 0 {
        leading_text(sets[0])
    } else {
        None
    }
}

/// The plan document that `set` holds in place of data: the text in the
/// first cell of its first row, where that text carries the plan marker.
pub open spec fn plan_in(set: ResultSet) -> Option<Seq<char>> {
    match leading_text(set) {
        Some(text) => if contains(text, "ShowPlanXML"@) {
            Some(text)
        } else {
            None
        },
        None => None,
    }
}

/// The actual plan in an answer: the plan document of the last result set
/// that holds one.
pub open spec fn actual_plan(sets: Seq<ResultSet>) -> Option<Seq<char>>
    decreases sets.len(),
{
    if sets.len() == 0 {
        None
    } else {
        match plan_in(sets.last()) {
            Some(plan) => Some(plan),
            None => actual_plan(sets.drop_last()),
        }
    }
}

/// The number of data rows in an answer: the rows of the result sets that
/// hold no plan document.
pub open spec fn counted_rows(sets: Seq<ResultSet>) -> nat
    decreases sets.len(),
{
    if sets.len() == 0 {
        0
    } else if plan_in(sets.last()) is Some {
        counted_rows(sets.drop_last())
    } else {
        counted_rows(sets.drop_last()) + sets.last().rows@.len()
    }
}

/// The step from the rewrite into the mode's own protocol: plan capture is
/// switched on first where the mode has one, else the statement goes out.
pub open spec fn dispatched(v: ExecutionView) -> (ExecutionView, ActionView) {
    if v.mode.captures_plan() {
        (ExecutionView { stage: Stage::Enabling, ..v }, ActionView::Execute(enable_statement(v.mode)))
    } else {
        (ExecutionView { stage: Stage::Running, ..v }, ActionView::Execute(v.sql))
    }
}

/// The start of an execution: the catalog is asked where the statement is a
/// candidate for rewriting, else the mode's protocol begins at once.
pub open spec fn begun(sql: Seq<char>, mode: PlanType) -> (ExecutionView, ActionView) {
    let fresh = ExecutionView {
        mode,
        stage: Stage::Describing,
        original: sql,
        sql,
        messages: Seq::empty(),
        plan_xml: None,
        columns: Seq::empty(),
        rows: Seq::empty(),
        rows_affected: 0,
        failure: None,
    };
    match table_name(sql) {
        Some(table) => (fresh, ActionView::Lookup(catalog_query(table))),
        None => dispatched(fresh),
    }
}

/// What becomes of the statement's own answer, by mode. Without a plan
/// every row is decoded and counted. For an estimated plan nothing is
/// collected but the plan. For an actual plan the rows are counted, not
/// collected, and the plan is taken from the result set that holds it.
pub open spec fn absorbed(v: ExecutionView, sets: Seq<ResultSet>) -> (ExecutionView, ActionView) {
    match v.mode {
        PlanType::NoPlan => (
            ExecutionView {
                stage: Stage::Done,
                columns: first_columns(sets),
                rows: all_rows(sets),
                rows_affected: all_rows(sets).len() as int,
                messages: v.messages.push(completion_message(v.mode, all_rows(sets).len())),
                ..v
            },
            ActionView::Finish,
        ),
        PlanType::Estimated => (
            ExecutionView { stage: Stage::Restoring, plan_xml: estimated_plan(sets), ..v },
            ActionView::Execute(disable_statement(v.mode)),
        ),
        PlanType::Actual => (
            ExecutionView {
                stage: Stage::Restoring,
                plan_xml: actual_plan(sets),
                rows_affected: counted_rows(sets) as int,
                ..v
            },
            ActionView::Execute(disable_statement(v.mode)),
        ),
    }
}

/// What becomes of the statement's failure: the error is kept, and where
/// plan capture is on, it is switched off before anything is reported.
pub open spec fn failed(v: ExecutionView, detail: Seq<char>) -> (ExecutionView, ActionView) {
    let failure = Some(query_failure(v.mode, detail));
    if v.mode.captures_plan() {
        (
            ExecutionView { stage: Stage::Restoring, failure, ..v },
            ActionView::Execute(disable_statement(v.mode)),
        )
    } else {
        (ExecutionView { stage: Stage::Done, failure, ..v }, ActionView::Finish)
    }
}

/// The state after `event`, and what is to be done next.
pub open spec fn advanced(v: ExecutionView, event: Event) -> (ExecutionView, ActionView) {
    match v.stage {
        Stage::Describing => {
            let cols = match event {
                Event::Answered(sets) => catalog_columns(sets@),
                Event::Failed(_) => Seq::empty(),
            };
            let sql = rewritten(v.original, cols);
            let messages = if sql != v.original {
                v.messages.push(advisory())
            } else {
                v.messages
            };
            dispatched(ExecutionView { sql, messages, ..v })
        },
        Stage::Enabling => match event {
            Event::Answered(_) => (
                ExecutionView { stage: Stage::Running, ..v },
                ActionView::Execute(v.sql),
            ),
            Event::Failed(detail) => (
                ExecutionView {
                    stage: Stage::Done,
                    failure: Some(enable_failure(v.mode, detail@)),
                    ..v
                },
                ActionView::Finish,
            ),
        },
        Stage::Running => match event {
            Event::Answered(sets) => absorbed(v, sets@),
            Event::Failed(detail) => failed(v, detail@),
        },
        Stage::Restoring => match event {
            Event::Answered(_) => (
                ExecutionView {
                    stage: Stage::Done,
                    messages: if v.failure is None {
                        v.messages.push(completion_message(v.mode, v.rows_affected as nat))
                    } else {
                        v.messages
                    },
                    ..v
                },
                ActionView::Finish,
            ),
            Event::Failed(detail) => (
                ExecutionView {
                    stage: Stage::Done,
                    failure: if v.failure is None {
                        Some(disable_failure(v.mode, detail@))
                    } else {
                        v.failure
                    },
                    ..v
                },
                ActionView::Finish,
            ),
        },
        Stage::Done => (v, ActionView::Finish),
    }
}

/// What holds of every execution at every stage: the count is that of the
/// collected rows where no plan is asked for; with a plan no row is
/// collected, and with an estimated plan none is counted; and plan capture
/// is switched only where the mode has one.
pub open spec fn consistent(v: ExecutionView) -> bool {
    &&& v.rows_affected >= 0
    &&& v.mode == PlanType::NoPlan ==> v.rows_affected == v.rows.len()
    &&& v.mode.captures_plan() ==> v.rows.len() == 0 && v.columns.len() == 0
    &&& v.mode == PlanType::Estimated ==> v.rows_affected == 0
    &&& (v.stage == Stage::Enabling || v.stage == Stage::Restoring) ==> v.mode.captures_plan()
}

/// The result of an execution at its end, with the elapsed time added.
pub open spec fn result_of(v: ExecutionView, duration_ms: u64, elapsed: Seq<char>) -> QueryResultView {
    QueryResultView {
        columns: v.columns,
        rows: v.rows,
        messages: v.messages.push(timing_message(elapsed)),
        plan_xml: v.plan_xml,
        duration_ms,
        rows_affected: v.rows_affected,
    }
}

/// An execution begins in a consistent state.
pub proof fn lemma_begun_is_consistent(sql: Seq<char>, mode: PlanType)
    ensures
        consistent(begun(sql, mode).0),
{
}

/// No event leads out of the consistent states.
pub proof fn lemma_advanced_is_consistent(v: ExecutionView, event: Event)
    requires
        consistent(v),
    ensures
        consistent(advanced(v, event).0),
{
}

/// Whatever becomes of the statement while plan capture is on, the next
/// thing sent is the statement that switches it off.
pub proof fn lemma_capture_is_always_switched_off(v: ExecutionView, event: Event)
    requires
        v.stage == Stage::Running,
        v.mode.captures_plan(),
    ensures
        advanced(v, event).0.stage == Stage::Restoring,
        advanced(v, event).1 == ActionView::Execute(disable_statement(v.mode)),
{
}

/// A statement's own failure is what the call reports: switching plan
/// capture off afterwards, with or without success, puts no other error in
/// its place.
pub proof fn lemma_cleanup_keeps_the_first_failure(v: ExecutionView, event: Event)
    requires
        v.stage == Stage::Restoring,
        v.failure is Some,
    ensures
        advanced(v, event).0.failure == v.failure,
        advanced(v, event).0.stage == Stage::Done,
{
}

/// Where the mode has a plan capture, the statement goes out only once the
/// capture is switched on: it is sent on the answer to the switching on,
/// and on nothing else.
pub proof fn lemma_statement_follows_enabling(v: ExecutionView, event: Event)
    requires
        v.mode.captures_plan(),
        advanced(v, event).0.stage == Stage::Running,
    ensures
        v.stage == Stage::Enabling,
        event is Answered,
{
}

/// Whether every row of `set` has one cell for each of its columns.
pub open spec fn well_formed(set: ResultSet) -> bool {
    forall|i: int| 0 <= i < set.rows@.len() ==> (#[trigger] set.rows@[i])@.len() == set.columns@.len()
}

/// Whether the result sets that have rows have the same number of columns.
pub open spec fn same_width(sets: Seq<ResultSet>) -> bool {
    forall|i: int, j: int|
        0 <= i < sets.len() && 0 <= j < sets.len() && (#[trigger] sets[i]).rows@.len() > 0 && (
        #[trigger] sets[j]).rows@.len() > 0 ==> sets[i].columns@.len() == sets[j].columns@.len()
}

/// [`first_with_rows`] stays within the result sets, passes only those
/// without rows and stops at one that has rows.
pub proof fn lemma_first_with_rows(sets: Seq<ResultSet>, from: int)
    requires
        0 <= from <= sets.len(),
    ensures
        from <= first_with_rows(sets, from) <= sets.len(),
        forall|j: int| from <= j < first_with_rows(sets, from) ==> sets[j].rows@.len() == 0,
        first_with_rows(sets, from) < sets.len() ==> sets[first_with_rows(sets, from)].rows@.len()
            > 0,
    decreases sets.len() - from,
{
    if from < sets.len() && sets[from].rows@.len() == 0 {
        lemma_first_with_rows(sets, from + 1);
    }
}

/// Every decoded row of an answer is a row of one of its result sets,
/// decoded with the columns of that set.
pub proof fn lemma_row_origin(sets: Seq<ResultSet>, k: int) -> (place: (int, int))
    requires
        0 <= k < all_rows(sets).len(),
    ensures
        0 <= place.0 < sets.len(),
        0 <= place.1 < sets[place.0].rows@.len(),
        all_rows(sets)[k] == decoded_row(sets[place.0].columns@, sets[place.0].rows@[place.1]@),
    decreases sets.len(),
{
    let head = all_rows(sets.drop_last());
    if k < head.len() {
        lemma_row_origin(sets.drop_last(), k)
    } else {
        (sets.len() - 1, k - head.len())
    }
}

/// The rows of a result fit its columns: where the result sets are well
/// formed and those with rows have the same number of columns, every
/// decoded row has one value for each column name.
pub proof fn lemma_rows_fit_the_columns(sets: Seq<ResultSet>)
    requires
        forall|i: int| 0 <= i < sets.len() ==> well_formed(#[trigger] sets[i]),
        same_width(sets),
    ensures
        forall|k: int|
            0 <= k < all_rows(sets).len() ==> (#[trigger] all_rows(sets)[k]).len() == first_columns(
                sets,
            ).len(),
{
    assert forall|k: int| 0 <= k < all_rows(sets).len() implies (#[trigger] all_rows(sets)[k]).len()
        == first_columns(sets).len() by {
        let (i, j) = lemma_row_origin(sets, k);
        lemma_first_with_rows(sets, 0);
        let first = first_with_rows(sets, 0);
        assert(first <= i);
        assert(sets[first].rows@.len() > 0);
        assert(sets[i].rows@.len() > 0);
        assert(well_formed(sets[i]));
        assert(sets[i].rows@[j]@.len() == sets[i].columns@.len());
    }
}

/// The rows of an answer are as many as its result sets hold together.
pub proof fn lemma_all_rows_len(sets: Seq<ResultSet>)
    ensures
        all_rows(sets).len() == row_total(sets),
        counted_rows(sets) <= row_total(sets),
    decreases sets.len(),
{
    if sets.len() > 0 {
        lemma_all_rows_len(sets.drop_last());
    }
}

/// One statement on its way through the server: what was asked, where it
/// stands, and what has come back so far.
pub struct Execution {
    mode: PlanType,
    stage: Stage,
    original: String,
    sql: String,
    messages: Vec<String>,
    plan_xml: Option<String>,
    columns: Vec<String>,
    rows: Vec<Vec<PortableValue>>,
    rows_affected: i64,
    failure: Option<String>,
}

impl View for Execution {
    type V = ExecutionView;

    closed spec fn view(&self) -> ExecutionView {
        ExecutionView {
            mode: self.mode,
            stage: self.stage,
            original: self.original@,
            sql: self.sql@,
            messages: texts(self.messages@),
            plan_xml: optional_text(self.plan_xml),
            columns: texts(self.columns@),
            rows: row_views(self.rows@),
            rows_affected: self.rows_affected as int,
            failure: optional_text(self.failure),
        }
    }
}

impl Execution {
    #[verifier::type_invariant]
    spec fn well_formed(self) -> bool {
        consistent(self@)
    }

    /// Starts the execution of `sql` in `mode` and says what to send
    /// first.
    pub fn begin(sql: &str, mode: PlanType) -> (r: (Execution, Action))
        ensures
            (r.0@, r.1@) == begun(sql@, mode),
    {
        let fresh = Execution {
            mode,
            stage: Stage::Describing,
            original: sql.to_owned(),
            sql: sql.to_owned(),
            messages: Vec::new(),
            plan_xml: None,
            columns: Vec::new(),
            rows: Vec::new(),
            rows_affected: 0,
            failure: None,
        };
        proof {
            assert(texts(fresh.messages@) =~= Seq::<Seq<char>>::empty());
            assert(texts(fresh.columns@) =~= Seq::<Seq<char>>::empty());
            assert(row_views(fresh.rows@) =~= Seq::<Seq<PortableView>>::empty());
        }
        match catalog_lookup(sql) {
            Some(query) => (fresh, Action::Lookup(query)),
            None => fresh.dispatch(),
        }
    }

    /// Enters the mode's own protocol.
    fn dispatch(self) -> (r: (Execution, Action))
        ensures
            (r.0@, r.1@) == dispatched(self@),
    {
        proof {
            use_type_invariant(&self);
        }
        if self.mode.wants_plan() {
            let statement = enable_statement_text(self.mode);
            (Execution { stage: Stage::Enabling, ..self }, Action::Execute(statement))
        } else {
            let statement = self.sql.clone();
            (Execution { stage: Stage::Running, ..self }, Action::Execute(statement))
        }
    }

    /// Takes the server's answer to what was sent last and says what to do
    /// next. The rows of a statement's answer must be few enough to be
    /// counted.
    pub fn advance(self, event: Event) -> (r: (Execution, Action))
        requires
            self@.stage == Stage::Running ==> (event matches Event::Answered(sets) ==> row_total(
                sets@,
            ) <= i64::MAX),
        ensures
            (r.0@, r.1@) == advanced(self@, event),
    {
        proof {
            use_type_invariant(&self);
        }
        match self.stage {
            Stage::Describing => self.apply_rewrite(event),
            Stage::Enabling => match event {
                Event::Answered(_) => {
                    let statement = self.sql.clone();
                    (Execution { stage: Stage::Running, ..self }, Action::Execute(statement))
                },
                Event::Failed(detail) => {
                    let failure = enable_failure_text(self.mode, detail.as_str());
                    (
                        Execution { stage: Stage::Done, failure: Some(failure), ..self },
                        Action::Finish,
                    )
                },
            },
            Stage::Running => match event {
                Event::Answered(sets) => self.absorb(&sets),
                Event::Failed(detail) => {
                    let failure = query_failure_text(self.mode, detail.as_str());
                    if self.mode.wants_plan() {
                        let statement = disable_statement_text(self.mode);
                        (
                            Execution { stage: Stage::Restoring, failure: Some(failure), ..self },
                            Action::Execute(statement),
                        )
                    } else {
                        (
                            Execution { stage: Stage::Done, failure: Some(failure), ..self },
                            Action::Finish,
                        )
                    }
                },
            },
            Stage::Restoring => match event {
                Event::Answered(_) => {
                    let mut messages = self.messages;
                    if self.failure.is_none() {
                        let ghost before = messages@;
                        let message = completion_text(self.mode, self.rows_affected as u64);
                        messages.push(message);
                        assert(texts(messages@) =~= texts(before).push(message@));
                    }
                    (
                        Execution {
                            mode: self.mode,
                            stage: Stage::Done,
                            original: self.original,
                            sql: self.sql,
                            messages,
                            plan_xml: self.plan_xml,
                            columns: self.columns,
                            rows: self.rows,
                            rows_affected: self.rows_affected,
                            failure: self.failure,
                        },
                        Action::Finish,
                    )
                },
                Event::Failed(detail) => {
                    let failure = if self.failure.is_none() {
                        Some(disable_failure_text(self.mode, detail.as_str()))
                    } else {
                        self.failure
                    };
                    (
                        Execution {
                            mode: self.mode,
                            stage: Stage::Done,
                            original: self.original,
                            sql: self.sql,
                            messages: self.messages,
                            plan_xml: self.plan_xml,
                            columns: self.columns,
                            rows: self.rows,
                            rows_affected: self.rows_affected,
                            failure,
                        },
                        Action::Finish,
                    )
                },
            },
            Stage::Done => (self, Action::Finish),
        }
    }

    /// Rewrites the statement by the catalog's answer and enters the
    /// mode's own protocol. A lookup that failed describes no column.
    fn apply_rewrite(self, event: Event) -> (r: (Execution, Action))
        requires
            self@.stage == Stage::Describing,
        ensures
            (r.0@, r.1@) == advanced(self@, event),
    {
        proof {
            use_type_invariant(&self);
        }
        let cols = match event {
            Event::Answered(sets) => describe_all(&sets),
            Event::Failed(_) => Vec::new(),
        };
        let outcome = rewrite(self.original.as_str(), &cols);
        let mut messages = self.messages;
        if outcome.changed {
            let ghost before = messages@;
            let note =
                "Note: Alias types and date columns automatically cast to their base types for compatibility.".to_owned();
            messages.push(note);
            assert(texts(messages@) =~= texts(before).push(advisory()));
        }
        let next = Execution {
            mode: self.mode,
            stage: self.stage,
            original: self.original,
            sql: outcome.sql,
            messages,
            plan_xml: self.plan_xml,
            columns: self.columns,
            rows: self.rows,
            rows_affected: self.rows_affected,
            failure: self.failure,
        };
        next.dispatch()
    }

    /// Takes in the statement's own answer.
    fn absorb(self, sets: &Vec<ResultSet>) -> (r: (Execution, Action))
        requires
            self@.stage == Stage::Running,
            row_total(sets@) <= i64::MAX,
        ensures
            (r.0@, r.1@) == absorbed(self@, sets@),
    {
        proof {
            use_type_invariant(&self);
            lemma_all_rows_len(sets@);
        }
        match self.mode {
            PlanType::NoPlan => {
                let columns = leading_columns(sets);
                let rows = decode_all(sets);
                assert(row_views(rows@).len() == rows@.len());
                let count = rows.len();
                let mut messages = self.messages;
                let ghost before = messages@;
                let message = completion_text(self.mode, count as u64);
                messages.push(message);
                assert(texts(messages@) =~= texts(before).push(message@));
                (
                    Execution {
                        mode: self.mode,
                        stage: Stage::Done,
                        original: self.original,
                        sql: self.sql,
                        messages,
                        plan_xml: self.plan_xml,
                        columns,
                        rows,
                        rows_affected: count as i64,
                        failure: self.failure,
                    },
                    Action::Finish,
                )
            },
            PlanType::Estimated => {
                let plan = find_estimated_plan(sets);
                let statement = disable_statement_text(self.mode);
                (
                    Execution { stage: Stage::Restoring, plan_xml: plan, ..self },
                    Action::Execute(statement),
                )
            },
            PlanType::Actual => {
                let (plan, count) = find_actual_plan(sets);
                let statement = disable_statement_text(self.mode);
                (
                    Execution {
                        stage: Stage::Restoring,
                        plan_xml: plan,
                        rows_affected: count,
                        ..self
                    },
                    Action::Execute(statement),
                )
            },
        }
    }

    /// Ends the execution: the error where one arose, else the result with
    /// the elapsed time as its last message. `elapsed` is the number of
    /// milliseconds as it is to be shown.
    pub fn finish(self, duration_ms: u64, elapsed: &str) -> (r: Result<QueryResult, String>)
        requires
            self@.stage == Stage::Done,
        ensures
            match r {
                Ok(result) => self@.failure is None && result@ == result_of(
                    self@,
                    duration_ms,
                    elapsed@,
                ),
                Err(error) => self@.failure == Some(error@),
            },
            r matches Ok(result) ==> {
                &&& self@.mode == PlanType::NoPlan ==> result@.rows_affected == result@.rows.len()
                &&& self@.mode == PlanType::Estimated ==> result@.rows.len() == 0
                    && result@.rows_affected == 0
                &&& self@.mode == PlanType::Actual ==> result@.rows.len() == 0
            },
    {
        proof {
            use_type_invariant(&self);
        }
        match self.failure {
            Some(error) => Err(error),
            None => {
                let mut messages = self.messages;
                let ghost before = messages@;
                let message = timing_text(elapsed);
                messages.push(message);
                assert(texts(messages@) =~= texts(before).push(message@));
                Ok(
                    QueryResult {
                        columns: self.columns,
                        rows: self.rows,
                        messages,
                        plan_xml: self.plan_xml,
                        duration_ms,
                        rows_affected: self.rows_affected,
                    },
                )
            },
        }
    }

    /// Where the execution stands.
    pub fn stage(&self) -> (r: Stage)
        ensures
            r == self@.stage,
    {
        self.stage
    }

    /// The mode the statement runs in.
    pub fn mode(&self) -> (r: PlanType)
        ensures
            r == self@.mode,
    {
        self.mode
    }

    /// The statement as it is sent: the caller's, or what the rewriter made
    /// of it.
    pub fn statement(&self) -> (r: &str)
        ensures
            r@ == self@.sql,
    {
        self.sql.as_str()
    }
}

/// The server's name for the plan capture of `mode`.
fn capture_label(mode: PlanType) -> (r: &'static str)
    ensures
        r@ == capture_name(mode),
{
    match mode {
        PlanType::Estimated => "SHOWPLAN_XML",
        _ => "STATISTICS XML",
    }
}

/// The statement that switches the plan capture of `mode` on.
pub fn enable_statement_text(mode: PlanType) -> (r: String)
    ensures
        r@ == enable_statement(mode),
{
    let mut r = String::new();
    r.append("SET ");
    r.append(capture_label(mode));
    r.append(" ON");
    assert(r@ =~= enable_statement(mode));
    r
}

/// The statement that switches the plan capture of `mode` off.
pub fn disable_statement_text(mode: PlanType) -> (r: String)
    ensures
        r@ == disable_statement(mode),
{
    let mut r = String::new();
    r.append("SET ");
    r.append(capture_label(mode));
    r.append(" OFF");
    assert(r@ =~= disable_statement(mode));
    r
}

/// The error for a plan capture that could not be switched on.
pub fn enable_failure_text(mode: PlanType, detail: &str) -> (r: String)
    ensures
        r@ == enable_failure(mode, detail@),
{
    let mut r = String::new();
    r.append("Failed to enable ");
    r.append(capture_label(mode));
    r.append(": ");
    r.append(detail);
    assert(r@ =~= enable_failure(mode, detail@));
    r
}

/// The error for a plan capture that could not be switched off.
pub fn disable_failure_text(mode: PlanType, detail: &str) -> (r: String)
    ensures
        r@ == disable_failure(mode, detail@),
{
    let mut r = String::new();
    r.append("Failed to disable ");
    r.append(capture_label(mode));
    r.append(": ");
    r.append(detail);
    assert(r@ =~= disable_failure(mode, detail@));
    r
}

/// The text that takes the place of an error about a column type.
fn remediation_text(mode: PlanType) -> (r: &'static str)
    ensures
        r@ == remediation(mode),
{
    if mode.wants_plan() {
        "Query contains unsupported column types that cannot be used with execution plans.\nUnsupported types include: date, geometry, geography, hierarchyid, and certain CLR types.\n\nWorkarounds:\n\u{2022} Cast date columns to datetime: SELECT CAST(LicenseValidTo AS datetime) AS LicenseValidTo\n\u{2022} Exclude these columns from your SELECT statement\n\u{2022} Use 'No Plan' mode (though unsupported types will still cause errors)\n\nOriginal error: "
    } else {
        "Query contains unsupported column types that are not supported by the database client.\nUnsupported types include: date, geometry, geography, hierarchyid, and certain CLR types.\n\nWorkarounds:\n\u{2022} Cast date columns to datetime: SELECT CAST(LicenseValidTo AS datetime) AS LicenseValidTo\n\u{2022} Exclude these columns from your SELECT statement\n\nOriginal error: "
    }
}

/// Whether the client's error `detail` is about a column type.
pub fn type_failure(detail: &str) -> (r: bool)
    ensures
        r == is_type_failure(detail@),
{
    let hay = to_chars(detail);
    let needle = to_chars("column type");
    has(&hay, &needle)
}

/// The error for a statement that failed with the client's error `detail`:
/// the remediation text of the mode where the error is about a column
/// type, else the error behind a general prefix.
pub fn query_failure_text(mode: PlanType, detail: &str) -> (r: String)
    ensures
        r@ == query_failure(mode, detail@),
{
    let mut r = String::new();
    if type_failure(detail) {
        r.append(remediation_text(mode));
    } else {
        r.append("Query failed: ");
    }
    r.append(detail);
    assert(r@ =~= query_failure(mode, detail@));
    r
}

/// The message that closes a successful execution in `mode` that returned
/// `count` rows.
pub fn completion_text(mode: PlanType, count: u64) -> (r: String)
    ensures
        r@ == completion_message(mode, count as nat),
{
    let mut r = String::new();
    match mode {
        PlanType::NoPlan => {
            r.append("Query executed. ");
            push_decimal(&mut r, count);
            r.append(" row(s) returned.");
        },
        PlanType::Estimated => {
            r.append("Estimated execution plan generated.");
        },
        PlanType::Actual => {
            r.append("Query executed. ");
            push_decimal(&mut r, count);
            r.append(" row(s) returned with actual execution plan.");
        },
    }
    assert(r@ =~= completion_message(mode, count as nat));
    r
}

/// The message that reports the elapsed time.
pub fn timing_text(elapsed: &str) -> (r: String)
    ensures
        r@ == timing_message(elapsed@),
{
    let mut r = String::new();
    r.append("Execution time: ");
    r.append(elapsed);
    r.append("ms");
    assert(r@ =~= timing_message(elapsed@));
    r
}

/// The text of cell `i` of `row`, where there is such a cell and it holds
/// text.
fn cell_text(row: &Vec<Cell>, i: usize) -> (r: Option<String>)
    ensures
        r == text_at(row@, i as int),
{
    if i < row.len() {
        match &row[i].text {
            Probed::Present(s) => Some(s.clone()),
            _ => None,
        }
    } else {
        None
    }
}

/// The column that a row of the catalog's answer describes.
pub fn describe(row: &Vec<Cell>) -> (r: ColumnTypeDescriptor)
    ensures
        r == described(row@),
{
    let storage_type_id = if 1 < row.len() {
        match row[1].uint8 {
            Probed::Present(n) => Some(n),
            _ => None,
        }
    } else {
        None
    };
    let declared_type_id = if 2 < row.len() {
        match row[2].int32 {
            Probed::Present(n) => Some(n),
            _ => None,
        }
    } else {
        None
    };
    ColumnTypeDescriptor {
        name: cell_text(row, 0),
        declared_type: cell_text(row, 3),
        storage_type_id,
        declared_type_id,
        storage_type: cell_text(row, 4),
    }
}

/// The columns that the catalog's answer describes, in its order.
pub fn describe_all(sets: &Vec<ResultSet>) -> (r: Vec<ColumnTypeDescriptor>)
    ensures
        r@ == catalog_columns(sets@),
{
    let mut out: Vec<ColumnTypeDescriptor> = Vec::new();
    let mut i: usize = 0;
    while i < sets.len()
        invariant
            i <= sets.len(),
            out@ == catalog_columns(sets@.take(i as int)),
        decreases sets.len() - i,
    {
        let set = &sets[i];
        let ghost base = out@;
        let mut j: usize = 0;
        while j < set.rows.len()
            invariant
                j <= set.rows.len(),
                out@ == base + set_columns(*set).take(j as int),
            decreases set.rows.len() - j,
        {
            out.push(describe(&set.rows[j]));
            j += 1;
        }
        proof {
            assert(set_columns(*set).take(j as int) == set_columns(*set));
            assert(sets@.take(i + 1).drop_last() == sets@.take(i as int));
        }
        i += 1;
    }
    proof {
        assert(sets@.take(sets.len() as int) == sets@);
    }
    out
}

/// The decoded rows of all result sets, in order.
pub fn decode_all(sets: &Vec<ResultSet>) -> (r: Vec<Vec<PortableValue>>)
    ensures
        row_views(r@) == all_rows(sets@),
{
    let mut out: Vec<Vec<PortableValue>> = Vec::new();
    let mut i: usize = 0;
    while i < sets.len()
        invariant
            i <= sets.len(),
            row_views(out@) == all_rows(sets@.take(i as int)),
        decreases sets.len() - i,
    {
        let set = &sets[i];
        let ghost base = row_views(out@);
        let mut j: usize = 0;
        while j < set.rows.len()
            invariant
                j <= set.rows.len(),
                row_views(out@) == base + set_rows(*set).take(j as int),
            decreases set.rows.len() - j,
        {
            let values = extract_row_values(&set.columns, &set.rows[j]);
            let ghost before = out@;
            out.push(values);
            proof {
                assert(row_views(out@) =~= row_views(before).push(views(values@)));
                assert(set_rows(*set).take(j + 1) =~= set_rows(*set).take(j as int).push(
                    set_rows(*set)[j as int],
                ));
                assert(row_views(out@) =~= base + set_rows(*set).take(j + 1));
            }
            j += 1;
        }
        proof {
            assert(set_rows(*set).take(j as int) == set_rows(*set));
            assert(sets@.take(i + 1).drop_last() == sets@.take(i as int));
        }
        i += 1;
    }
    proof {
        assert(sets@.take(sets.len() as int) == sets@);
    }
    out
}

/// The column names of the first result set that has a row.
pub fn leading_columns(sets: &Vec<ResultSet>) -> (r: Vec<String>)
    ensures
        texts(r@) == first_columns(sets@),
{
    let mut i: usize = 0;
    while i < sets.len() && sets[i].rows.len() == 0
        invariant
            i <= sets.len(),
            first_with_rows(sets@, 0) == first_with_rows(sets@, i as int),
        decreases sets.len() - i,
    {
        i += 1;
    }
    let mut names: Vec<String> = Vec::new();
    if i < sets.len() {
        let columns = &sets[i].columns;
        let mut j: usize = 0;
        while j < columns.len()
            invariant
                j <= columns.len(),
                texts(names@) == texts(columns@).take(j as int),
            decreases columns.len() - j,
        {
            let name = columns[j].clone();
            let ghost before = names@;
            names.push(name);
            proof {
                assert(texts(names@) =~= texts(before).push(name@));
                assert(texts(columns@).take(j + 1) =~= texts(columns@).take(j as int).push(
                    columns@[j as int]@,
                ));
            }
            j += 1;
        }
        assert(texts(columns@).take(j as int) == texts(columns@));
    } else {
        assert(texts(names@) =~= Seq::<Seq<char>>::empty());
    }
    names
}

/// The text in the first cell of the first row of `set`.
fn leading_text_of(set: &ResultSet) -> (r: Option<String>)
    ensures
        optional_text(r) == leading_text(*set),
{
    if set.rows.len() > 0 {
        cell_text(&set.rows[0], 0)
    } else {
        None
    }
}

/// The estimated plan in an answer.
pub fn find_estimated_plan(sets: &Vec<ResultSet>) -> (r: Option<String>)
    ensures
        optional_text(r) == estimated_plan(sets@),
{
    if sets.len() > 0 {
        leading_text_of(&sets[0])
    } else {
        None
    }
}

/// The plan document that `set` holds in place of data.
fn plan_of(set: &ResultSet) -> (r: Option<String>)
    ensures
        optional_text(r) == plan_in(*set),
{
    match leading_text_of(set) {
        Some(text) => {
            let hay = to_chars(text.as_str());
            let marker = to_chars("ShowPlanXML");
            if has(&hay, &marker) {
                Some(text)
            } else {
                None
            }
        },
        None => None,
    }
}

/// The actual plan in an answer, and the number of its data rows.
pub fn find_actual_plan(sets: &Vec<ResultSet>) -> (r: (Option<String>, i64))
    requires
        row_total(sets@) <= i64::MAX,
    ensures
        optional_text(r.0) == actual_plan(sets@),
        r.1 == counted_rows(sets@),
{
    let mut plan: Option<String> = None;
    let mut count: i64 = 0;
    let mut i: usize = 0;
    while i < sets.len()
        invariant
            i <= sets.len(),
            optional_text(plan) == actual_plan(sets@.take(i as int)),
            count == counted_rows(sets@.take(i as int)),
            row_total(sets@) <= i64::MAX,
        decreases sets.len() - i,
    {
        proof {
            assert(sets@.take(i + 1).drop_last() == sets@.take(i as int));
            lemma_all_rows_len(sets@.take(i + 1));
            lemma_row_total_grows(sets@, i + 1);
        }
        match plan_of(&sets[i]) {
            Some(text) => {
                plan = Some(text);
            },
            None => {
                count = count + sets[i].rows.len() as i64;
            },
        }
        i += 1;
    }
    proof {
        assert(sets@.take(sets.len() as int) == sets@);
    }
    (plan, count)
}

/// The rows of the first `n` result sets are no more than those of all.
pub proof fn lemma_row_total_grows(sets: Seq<ResultSet>, n: int)
    requires
        0 <= n <= sets.len(),
    ensures
        row_total(sets.take(n)) <= row_total(sets),
    decreases sets.len() - n,
{
    if n < sets.len() {
        lemma_row_total_grows(sets, n + 1);
        assert(sets.take(n + 1).drop_last() == sets.take(n));
    } else {
        assert(sets.take(n) == sets);
    }
}

} // verus!
