//! The plain data that crosses the library's boundary.

use vstd::prelude::*;
use crate::decoder::{PortableValue, PortableView};

verus! {

/// How a statement is run: plainly, compiled only for its estimated plan, or
/// executed with its actual plan captured.
#[derive(Clone, Copy, Debug, PartialEq, Eq, Structural)]
pub enum PlanType {
    NoPlan,
    Estimated,
    Actual,
}

impl PlanType {
    /// Whether this mode asks the server for a plan document.
    pub open spec fn captures_plan(self) -> bool {
        self != PlanType::NoPlan
    }

    /// Whether this mode asks the server for a plan document.
    pub fn wants_plan(&self) -> (r: bool)
        ensures
            r == self.captures_plan(),
    {
        match self {
            PlanType::NoPlan => false,
            _ => true,
        }
    }
}

/// A point in time: seconds since the Unix epoch, and the nanoseconds
/// within the second.
#[derive(Clone, Copy, Debug, PartialEq, Eq, Structural)]
pub struct Timestamp {
    pub seconds: i64,
    pub nanos: u32,
}

/// What is needed to open a session.
#[derive(Clone, Debug)]
pub struct ConnectionRequest {
    pub host: String,
    pub port: u16,
    pub database: String,
    pub username: String,
    pub password: String,
}

/// What is needed to save a connection profile.
#[derive(Clone, Debug)]
pub struct SaveConnectionRequest {
    pub name: String,
    pub host: String,
    pub port: u16,
    pub database: String,
    pub username: String,
    pub password: String,
}

/// A statement with the mode to run it in.
#[derive(Clone, Debug)]
pub struct QueryRequest {
    pub sql: String,
    pub timeout_seconds: Option<u32>,
    pub plan_type: PlanType,
}

/// A saved connection profile. The password is held encrypted.
#[derive(Clone, Debug)]
pub struct ConnectionConfig {
    pub id: String,
    pub name: String,
    pub host: String,
    pub port: u16,
    pub database: String,
    pub username: String,
    pub encrypted_password: String,
    pub last_used: Option<Timestamp>,
    pub created_at: Timestamp,
}

/// One executed statement in the query history.
#[derive(Clone, Debug)]
pub struct QueryHistoryEntry {
    pub id: String,
    pub sql: String,
    pub connection_id: String,
    pub connection_name: String,
    pub executed_at: Timestamp,
    pub duration_ms: u64,
    pub success: bool,
    pub error: Option<String>,
}

/// One captured plan in the plan history.
#[derive(Clone, Debug)]
pub struct PlanHistoryEntry {
    pub id: String,
    pub query_id: String,
    pub plan_xml: String,
    pub plan_type: String,
    pub executed_at: Timestamp,
    pub connection_id: String,
    pub sql_preview: String,
}

/// The result of one statement, in tabular form.
pub struct QueryResult {
    /// The column names, in the server's order.
    pub columns: Vec<String>,
    /// The rows, each a sequence of portable values.
    pub rows: Vec<Vec<PortableValue>>,
    /// Diagnostic messages, in the order they arose.
    pub messages: Vec<String>,
    /// The plan document, where one was captured.
    pub plan_xml: Option<String>,
    /// The elapsed time in milliseconds.
    pub duration_ms: u64,
    /// The number of rows that the statement returned.
    pub rows_affected: i64,
}

/// The mathematical value of a [`QueryResult`].
pub struct QueryResultView {
    pub columns: Seq<Seq<char>>,
    pub rows: Seq<Seq<PortableView>>,
    pub messages: Seq<Seq<char>>,
    pub plan_xml: Option<Seq<char>>,
    pub duration_ms: u64,
    pub rows_affected: int,
}

/// The texts of a sequence of strings.
pub open spec fn texts(strings: Seq<String>) -> Seq<Seq<char>> {
    Seq::new(strings.len(), |i: int| strings[i]@)
}

/// The text of an optional string.
pub open spec fn optional_text(s: Option<String>) -> Option<Seq<char>> {
    match s {
        Some(s) => Some(s@),
        None => None,
    }
}

/// The values of a sequence of decoded rows.
pub open spec fn row_views(rows: Seq<Vec<PortableValue>>) -> Seq<Seq<PortableView>> {
    Seq::new(rows.len(), |i: int| crate::decoder::views(rows[i]@))
}

impl View for QueryResult {
    type V = QueryResultView;

    open spec fn view(&self) -> QueryResultView {
        QueryResultView {
            columns: texts(self.columns@),
            rows: row_views(self.rows@),
            messages: texts(self.messages@),
            plan_xml: optional_text(self.plan_xml),
            duration_ms: self.duration_ms,
            rows_affected: self.rows_affected as int,
        }
    }
}

} // verus!
