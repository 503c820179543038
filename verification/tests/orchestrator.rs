use sql_plan_bridge::decoder::{Cell, PortableValue, Probed};
use sql_plan_bridge::orchestrator::{
    completion_text, describe, describe_all, disable_failure_text, disable_statement_text,
    enable_failure_text, enable_statement_text, find_actual_plan, find_estimated_plan,
    leading_columns, query_failure_text, timing_text, type_failure, Action, Event, Execution,
    ResultSet, Stage,
};
use sql_plan_bridge::types::{PlanType, QueryResult};

const ADVISORY: &str =
    "Note: Alias types and date columns automatically cast to their base types for compatibility.";

fn text(v: &str) -> Cell {
    Cell { text: Probed::Present(v.to_string()), ..Cell::unknown() }
}

fn int32(v: i32) -> Cell {
    Cell { int32: Probed::Present(v), ..Cell::unknown() }
}

fn byte(v: u8) -> Cell {
    Cell { uint8: Probed::Present(v), ..Cell::unknown() }
}

fn set(columns: &[&str], rows: Vec<Vec<Cell>>) -> ResultSet {
    ResultSet { columns: columns.iter().map(|c| c.to_string()).collect(), rows }
}

fn catalog_row(name: &str, storage_id: u8, declared_id: i32, declared: &str, storage: &str) -> Vec<Cell> {
    vec![text(name), byte(storage_id), int32(declared_id), text(declared), text(storage)]
}

fn sent(action: &Action) -> String {
    match action {
        Action::Lookup(q) => format!("lookup: {}", q),
        Action::Execute(q) => format!("execute: {}", q),
        Action::Finish => "finish".to_string(),
    }
}

fn is_integer(v: &PortableValue, n: i64) -> bool {
    matches!(v, PortableValue::Integer(k) if *k == n)
}

fn is_text(v: &PortableValue, s: &str) -> bool {
    matches!(v, PortableValue::Text(t) if t == s)
}

fn done(e: Execution) -> Result<QueryResult, String> {
    assert_eq!(e.stage(), Stage::Done);
    e.finish(12, "12.34")
}

#[test]
fn plain_statement_goes_out_at_once() {
    let (e, a) = Execution::begin("SELECT 1 AS test", PlanType::NoPlan);
    assert_eq!(sent(&a), "execute: SELECT 1 AS test");
    assert_eq!(e.stage(), Stage::Running);
    assert_eq!(e.mode(), PlanType::NoPlan);
    assert_eq!(e.statement(), "SELECT 1 AS test");
}

#[test]
fn rows_are_decoded_and_counted_without_a_plan() {
    let (e, _) = Execution::begin("SELECT a, b FROM t WHERE a > 0", PlanType::NoPlan);
    let sets = vec![
        set(&["x"], vec![]),
        set(&["a", "b"], vec![vec![int32(1), text("one")], vec![int32(2), text("two")]]),
        set(&["c", "d"], vec![vec![int32(3), Cell::unknown()]]),
    ];
    let (e, a) = e.advance(Event::Answered(sets));
    assert_eq!(sent(&a), "finish");
    let r = done(e).unwrap();
    assert_eq!(r.columns, vec!["a".to_string(), "b".to_string()]);
    assert_eq!(r.rows.len(), 3);
    assert_eq!(r.rows_affected, 3);
    assert!(is_integer(&r.rows[0][0], 1));
    assert!(is_text(&r.rows[0][1], "one"));
    assert!(is_integer(&r.rows[1][0], 2));
    assert!(is_text(&r.rows[1][1], "two"));
    assert!(is_integer(&r.rows[2][0], 3));
    assert!(matches!(&r.rows[2][1], PortableValue::Unsupported(s) if s == "[Unsupported type: d]"));
    assert_eq!(
        r.messages,
        vec!["Query executed. 3 row(s) returned.".to_string(), "Execution time: 12.34ms".to_string()]
    );
    assert_eq!(r.plan_xml, None);
    assert_eq!(r.duration_ms, 12);
}

#[test]
fn statement_without_rows_has_no_columns() {
    let (e, _) = Execution::begin("UPDATE t SET a = 1", PlanType::NoPlan);
    let (e, a) = e.advance(Event::Answered(vec![]));
    assert_eq!(sent(&a), "finish");
    let r = done(e).unwrap();
    assert!(r.columns.is_empty());
    assert!(r.rows.is_empty());
    assert_eq!(r.rows_affected, 0);
    assert_eq!(
        r.messages,
        vec!["Query executed. 0 row(s) returned.".to_string(), "Execution time: 12.34ms".to_string()]
    );
}

#[test]
fn failure_without_a_plan_ends_the_call() {
    let (e, _) = Execution::begin("SELECT nope", PlanType::NoPlan);
    let (e, a) = e.advance(Event::Failed("Invalid column name 'nope'.".to_string()));
    assert_eq!(sent(&a), "finish");
    assert_eq!(done(e).err().unwrap(), "Query failed: Invalid column name 'nope'.");
}

#[test]
fn estimated_plan_is_captured_between_the_switches() {
    let (e, a) = Execution::begin("SELECT a FROM t", PlanType::Estimated);
    assert_eq!(sent(&a), "execute: SET SHOWPLAN_XML ON");
    assert_eq!(e.stage(), Stage::Enabling);
    let (e, a) = e.advance(Event::Answered(vec![]));
    assert_eq!(sent(&a), "execute: SELECT a FROM t");
    assert_eq!(e.stage(), Stage::Running);
    let sets = vec![
        set(&["plan"], vec![vec![text("<ShowPlanXML first/>")], vec![text("<second/>")]]),
        set(&["plan"], vec![vec![text("<third/>")]]),
    ];
    let (e, a) = e.advance(Event::Answered(sets));
    assert_eq!(sent(&a), "execute: SET SHOWPLAN_XML OFF");
    assert_eq!(e.stage(), Stage::Restoring);
    let (e, a) = e.advance(Event::Answered(vec![]));
    assert_eq!(sent(&a), "finish");
    let r = done(e).unwrap();
    assert_eq!(r.plan_xml, Some("<ShowPlanXML first/>".to_string()));
    assert!(r.rows.is_empty());
    assert!(r.columns.is_empty());
    assert_eq!(r.rows_affected, 0);
    assert_eq!(
        r.messages,
        vec!["Estimated execution plan generated.".to_string(), "Execution time: 12.34ms".to_string()]
    );
}

#[test]
fn estimated_plan_is_switched_off_after_a_failing_statement() {
    let (e, _) = Execution::begin("SELECT broken FROM", PlanType::Estimated);
    let (e, _) = e.advance(Event::Answered(vec![]));
    let (e, a) = e.advance(Event::Failed("Incorrect syntax near 'FROM'.".to_string()));
    assert_eq!(sent(&a), "execute: SET SHOWPLAN_XML OFF");
    assert_eq!(e.stage(), Stage::Restoring);
    let (e, a) = e.advance(Event::Answered(vec![]));
    assert_eq!(sent(&a), "finish");
    assert_eq!(done(e).err().unwrap(), "Query failed: Incorrect syntax near 'FROM'.");
}

#[test]
fn failing_cleanup_does_not_hide_the_statements_failure() {
    let (e, _) = Execution::begin("SELECT broken FROM", PlanType::Actual);
    let (e, _) = e.advance(Event::Answered(vec![]));
    let (e, a) = e.advance(Event::Failed("Incorrect syntax near 'FROM'.".to_string()));
    assert_eq!(sent(&a), "execute: SET STATISTICS XML OFF");
    let (e, a) = e.advance(Event::Failed("connection reset".to_string()));
    assert_eq!(sent(&a), "finish");
    assert_eq!(done(e).err().unwrap(), "Query failed: Incorrect syntax near 'FROM'.");
}

#[test]
fn failing_cleanup_fails_a_call_that_had_succeeded() {
    let (e, _) = Execution::begin("SELECT a FROM t", PlanType::Estimated);
    let (e, _) = e.advance(Event::Answered(vec![]));
    let (e, _) = e.advance(Event::Answered(vec![set(&["p"], vec![vec![text("<ShowPlanXML/>")]])]));
    let (e, a) = e.advance(Event::Failed("connection reset".to_string()));
    assert_eq!(sent(&a), "finish");
    assert_eq!(done(e).err().unwrap(), "Failed to disable SHOWPLAN_XML: connection reset");
}

#[test]
fn failing_to_switch_on_ends_the_call() {
    let (e, _) = Execution::begin("SELECT a FROM t", PlanType::Actual);
    let (e, a) = e.advance(Event::Failed("permission denied".to_string()));
    assert_eq!(sent(&a), "finish");
    assert_eq!(done(e).err().unwrap(), "Failed to enable STATISTICS XML: permission denied");
    let (e, _) = Execution::begin("SELECT a FROM t", PlanType::Estimated);
    let (e, _) = e.advance(Event::Failed("permission denied".to_string()));
    assert_eq!(done(e).err().unwrap(), "Failed to enable SHOWPLAN_XML: permission denied");
}

#[test]
fn actual_plan_counts_rows_and_keeps_none() {
    let (e, a) = Execution::begin("SELECT a FROM t", PlanType::Actual);
    assert_eq!(sent(&a), "execute: SET STATISTICS XML ON");
    let (e, a) = e.advance(Event::Answered(vec![]));
    assert_eq!(sent(&a), "execute: SELECT a FROM t");
    let sets = vec![
        set(&["a"], vec![vec![int32(1)], vec![int32(2)], vec![int32(3)]]),
        set(&["plan"], vec![vec![text("<ShowPlanXML xmlns=\"x\"/>")]]),
        set(&["empty"], vec![]),
        set(&["s"], vec![vec![text("not a plan")], vec![text("<ShowPlanXML/>")]]),
    ];
    let (e, a) = e.advance(Event::Answered(sets));
    assert_eq!(sent(&a), "execute: SET STATISTICS XML OFF");
    let (e, a) = e.advance(Event::Answered(vec![]));
    assert_eq!(sent(&a), "finish");
    let r = done(e).unwrap();
    assert_eq!(r.plan_xml, Some("<ShowPlanXML xmlns=\"x\"/>".to_string()));
    assert_eq!(r.rows_affected, 5);
    assert!(r.rows.is_empty());
    assert!(r.columns.is_empty());
    assert_eq!(
        r.messages,
        vec![
            "Query executed. 5 row(s) returned with actual execution plan.".to_string(),
            "Execution time: 12.34ms".to_string()
        ]
    );
}

#[test]
fn candidate_is_looked_up_and_rewritten() {
    let (e, a) = Execution::begin("SELECT * FROM Widgets", PlanType::NoPlan);
    assert!(sent(&a).starts_with("lookup: SELECT c.name, c.system_type_id"));
    assert!(sent(&a).contains("LOWER(o.name) = LOWER('Widgets')"));
    assert_eq!(e.stage(), Stage::Describing);
    let catalog = vec![set(
        &["name", "system_type_id", "user_type_id", "declared", "storage"],
        vec![
            catalog_row("Id", 56, 56, "int", "int"),
            catalog_row("Code", 167, 257, "CodeType", "varchar"),
            catalog_row("ExpiresOn", 40, 40, "date", "date"),
        ],
    )];
    let (e, a) = e.advance(Event::Answered(catalog));
    let rewritten = "SELECT [Id], CAST([Code] AS varchar) AS [Code], CAST([ExpiresOn] AS datetime) AS [ExpiresOn] FROM Widgets";
    assert_eq!(sent(&a), format!("execute: {}", rewritten));
    assert_eq!(e.statement(), rewritten);
    assert_eq!(e.stage(), Stage::Running);
    let (e, _) = e.advance(Event::Answered(vec![set(&["Id", "Code", "ExpiresOn"], vec![])]));
    let r = done(e).unwrap();
    assert_eq!(
        r.messages,
        vec![
            ADVISORY.to_string(),
            "Query executed. 0 row(s) returned.".to_string(),
            "Execution time: 12.34ms".to_string()
        ]
    );
}

#[test]
fn candidate_that_needs_no_cast_runs_as_written() {
    let (e, _) = Execution::begin("SELECT * FROM Widgets", PlanType::Estimated);
    let catalog = vec![set(&["n"], vec![catalog_row("Id", 56, 56, "int", "int")])];
    let (e, a) = e.advance(Event::Answered(catalog));
    assert_eq!(sent(&a), "execute: SET SHOWPLAN_XML ON");
    assert_eq!(e.statement(), "SELECT * FROM Widgets");
    let (e, a) = e.advance(Event::Answered(vec![]));
    assert_eq!(sent(&a), "execute: SELECT * FROM Widgets");
    let (e, _) = e.advance(Event::Answered(vec![]));
    let (e, _) = e.advance(Event::Answered(vec![]));
    let r = done(e).unwrap();
    assert_eq!(r.plan_xml, None);
    assert_eq!(
        r.messages,
        vec!["Estimated execution plan generated.".to_string(), "Execution time: 12.34ms".to_string()]
    );
}

#[test]
fn failing_lookup_never_blocks_the_statement() {
    let (e, _) = Execution::begin("SELECT * FROM Widgets", PlanType::NoPlan);
    let (e, a) = e.advance(Event::Failed("catalog unavailable".to_string()));
    assert_eq!(sent(&a), "execute: SELECT * FROM Widgets");
    let (e, _) = e.advance(Event::Answered(vec![set(&["a"], vec![vec![int32(1)]])]));
    let r = done(e).unwrap();
    assert_eq!(r.rows_affected, 1);
    assert_eq!(r.messages.len(), 2);
}

#[test]
fn finished_execution_stays_finished() {
    let (e, _) = Execution::begin("SELECT 1", PlanType::NoPlan);
    let (e, _) = e.advance(Event::Answered(vec![set(&["a"], vec![vec![int32(1)]])]));
    let (e, a) = e.advance(Event::Failed("late".to_string()));
    assert_eq!(sent(&a), "finish");
    let r = done(e).unwrap();
    assert_eq!(r.rows_affected, 1);
}

#[test]
fn column_type_errors_get_the_remediation_of_the_mode() {
    let with_plan = "Query contains unsupported column types that cannot be used with execution plans.\nUnsupported types include: date, geometry, geography, hierarchyid, and certain CLR types.\n\nWorkarounds:\n• Cast date columns to datetime: SELECT CAST(LicenseValidTo AS datetime) AS LicenseValidTo\n• Exclude these columns from your SELECT statement\n• Use 'No Plan' mode (though unsupported types will still cause errors)\n\nOriginal error: unsupported column type 0x28";
    let without = "Query contains unsupported column types that are not supported by the database client.\nUnsupported types include: date, geometry, geography, hierarchyid, and certain CLR types.\n\nWorkarounds:\n• Cast date columns to datetime: SELECT CAST(LicenseValidTo AS datetime) AS LicenseValidTo\n• Exclude these columns from your SELECT statement\n\nOriginal error: unsupported column type 0x28";
    let detail = "unsupported column type 0x28";
    assert_eq!(query_failure_text(PlanType::Estimated, detail), with_plan);
    assert_eq!(query_failure_text(PlanType::Actual, detail), with_plan);
    assert_eq!(query_failure_text(PlanType::NoPlan, detail), without);
    let (e, _) = Execution::begin("SELECT g FROM t", PlanType::NoPlan);
    let (e, _) = e.advance(Event::Failed(detail.to_string()));
    assert_eq!(done(e).err().unwrap(), without);
}

#[test]
fn other_errors_get_the_general_prefix() {
    assert_eq!(query_failure_text(PlanType::NoPlan, "timeout"), "Query failed: timeout");
    assert_eq!(query_failure_text(PlanType::Actual, "Column Type"), "Query failed: Column Type");
    assert_eq!(query_failure_text(PlanType::Estimated, ""), "Query failed: ");
    assert!(type_failure("bad column type"));
    assert!(type_failure("column type"));
    assert!(!type_failure("column  type"));
    assert!(!type_failure("column typ"));
    assert!(!type_failure(""));
}

#[test]
fn switch_statements_and_their_errors_name_the_capture() {
    assert_eq!(enable_statement_text(PlanType::Estimated), "SET SHOWPLAN_XML ON");
    assert_eq!(disable_statement_text(PlanType::Estimated), "SET SHOWPLAN_XML OFF");
    assert_eq!(enable_statement_text(PlanType::Actual), "SET STATISTICS XML ON");
    assert_eq!(disable_statement_text(PlanType::Actual), "SET STATISTICS XML OFF");
    assert_eq!(enable_failure_text(PlanType::Estimated, "x"), "Failed to enable SHOWPLAN_XML: x");
    assert_eq!(disable_failure_text(PlanType::Actual, "y"), "Failed to disable STATISTICS XML: y");
}

#[test]
fn messages_show_the_count_in_decimal() {
    assert_eq!(completion_text(PlanType::NoPlan, 0), "Query executed. 0 row(s) returned.");
    assert_eq!(completion_text(PlanType::NoPlan, 1234567), "Query executed. 1234567 row(s) returned.");
    assert_eq!(
        completion_text(PlanType::Actual, 18446744073709551615),
        "Query executed. 18446744073709551615 row(s) returned with actual execution plan."
    );
    assert_eq!(completion_text(PlanType::Estimated, 7), "Estimated execution plan generated.");
    assert_eq!(timing_text("0.05"), "Execution time: 0.05ms");
}

#[test]
fn catalog_rows_are_read_by_position_and_kind() {
    let d = describe(&catalog_row("Code", 167, 257, "CodeType", "varchar"));
    assert_eq!(d.name, Some("Code".to_string()));
    assert_eq!(d.storage_type_id, Some(167));
    assert_eq!(d.declared_type_id, Some(257));
    assert_eq!(d.declared_type, Some("CodeType".to_string()));
    assert_eq!(d.storage_type, Some("varchar".to_string()));
    let d = describe(&vec![int32(5), text("x"), byte(1)]);
    assert_eq!(d.name, None);
    assert_eq!(d.storage_type_id, None);
    assert_eq!(d.declared_type_id, None);
    assert_eq!(d.declared_type, None);
    assert_eq!(d.storage_type, None);
    let d = describe(&vec![Cell { text: Probed::Absent, ..Cell::unknown() }]);
    assert_eq!(d.name, None);
    let all = describe_all(&vec![
        set(&[], vec![catalog_row("a", 56, 56, "int", "int")]),
        set(&[], vec![]),
        set(&[], vec![catalog_row("b", 40, 40, "date", "date"), catalog_row("c", 56, 56, "int", "int")]),
    ]);
    let names: Vec<Option<String>> = all.into_iter().map(|d| d.name).collect();
    assert_eq!(names, vec![Some("a".to_string()), Some("b".to_string()), Some("c".to_string())]);
}

#[test]
fn columns_come_from_the_first_result_set_with_rows() {
    let sets = vec![
        set(&["skipped"], vec![]),
        set(&["a", "b"], vec![vec![int32(1), int32(2)]]),
        set(&["c"], vec![vec![int32(3)]]),
    ];
    assert_eq!(leading_columns(&sets), vec!["a".to_string(), "b".to_string()]);
    assert!(leading_columns(&vec![set(&["x"], vec![])]).is_empty());
    assert!(leading_columns(&Vec::new()).is_empty());
}

#[test]
fn estimated_plan_is_the_first_cell_of_the_first_row_of_the_first_set() {
    assert_eq!(find_estimated_plan(&Vec::new()), None);
    assert_eq!(find_estimated_plan(&vec![set(&["p"], vec![])]), None);
    assert_eq!(find_estimated_plan(&vec![set(&["p"], vec![vec![]])]), None);
    assert_eq!(find_estimated_plan(&vec![set(&["p"], vec![vec![int32(1), text("late")]])]), None);
    assert_eq!(
        find_estimated_plan(&vec![set(&["p"], vec![vec![text("plan"), text("other")]])]),
        Some("plan".to_string())
    );
    assert_eq!(
        find_estimated_plan(&vec![set(&["p"], vec![]), set(&["p"], vec![vec![text("plan")]])]),
        None
    );
}

#[test]
fn actual_plan_is_the_last_set_that_carries_the_marker() {
    let (plan, count) = find_actual_plan(&vec![
        set(&["p"], vec![vec![text("<ShowPlanXML 1/>")], vec![text("row")]]),
        set(&["a"], vec![vec![text("showplanxml")], vec![int32(2)]]),
        set(&["p"], vec![vec![text("<ShowPlanXML 2/>")]]),
        set(&["a"], vec![vec![int32(1), text("<ShowPlanXML/>")]]),
    ]);
    assert_eq!(plan, Some("<ShowPlanXML 2/>".to_string()));
    assert_eq!(count, 3);
    let (plan, count) = find_actual_plan(&Vec::new());
    assert_eq!(plan, None);
    assert_eq!(count, 0);
}
