use sql_plan_bridge::profiles::{
    connected_text, delete_connection, find_connection, login_failure_text, mark_used,
    probe_statement_text, save_connection, test_connection, transport_failure_text,
};
use sql_plan_bridge::decoder::PortableValue;
use sql_plan_bridge::types::{
    ConnectionConfig, ConnectionRequest, PlanType, QueryRequest, QueryResult,
    SaveConnectionRequest, Timestamp,
};

fn profile(id: &str) -> ConnectionConfig {
    ConnectionConfig {
        id: id.to_string(),
        name: format!("name of {}", id),
        host: "localhost".to_string(),
        port: 1433,
        database: "master".to_string(),
        username: "sa".to_string(),
        encrypted_password: "blob".to_string(),
        last_used: None,
        created_at: Timestamp { seconds: 1, nanos: 2 },
    }
}

fn ids(profiles: &Vec<ConnectionConfig>) -> Vec<&str> {
    profiles.iter().map(|p| p.id.as_str()).collect()
}

fn result_with(rows: Vec<Vec<PortableValue>>) -> QueryResult {
    QueryResult {
        columns: vec!["test".to_string()],
        rows,
        messages: Vec::new(),
        plan_xml: None,
        duration_ms: 0,
        rows_affected: 0,
    }
}

#[test]
fn connected_message_names_host_port_and_database() {
    assert_eq!(connected_text("db.example.com", 1433, "Sales"), "Connected to db.example.com:1433/Sales");
    assert_eq!(connected_text("", 0, ""), "Connected to :0/");
    assert_eq!(connected_text("h", 65535, "d"), "Connected to h:65535/d");
}

#[test]
fn connection_failures_say_which_phase_failed() {
    assert_eq!(transport_failure_text("refused"), "TCP connection failed: refused");
    assert_eq!(login_failure_text("Login failed for user 'sa'."), "SQL Server connection failed: Login failed for user 'sa'.");
}

#[test]
fn connection_test_needs_a_row() {
    assert_eq!(probe_statement_text(), "SELECT 1 AS test");
    assert_eq!(
        test_connection(&result_with(vec![vec![PortableValue::Integer(1)]])),
        Ok("Connection successful".to_string())
    );
    assert_eq!(
        test_connection(&result_with(Vec::new())),
        Err("Connection test failed: no response from server".to_string())
    );
}

#[test]
fn saved_profile_is_added_at_the_end() {
    let mut profiles = vec![profile("a")];
    let request = SaveConnectionRequest {
        name: "Prod".to_string(),
        host: "db".to_string(),
        port: 14330,
        database: "Sales".to_string(),
        username: "reader".to_string(),
        password: "unused here".to_string(),
    };
    let now = Timestamp { seconds: 1700000000, nanos: 5 };
    let index = save_connection(&mut profiles, request, "id-1".to_string(), "sealed".to_string(), now);
    assert_eq!(index, 1);
    assert_eq!(ids(&profiles), vec!["a", "id-1"]);
    let saved = &profiles[1];
    assert_eq!(saved.name, "Prod");
    assert_eq!(saved.host, "db");
    assert_eq!(saved.port, 14330);
    assert_eq!(saved.database, "Sales");
    assert_eq!(saved.username, "reader");
    assert_eq!(saved.encrypted_password, "sealed");
    assert_eq!(saved.last_used, Some(now));
    assert_eq!(saved.created_at, now);
}

#[test]
fn profile_is_found_by_its_id() {
    let profiles = vec![profile("a"), profile("b"), profile("a"), profile("c")];
    assert_eq!(find_connection(&profiles, "a"), Some(0));
    assert_eq!(find_connection(&profiles, "b"), Some(1));
    assert_eq!(find_connection(&profiles, "c"), Some(3));
    assert_eq!(find_connection(&profiles, "d"), None);
    assert_eq!(find_connection(&profiles, ""), None);
    assert_eq!(find_connection(&Vec::new(), "a"), None);
}

#[test]
fn deleting_removes_every_profile_of_the_id() {
    let mut profiles = vec![profile("a"), profile("b"), profile("a"), profile("c"), profile("a")];
    delete_connection(&mut profiles, "a");
    assert_eq!(ids(&profiles), vec!["b", "c"]);
    delete_connection(&mut profiles, "a");
    assert_eq!(ids(&profiles), vec!["b", "c"]);
    delete_connection(&mut profiles, "c");
    assert_eq!(ids(&profiles), vec!["b"]);
    delete_connection(&mut profiles, "b");
    assert!(profiles.is_empty());
    delete_connection(&mut profiles, "b");
    assert!(profiles.is_empty());
}

#[test]
fn using_a_profile_sets_its_time_and_nothing_else() {
    let mut profiles = vec![profile("a"), profile("b"), profile("c")];
    let now = Timestamp { seconds: 42, nanos: 7 };
    mark_used(&mut profiles, 1, now);
    assert_eq!(ids(&profiles), vec!["a", "b", "c"]);
    assert_eq!(profiles[0].last_used, None);
    assert_eq!(profiles[1].last_used, Some(now));
    assert_eq!(profiles[1].created_at, Timestamp { seconds: 1, nanos: 2 });
    assert_eq!(profiles[1].name, "name of b");
    assert_eq!(profiles[2].last_used, None);
}

#[test]
fn requests_hold_what_the_caller_gave() {
    let c = ConnectionRequest {
        host: "h".to_string(),
        port: 1,
        database: "d".to_string(),
        username: "u".to_string(),
        password: "p".to_string(),
    };
    let copy = c.clone();
    assert_eq!(copy.host, "h");
    assert_eq!(copy.port, 1);
    let q = QueryRequest { sql: "SELECT 1".to_string(), timeout_seconds: Some(30), plan_type: PlanType::Actual };
    assert_eq!(q.plan_type, PlanType::Actual);
    assert_eq!(q.timeout_seconds, Some(30));
    assert!(PlanType::Actual.wants_plan());
    assert!(PlanType::Estimated.wants_plan());
    assert!(!PlanType::NoPlan.wants_plan());
}
