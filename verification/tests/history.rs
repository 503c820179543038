use sql_plan_bridge::history::{
    insert_capped, save_plan_history_entry, save_query_history_entry, PLAN_HISTORY_CAP,
    QUERY_HISTORY_CAP,
};
use sql_plan_bridge::types::{PlanHistoryEntry, QueryHistoryEntry, Timestamp};

fn query(n: usize) -> QueryHistoryEntry {
    QueryHistoryEntry {
        id: format!("q{}", n),
        sql: format!("SELECT {}", n),
        connection_id: "c".to_string(),
        connection_name: "local".to_string(),
        executed_at: Timestamp { seconds: n as i64, nanos: 0 },
        duration_ms: 1,
        success: true,
        error: None,
    }
}

fn plan(n: usize) -> PlanHistoryEntry {
    PlanHistoryEntry {
        id: format!("p{}", n),
        query_id: format!("q{}", n),
        plan_xml: "<ShowPlanXML/>".to_string(),
        plan_type: "Estimated".to_string(),
        executed_at: Timestamp { seconds: n as i64, nanos: 0 },
        connection_id: "c".to_string(),
        sql_preview: "SELECT".to_string(),
    }
}

#[test]
fn caps_are_one_hundred_and_fifty() {
    assert_eq!(QUERY_HISTORY_CAP, 100);
    assert_eq!(PLAN_HISTORY_CAP, 50);
}

#[test]
fn newest_entry_comes_first() {
    let mut history = Vec::new();
    save_query_history_entry(&mut history, query(1));
    save_query_history_entry(&mut history, query(2));
    save_query_history_entry(&mut history, query(3));
    let ids: Vec<&str> = history.iter().map(|e| e.id.as_str()).collect();
    assert_eq!(ids, vec!["q3", "q2", "q1"]);
}

#[test]
fn hundred_and_first_query_evicts_the_oldest() {
    let mut history = Vec::new();
    for n in 1..=100 {
        save_query_history_entry(&mut history, query(n));
    }
    assert_eq!(history.len(), 100);
    assert_eq!(history[0].id, "q100");
    assert_eq!(history[99].id, "q1");
    save_query_history_entry(&mut history, query(101));
    assert_eq!(history.len(), 100);
    assert_eq!(history[0].id, "q101");
    assert_eq!(history[1].id, "q100");
    assert_eq!(history[99].id, "q2");
    for n in 102..=250 {
        save_query_history_entry(&mut history, query(n));
        assert_eq!(history.len(), 100);
    }
    assert_eq!(history[0].id, "q250");
    assert_eq!(history[99].id, "q151");
}

#[test]
fn fifty_first_plan_evicts_the_oldest() {
    let mut history = Vec::new();
    for n in 1..=50 {
        save_plan_history_entry(&mut history, plan(n));
    }
    assert_eq!(history.len(), 50);
    save_plan_history_entry(&mut history, plan(51));
    assert_eq!(history.len(), 50);
    assert_eq!(history[0].id, "p51");
    assert_eq!(history[49].id, "p2");
}

#[test]
fn overlong_history_is_cut_down_on_insert() {
    let mut history: Vec<u32> = (0..10).collect();
    insert_capped(&mut history, 99, 4);
    assert_eq!(history, vec![99, 0, 1, 2]);
    let mut history: Vec<u32> = vec![1, 2];
    insert_capped(&mut history, 3, 0);
    assert!(history.is_empty());
    let mut history: Vec<u32> = vec![1, 2];
    insert_capped(&mut history, 3, 3);
    assert_eq!(history, vec![3, 1, 2]);
}
