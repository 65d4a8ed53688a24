use cpc_breadcrumbs::clock::Timestamp;
use cpc_breadcrumbs::conflict;
use cpc_breadcrumbs::schema::{self, Breadcrumb, ConflictInfo, IndexEntry, StepResult, WriterContext};

fn make_test_bc(id: &str, project_id: &str) -> Breadcrumb {
    make_test_bc_with_session(id, project_id, "session_default")
}

fn make_test_bc_with_session(id: &str, project_id: &str, session: &str) -> Breadcrumb {
    let now = chrono::Utc::now().to_rfc3339();
    Breadcrumb {
        id: id.to_string(),
        name: format!("Test BC {}", id),
        project_id: if project_id == "_ungrouped" {
            None
        } else {
            Some(project_id.to_string())
        },
        owner: "test_actor".to_string(),
        writer_actor: "test_actor".to_string(),
        writer_machine: "test_machine".to_string(),
        writer_session: session.to_string(),
        writer_at: now.clone(),
        started_at: now.clone(),
        last_activity_at: now,
        steps: vec!["step1".to_string(), "step2".to_string()],
        current_step: 0,
        total_steps: 2,
        step_results: Vec::new(),
        files_changed: Vec::new(),
        stale: false,
        conflict_warning: None,
        aborted: false,
        abort_reason: None,
        auto_started: false,
    }
}

#[test]
fn test_slugify() {
    assert_eq!(schema::slugify("Hello World!", 40), "hello_world");
    // hyphens are allowed chars — preserved as-is
    assert_eq!(schema::slugify("foo--bar", 40), "foo--bar");
    assert_eq!(schema::slugify("", 40), "operation");
    let long = "a".repeat(50);
    assert_eq!(schema::slugify(&long, 40).len(), 40);
}

#[test]
fn slug_is_trimmed_after_it_is_cut() {
    assert_eq!(schema::slugify("  __ab cd  ", 3), "ab");
    assert_eq!(schema::slugify("___", 40), "operation");
    assert_eq!(schema::slugify("abc", 0), "operation");
    assert_eq!(schema::slugify("Ünïcode-9", 40), "n_code-9");
}

#[test]
fn test_new_id_format() {
    let id = schema::new_id("My Operation");
    assert!(id.starts_with("bc_"), "id should start with bc_: {}", id);
    let parts: Vec<&str> = id.splitn(3, '_').collect();
    assert_eq!(parts.len(), 3);
}

#[test]
fn id_holds_time_and_slug() {
    let at = Timestamp::new(1_700_000_000, 123_456_789).unwrap();
    assert_eq!(
        schema::new_id_at("My Operation", &at),
        "bc_1700000000123456789_my_operation"
    );
    let epoch = Timestamp::new(0, 0).unwrap();
    assert_eq!(schema::new_id_at("", &epoch), "bc_0_operation");
    let before = Timestamp::new(-5, 7).unwrap();
    assert_eq!(schema::new_id_at("x", &before), "bc_0_x");
}

#[test]
fn ids_of_different_times_differ() {
    let a = Timestamp::new(1_700_000_000, 1).unwrap();
    let b = Timestamp::new(1_700_000_000, 2).unwrap();
    assert_ne!(schema::new_id_at("op", &a), schema::new_id_at("op", &b));
    assert_ne!(schema::new_id_at("op", &a), schema::new_id_at("other", &a));
}

#[test]
fn test_conflict_detection() {
    let bc = make_test_bc_with_session("bc_conf_test", "_ungrouped", "session_other");
    // Same session → no conflict
    assert!(conflict::check(&bc, "session_other").is_none());
    // Different session, last_activity_at just now → conflict
    let info = conflict::check(&bc, "session_mine");
    assert!(
        info.is_some(),
        "Expected conflict for different session within 30s"
    );
}

#[test]
fn conflict_ends_after_thirty_seconds() {
    let mut bc = make_test_bc_with_session("bc_c", "_ungrouped", "other");
    bc.last_activity_at = "2024-03-01T12:00:00+00:00".to_string();
    let noon = 1_709_294_400;
    let at_window = Timestamp::new(noon + 30, 0).unwrap();
    let past_window = Timestamp::new(noon + 30, 1).unwrap();
    let info = conflict::check_at(&bc, "mine", &at_window).unwrap();
    assert_eq!(info.other_session, "other");
    assert_eq!(info.other_actor, "test_actor");
    assert_eq!(info.other_machine, "test_machine");
    assert_eq!(info.last_activity_at, "2024-03-01T12:00:00+00:00");
    assert!(conflict::check_at(&bc, "mine", &past_window).is_none());
    assert!(conflict::check_at(&bc, "other", &at_window).is_none());
    bc.last_activity_at = "no time".to_string();
    assert!(conflict::check_at(&bc, "mine", &at_window).is_none());
    assert!(!conflict::in_conflict_window(None));
}

#[test]
fn test_stale_detection() {
    let mut bc = make_test_bc("bc_stale_test", "_ungrouped");
    // Set last_activity_at to 5 hours ago
    let five_hours_ago = chrono::Utc::now() - chrono::Duration::hours(5);
    bc.last_activity_at = five_hours_ago.to_rfc3339();
    assert!(bc.is_stale(), "5h old breadcrumb should be stale");

    let mut bc2 = make_test_bc("bc_fresh_test", "_ungrouped");
    bc2.last_activity_at = chrono::Utc::now().to_rfc3339();
    assert!(
        !bc2.is_stale(),
        "Just-created breadcrumb should not be stale"
    );
}

#[test]
fn staleness_starts_at_four_hours() {
    let mut bc = make_test_bc("bc_edge", "_ungrouped");
    bc.last_activity_at = "2024-03-01T12:00:00Z".to_string();
    let noon = 1_709_294_400;
    let just_before = Timestamp::new(noon + 4 * 3600 - 1, 999_999_999).unwrap();
    let at = Timestamp::new(noon + 4 * 3600, 0).unwrap();
    assert!(!bc.is_stale_at(&just_before));
    assert!(bc.is_stale_at(&at));
    bc.last_activity_at = "garbage".to_string();
    assert!(!bc.is_stale_at(&at));
}

#[test]
fn writer_context_is_built() {
    let ctx = WriterContext::new("a", "m", "s");
    let copy = ctx.clone();
    assert_eq!(copy.actor, "a");
    assert_eq!(copy.machine, "m");
    assert_eq!(copy.session, "s");
    let none = WriterContext::default();
    assert!(none.actor.is_empty() && none.machine.is_empty() && none.session.is_empty());
    let unset = WriterContext::from_env(None, "box".to_string(), None);
    assert_eq!(unset.actor, "unknown");
    assert_eq!(unset.machine, "box");
    assert_eq!(unset.session, "session_0");
    let set = WriterContext::from_env(
        Some("me".to_string()),
        "box".to_string(),
        Some("s9".to_string()),
    );
    assert_eq!(set.actor, "me");
    assert_eq!(set.session, "s9");
}

#[test]
fn copies_hold_the_same() {
    let mut bc = make_test_bc("bc_copy", "proj");
    bc.step_results.push(StepResult {
        step_idx: 0,
        step_name: "step1".to_string(),
        result: "ok".to_string(),
        at: "then".to_string(),
        files_changed: vec!["a.rs".to_string()],
    });
    bc.conflict_warning = Some(ConflictInfo {
        other_actor: "x".to_string(),
        other_machine: "y".to_string(),
        other_session: "z".to_string(),
        last_activity_at: "t".to_string(),
    });
    bc.abort_reason = Some("why".to_string());
    let copy = bc.clone();
    assert_eq!(format!("{:?}", copy), format!("{:?}", bc));
    let copies = schema::copy_breadcrumbs(&vec![bc.clone(), make_test_bc("other", "_ungrouped")]);
    assert_eq!(copies.len(), 2);
    assert_eq!(copies[0].id, "bc_copy");
    assert_eq!(copies[1].id, "other");
    let entry = IndexEntry {
        id: "i".to_string(),
        project_id: None,
        name: "n".to_string(),
        owner: "o".to_string(),
        last_activity_at: "l".to_string(),
        started_at: "s".to_string(),
    };
    assert_eq!(format!("{:?}", entry.clone()), format!("{:?}", entry));
}
