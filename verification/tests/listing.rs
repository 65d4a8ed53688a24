use cpc_breadcrumbs::clock::{day_name, today, Timestamp};
use cpc_breadcrumbs::index::{index_upsert, Index};
use cpc_breadcrumbs::layout::Layout;
use cpc_breadcrumbs::listing::{is_reached, list, list_at, status, status_at};
use cpc_breadcrumbs::reconcile::{
    check_entry, hand_over, handoff_content, reconcile, reconcile_at, scan, scan_at, Handoffs,
    ReconcileReport, StaleEntry,
};
use cpc_breadcrumbs::schema::{Breadcrumb, IndexEntry, WriterContext};
use cpc_breadcrumbs::storage::{write_breadcrumb, Dir, FileContent};
use cpc_breadcrumbs::table::Table;
use cpc_breadcrumbs::tracker::{read_active_index, start, start_at, Tracker};

const NOON: i64 = 1_709_294_400;
const DAY: i32 = 738_946;

fn layout() -> Layout {
    Layout {
        volumes: None,
        state_dir: None,
        archive_dir: None,
        handoff_dir: Some("/hand".to_string()),
        separator: '/',
    }
}

fn make_test_bc(id: &str, started_at: &str) -> Breadcrumb {
    Breadcrumb {
        id: id.to_string(),
        name: format!("Test BC {}", id),
        project_id: None,
        owner: "test_actor".to_string(),
        writer_actor: "test_actor".to_string(),
        writer_machine: "test_machine".to_string(),
        writer_session: "session_default".to_string(),
        writer_at: started_at.to_string(),
        started_at: started_at.to_string(),
        last_activity_at: started_at.to_string(),
        steps: vec!["step1".to_string(), "step2".to_string()],
        current_step: 0,
        total_steps: 2,
        step_results: Vec::new(),
        files_changed: Vec::new(),
        stale: false,
        conflict_warning: None,
        aborted: false,
        abort_reason: None,
        auto_started: false,
    }
}

fn place_archived(t: &mut Tracker, date: &str, bc: &Breadcrumb) {
    let mut day: Dir = match t.storage.completed.remove(date) {
        Some(day) => day,
        None => Table::new(),
    };
    write_breadcrumb(&mut day, bc);
    t.storage.completed.insert(date.to_string(), day);
}

fn entry(id: &str, project_id: Option<&str>, name: &str, last: String, started: String) -> IndexEntry {
    IndexEntry {
        id: id.to_string(),
        project_id: project_id.map(|p| p.to_string()),
        name: name.to_string(),
        owner: "tester".to_string(),
        last_activity_at: last,
        started_at: started,
    }
}

fn ids(t: &Tracker, scope: &str) -> Vec<String> {
    list_at(t, Some(scope), DAY)
        .unwrap()
        .breadcrumbs
        .into_iter()
        .map(|b| b.id)
        .collect()
}

#[test]
fn test_d2_list_active_scope_reads_only_index() {
    let mut t = Tracker::new();
    let ctx = WriterContext::new("tester", "test_machine", "sess_d2");

    // Start two breadcrumbs (active)
    let r1 = start(&mut t, "Active BC 1", vec!["s1".into()], None, &ctx).unwrap();
    let r2 = start(&mut t, "Active BC 2", vec!["s1".into()], None, &ctx).unwrap();

    // Place a completed archive entry
    let date = day_name(today());
    let now = chrono::Utc::now().to_rfc3339();
    let mut fake_bc = make_test_bc("bc_archived_fake", &now);
    fake_bc.name = "Archived Fake".to_string();
    place_archived(&mut t, &date, &fake_bc);

    // list(scope="active") should return ONLY the 2 active entries
    let active_list = list(&t, Some("active")).unwrap();
    assert_eq!(active_list.count, 2, "active scope should have 2 entries");
    assert!(
        !active_list.breadcrumbs.iter().any(|b| b.id == "bc_archived_fake"),
        "archived entry should NOT appear in active scope"
    );

    // list(scope="today") should return all 3 (2 active + 1 archived)
    let today_list = list(&t, Some("today")).unwrap();
    assert_eq!(today_list.count, 3, "today scope should have 3 entries");

    // status() should also return only index entries
    let st = status(&t, None).unwrap();
    assert_eq!(st.count, Some(2), "status should show 2 active entries");

    assert_ne!(r1.id, r2.id);
}

#[test]
fn scopes_reach_back_by_days() {
    let mut t = Tracker::new();
    let ctx = WriterContext::new("me", "box", "s1");
    let at = Timestamp::new(NOON, 0).unwrap();
    let id = start_at(&mut t, "now", vec![], None, &ctx, &at).unwrap().id;
    place_archived(&mut t, "2024-03-01", &make_test_bc("bc_today", "2024-03-01T01:00:00+00:00"));
    place_archived(&mut t, "2024-02-23", &make_test_bc("bc_week", "2024-02-23T01:00:00+00:00"));
    place_archived(&mut t, "2024-02-22", &make_test_bc("bc_before", "2024-02-22T01:00:00+00:00"));
    place_archived(&mut t, "undated", &make_test_bc("bc_undated", "2020-01-01T00:00:00+00:00"));
    assert_eq!(ids(&t, "active"), vec![id.clone()]);
    assert_eq!(ids(&t, "today"), vec![id.as_str(), "bc_today", "bc_undated"]);
    assert_eq!(ids(&t, "week"), vec![id.as_str(), "bc_today", "bc_week", "bc_undated"]);
    let all = vec![id.as_str(), "bc_today", "bc_week", "bc_before", "bc_undated"];
    assert_eq!(ids(&t, "all"), all);
    assert_eq!(ids(&t, "whatever"), all);
    let unscoped = list_at(&t, None, DAY).unwrap();
    assert_eq!(unscoped.scope, "active");
    assert_eq!(unscoped.count, 1);
}

#[test]
fn undated_directories_are_always_reached() {
    for scope in ["today", "week", "all"] {
        assert!(is_reached(scope, None, DAY));
        assert!(is_reached(scope, Some(DAY + 1), DAY));
    }
    assert!(is_reached("today", Some(DAY), DAY));
    assert!(!is_reached("today", Some(DAY - 1), DAY));
    assert!(is_reached("week", Some(DAY - 7), DAY));
    assert!(!is_reached("week", Some(DAY - 8), DAY));
    assert!(is_reached("all", Some(i32::MIN), i32::MIN));
    assert!(is_reached("week", Some(i32::MIN), i32::MIN));
}

#[test]
fn rows_show_active_and_archived() {
    let mut t = Tracker::new();
    let ctx = WriterContext::new("me", "box", "s1");
    let at = Timestamp::new(NOON, 0).unwrap();
    start_at(&mut t, "now", vec![], Some("p".to_string()), &ctx, &at).unwrap();
    let mut bc = make_test_bc("bc_done", "2024-03-01T01:00:00+00:00");
    bc.aborted = true;
    place_archived(&mut t, "2024-03-01", &bc);
    let r = list_at(&t, Some("all"), DAY).unwrap();
    assert_eq!((r.scope.as_str(), r.count), ("all", 2));
    let a = &r.breadcrumbs[0];
    assert!(a.active && !a.aborted);
    assert_eq!((a.name.as_str(), a.owner.as_str(), a.project_id.as_deref()), ("now", "me", Some("p")));
    assert_eq!((a.steps_completed, a.total_steps), (None, None));
    let b = &r.breadcrumbs[1];
    assert!(!b.active && b.aborted);
    assert_eq!((b.steps_completed, b.total_steps), (Some(0), Some(2)));
    assert_eq!(b.last_activity_at, "2024-03-01T01:00:00+00:00");
}

#[test]
fn no_breadcrumb_is_listed_twice() {
    let mut t = Tracker::new();
    let ctx = WriterContext::new("me", "box", "s1");
    let at = Timestamp::new(NOON, 0).unwrap();
    let id = start_at(&mut t, "now", vec![], None, &ctx, &at).unwrap().id;
    place_archived(&mut t, "2024-03-01", &make_test_bc(&id, "2024-03-01T01:00:00+00:00"));
    place_archived(&mut t, "2024-02-29", &make_test_bc("bc_x", "2024-02-29T01:00:00+00:00"));
    place_archived(&mut t, "2024-02-28", &make_test_bc("bc_x", "2024-02-28T01:00:00+00:00"));
    let r = list_at(&t, Some("all"), DAY).unwrap();
    assert_eq!(r.count, 2);
    assert!(r.breadcrumbs[0].active);
    assert_eq!(r.breadcrumbs[1].id, "bc_x");
}

#[test]
fn rows_of_one_start_keep_their_order() {
    let mut t = Tracker::new();
    for (id, at) in [("c", "2"), ("a", "1"), ("d", "2"), ("b", "3"), ("e", "1")] {
        place_archived(&mut t, "2024-03-01", &make_test_bc(id, at));
    }
    let mut odd: Dir = Table::new();
    odd.insert("skip.txt".to_string(), FileContent::Parsed(make_test_bc("f", "9")));
    odd.insert("bad.json".to_string(), FileContent::Malformed("eof".to_string()));
    t.storage.completed.insert("2024-02-01".to_string(), odd);
    assert_eq!(ids(&t, "all"), vec!["b", "c", "d", "a", "e"]);
}

#[test]
fn status_filters_by_project_and_marks_stale() {
    let mut index: Index = Table::new();
    let at = Timestamp::new(NOON, 0).unwrap();
    index_upsert(&mut index, entry("a", Some("p"), "A", "2024-03-01T08:00:00Z".into(), "s".into()));
    index_upsert(&mut index, entry("b", None, "B", "2024-03-01T08:00:01Z".into(), "s".into()));
    index_upsert(&mut index, entry("c", Some("q"), "C", "?".into(), "s".into()));
    let all = status_at(&index, None, &at).unwrap();
    assert!(all.active);
    assert_eq!(all.count, Some(3));
    let stale: Vec<bool> = all.breadcrumbs.iter().map(|b| b.stale).collect();
    assert_eq!(stale, vec![true, false, false]);
    let p = status_at(&index, Some("p"), &at).unwrap();
    assert_eq!(p.count, Some(1));
    assert_eq!(p.breadcrumbs[0].id, "a");
    assert_eq!(p.breadcrumbs[0].project_id.as_deref(), Some("p"));
    let ungrouped = status_at(&index, Some("_ungrouped"), &at).unwrap();
    assert!(ungrouped.active);
    assert_eq!(ungrouped.count, Some(1));
    assert_eq!(ungrouped.breadcrumbs[0].id, "b");
    assert_eq!(ungrouped.breadcrumbs[0].project_id, None);
    let none = status_at(&index, Some("r"), &at).unwrap();
    assert!(!none.active);
    assert_eq!(none.count, None);
    assert!(none.breadcrumbs.is_empty());
}

#[test]
fn test_d4_reconcile_moves_stale_to_handoff() {
    // The active index with 3 entries:
    // 1. fresh (just now)
    // 2. stale + untouched (50h ago)
    // 3. stale but recently updated (50h started, but last_activity 10 min ago)
    let now = chrono::Utc::now();
    let fresh_time = now.to_rfc3339();
    let stale_time = (now - chrono::Duration::hours(50)).to_rfc3339();
    let recent_time = (now - chrono::Duration::minutes(10)).to_rfc3339();

    let mut t = Tracker::new();
    t.index.insert(
        "bc_fresh".to_string(),
        entry("bc_fresh", None, "Fresh BC", fresh_time.clone(), fresh_time),
    );
    t.index.insert(
        "bc_stale_untouched".to_string(),
        entry(
            "bc_stale_untouched",
            Some("proj_a"),
            "Stale Untouched BC",
            stale_time.clone(),
            stale_time.clone(),
        ),
    );
    t.index.insert(
        "bc_stale_recent".to_string(),
        entry("bc_stale_recent", None, "Stale But Recent BC", recent_time, stale_time),
    );

    // Run reconcile with 48h threshold
    let mut handoffs: Handoffs = Table::new();
    let report = reconcile(&mut t, &mut handoffs, &layout(), 48);

    assert_eq!(report.scanned, 3, "Should scan 3 entries");
    assert_eq!(
        report.stale_found.len(),
        1,
        "Only 1 entry should be stale (bc_stale_untouched)"
    );
    assert_eq!(report.stale_found[0].id, "bc_stale_untouched");
    assert!(
        report.stale_found[0].hours_stale >= 49,
        "Should be ~50h stale"
    );
    assert_eq!(report.handoff_entries_written, 1);
    assert!(report.handoff_path.is_some(), "Handoff file should be written");

    // Verify active index lost the stale entry
    let updated_index = read_active_index(&t);
    assert_eq!(updated_index.len(), 2, "Index should have 2 entries after reconcile");
    assert!(updated_index.contains_key("bc_fresh"), "Fresh entry should remain");
    assert!(
        updated_index.contains_key("bc_stale_recent"),
        "Recent-activity entry should remain"
    );
    assert!(
        !updated_index.contains_key("bc_stale_untouched"),
        "Stale entry should be removed"
    );

    // Verify handoff file content
    let content = handoffs.get(report.handoff_path.as_ref().unwrap()).unwrap();
    assert!(content.contains("# Pending Breadcrumbs"), "Should have markdown header");
    assert!(
        content.contains("Stale Untouched BC"),
        "Should contain the stale breadcrumb name"
    );
    assert!(
        content.contains("bc_stale_untouched"),
        "Should contain the stale breadcrumb ID"
    );
    assert!(content.contains("proj_a"), "Should contain the project ID");
}

#[test]
fn reconciliation_falls_back_to_the_start() {
    let at = Timestamp::new(NOON, 0).unwrap();
    let old = "2024-02-28T12:00:00Z";
    let e = entry("x", None, "X", "?".into(), old.into());
    let found = check_entry("key", &e, 24, &at).unwrap();
    assert_eq!(found.id, "key");
    assert_eq!(found.hours_stale, 48);
    assert_eq!(found.project_id, "ungrouped");
    assert_eq!(found.last_activity_at, "?");
    assert!(check_entry("key", &entry("x", None, "X", "?".into(), "?".into()), 24, &at).is_none());
    assert!(check_entry("key", &e, 48, &at).is_none());
    assert!(check_entry("key", &e, 47, &at).is_some());
}

#[test]
fn reconciliation_splits_the_index() {
    let at = Timestamp::new(NOON, 0).unwrap();
    let mut t = Tracker::new();
    for (id, last) in [
        ("a", "2024-02-28T12:00:00Z"),
        ("b", "2024-03-01T11:30:00Z"),
        ("c", "2024-03-01T11:29:59Z"),
        ("d", "2024-03-02T12:00:00Z"),
    ] {
        index_upsert(&mut t.index, entry(id, None, id, last.into(), last.into()));
    }
    let mut handoffs: Handoffs = Table::new();
    let r = reconcile_at(&mut t, &mut handoffs, &layout(), 0, &at, "2024-03-01");
    let gone: Vec<&str> = r.stale_found.iter().map(|s| s.id.as_str()).collect();
    assert_eq!(gone, vec!["a", "c"]);
    assert_eq!((r.scanned, r.handoff_entries_written), (4, 2));
    let path = "/hand/pending_breadcrumbs_2024-03-01.md";
    assert_eq!(r.handoff_path.as_deref(), Some(path));
    assert_eq!(
        handoffs.get(path).unwrap(),
        &handoff_content(String::new(), "2024-03-01", &r.stale_found)
    );
    assert_eq!(read_active_index(&t).len(), 2);
    let again = reconcile_at(&mut t, &mut handoffs, &layout(), 0, &at, "2024-03-02");
    assert!(again.stale_found.is_empty());
    assert!(again.handoff_path.is_none());
    assert_eq!((again.scanned, again.handoff_entries_written), (2, 0));
    assert_eq!(handoffs.len(), 1);
}

#[test]
fn a_second_handoff_of_a_day_is_added() {
    let at = Timestamp::new(NOON, 0).unwrap();
    let old = "2024-02-28T12:00:00Z";
    let mut t = Tracker::new();
    let mut handoffs: Handoffs = Table::new();
    index_upsert(&mut t.index, entry("a", None, "a", old.into(), old.into()));
    let first = reconcile_at(&mut t, &mut handoffs, &layout(), 1, &at, "2024-03-01");
    let path = first.handoff_path.unwrap();
    let before = handoffs.get(&path).unwrap().clone();
    index_upsert(&mut t.index, entry("b", None, "b", old.into(), old.into()));
    reconcile_at(&mut t, &mut handoffs, &layout(), 1, &at, "2024-03-01");
    let after = handoffs.get(&path).unwrap();
    assert!(after.starts_with(&before));
    assert!(after.contains("## a\n") && after.contains("## b\n"));
    assert!(!read_active_index(&t).contains_key("a"));
    assert!(!read_active_index(&t).contains_key("b"));
}

#[test]
fn what_is_not_handed_over_stays() {
    let at = Timestamp::new(NOON, 0).unwrap();
    let old = "2024-02-28T12:00:00Z";
    let mut t = Tracker::new();
    index_upsert(&mut t.index, entry("a", Some("p"), "A", old.into(), old.into()));
    let report = scan_at(&t, 24, &at);
    assert_eq!((report.scanned, report.stale_found.len()), (1, 1));
    assert_eq!((report.handoff_entries_written, report.handoff_path.as_deref()), (0, None));
    let failed = hand_over(&mut t, report.clone(), None);
    assert_eq!(failed.stale_found.len(), 1);
    assert_eq!((failed.handoff_entries_written, failed.handoff_path.as_deref()), (0, None));
    assert!(read_active_index(&t).contains_key("a"));
    let written = hand_over(&mut t, report, Some("/hand/x.md".to_string()));
    assert_eq!(written.handoff_entries_written, 1);
    assert_eq!(written.handoff_path.as_deref(), Some("/hand/x.md"));
    assert!(!read_active_index(&t).contains_key("a"));
}

#[test]
fn a_huge_threshold_reconciles_nothing() {
    let mut t = Tracker::new();
    let mut handoffs: Handoffs = Table::new();
    let old = (chrono::Utc::now() - chrono::Duration::minutes(31)).to_rfc3339();
    index_upsert(&mut t.index, entry("a", None, "A", old.clone(), old));
    let report = reconcile(&mut t, &mut handoffs, &layout(), u64::MAX);
    assert!(report.stale_found.is_empty());
    assert_eq!(read_active_index(&t).len(), 1);
    assert_eq!(handoffs.len(), 0);
    assert!(scan(&t, u64::MAX).stale_found.is_empty());
    assert_eq!(scan(&t, 0).stale_found.len(), 1);
}

fn stale(id: &str) -> StaleEntry {
    StaleEntry {
        id: id.to_string(),
        name: format!("Name {}", id),
        last_activity_at: "then".to_string(),
        hours_stale: 50,
        project_id: "proj_a".to_string(),
    }
}

#[test]
fn the_handoff_file_grows() {
    let first = handoff_content(String::new(), "2024-03-01", &vec![stale("a")]);
    assert_eq!(
        first,
        "# Pending Breadcrumbs - 2024-03-01\n\n## Name a\n- ID: a\n- Last activity: then\n- Hours stale: 50\n- Project: proj_a\n\n---\n\n"
    );
    let second = handoff_content(first.clone(), "2024-03-01", &vec![stale("b")]);
    assert!(second.starts_with(&first));
    assert_eq!(
        second,
        handoff_content(String::new(), "2024-03-01", &vec![stale("a"), stale("b")])
    );
    assert_eq!(handoff_content("notes".to_string(), "d", &vec![]), "notes\n");
    assert_eq!(handoff_content("notes\n".to_string(), "d", &vec![]), "notes\n");
}

#[test]
fn a_report_is_copied() {
    let r = ReconcileReport {
        scanned: 3,
        stale_found: vec![stale("a"), stale("b")],
        handoff_path: Some("p".to_string()),
        handoff_entries_written: 2,
    };
    assert_eq!(format!("{:?}", r.clone()), format!("{:?}", r));
}
