use cpc_breadcrumbs::archive;
use cpc_breadcrumbs::clock::{day_name, today, Timestamp};
use cpc_breadcrumbs::error::BreadcrumbError;
use cpc_breadcrumbs::index::{index_remove, index_upsert, project_name, resolve};
use cpc_breadcrumbs::layout::Layout;
use cpc_breadcrumbs::response::AbortResponse;
use cpc_breadcrumbs::schema::{Breadcrumb, IndexEntry, WriterContext};
use cpc_breadcrumbs::storage::{read_breadcrumb, write_breadcrumb, Dir};
use cpc_breadcrumbs::table::Table;
use cpc_breadcrumbs::tracker::{
    abort, abort_at, active_count, adopt, adopt_at, backup, backup_at, can_step, complete,
    complete_at, finish_abort, finish_complete, finish_reap, has_active, list_active,
    load_project_bcs, plan_abort_at, plan_complete_at, plan_reap, plan_reap_at, read_active_index,
    reap, reap_at, start, start_at, start_auto, start_auto_at, step, step_at, take_in, take_in_all,
    AbortPlan, Tracker,
};

const NOON: i64 = 1_709_294_400;
const DAY: i32 = 738_946;

fn at(secs: i64) -> Timestamp {
    Timestamp::new(NOON + secs, 0).unwrap()
}

fn layout() -> Layout {
    Layout {
        volumes: Some("/vol".to_string()),
        state_dir: None,
        archive_dir: None,
        handoff_dir: None,
        separator: '/',
    }
}

fn texts(v: &[&str]) -> Vec<String> {
    v.iter().map(|s| s.to_string()).collect()
}

fn archived_on<'a>(t: &'a Tracker, date: &str) -> &'a Dir {
    t.storage.completed.get(date).unwrap()
}

fn make_test_bc(id: &str) -> Breadcrumb {
    let now = chrono::Utc::now().to_rfc3339();
    Breadcrumb {
        id: id.to_string(),
        name: format!("Test BC {}", id),
        project_id: None,
        owner: "test_actor".to_string(),
        writer_actor: "test_actor".to_string(),
        writer_machine: "test_machine".to_string(),
        writer_session: "session_default".to_string(),
        writer_at: now.clone(),
        started_at: now.clone(),
        last_activity_at: now,
        steps: texts(&["step1", "step2"]),
        current_step: 0,
        total_steps: 2,
        step_results: Vec::new(),
        files_changed: Vec::new(),
        stale: false,
        conflict_warning: None,
        aborted: false,
        abort_reason: None,
        auto_started: false,
    }
}

fn place_archived(t: &mut Tracker, date: &str, bc: &Breadcrumb) {
    let mut day: Dir = match t.storage.completed.remove(date) {
        Some(day) => day,
        None => Table::new(),
    };
    write_breadcrumb(&mut day, bc);
    t.storage.completed.insert(date.to_string(), day);
}

#[test]
fn active_breadcrumbs_have_files() {
    let mut t = Tracker::new();
    let ctx = WriterContext::new("me", "box", "s1");
    let a = start_at(&mut t, "a", texts(&["x"]), Some("p".to_string()), &ctx, &at(0)).unwrap().id;
    let b = start_at(&mut t, "b", texts(&["x"]), None, &ctx, &at(1)).unwrap().id;
    step_at(&mut t, "r", vec![], Some(&a), &ctx, &at(2)).unwrap();
    let listed: Vec<String> = list_active(&t).into_iter().map(|x| x.id).collect();
    assert_eq!(listed, vec![a.clone(), b.clone()]);
    assert_eq!(read_breadcrumb(&t.storage.active, &a).unwrap().current_step, 1);
    adopt_at(&mut t, &layout(), &b, &WriterContext::new("you", "m", "s2"), &at(3), DAY).unwrap();
    assert_eq!(read_breadcrumb(&t.storage.active, &b).unwrap().owner, "you");
    complete_at(&mut t, &layout(), "done", Some(&a), &ctx, &at(4), DAY).unwrap();
    let listed: Vec<String> = list_active(&t).into_iter().map(|x| x.id).collect();
    assert_eq!(listed, vec![b]);
}

#[test]
fn what_is_reaped_is_not_active_any_more() {
    let mut t = Tracker::new();
    let ctx = WriterContext::new("me", "box", "s1");
    let old = start_at(&mut t, "old", vec![], None, &ctx, &at(0)).unwrap().id;
    let new = start_at(&mut t, "new", vec![], None, &ctx, &at(3601)).unwrap().id;
    let ids = reap_at(&mut t, 1, &at(7201), "2024-03-01");
    assert_eq!(ids, vec![old.clone()]);
    assert_eq!(active_count(&t), 1);
    assert_eq!(load_project_bcs(&t, "_ungrouped")[0].id, new);
    assert_eq!(list_active(&t).len(), 1);
    match abort_at(&mut t, &layout(), "again", Some(&old), &ctx, &at(7202), DAY).unwrap() {
        AbortResponse::AlreadyArchived { result_type, reason, .. } => {
            assert_eq!(result_type, "aborted");
            assert_eq!(reason.as_deref(), Some("auto-reaped: stale >1h on server restart"));
        }
        other => panic!("{:?}", other),
    }
    assert_eq!(reap(&mut t, 1), vec![new]);
    assert!(!has_active(&t));
}

#[test]
fn a_migrated_breadcrumb_can_be_stepped() {
    let mut t = Tracker::new();
    let ctx = WriterContext::new("me", "box", "s1");
    take_in(&mut t, &make_test_bc("bc_moved"));
    assert_eq!(step_at(&mut t, "r", vec![], None, &ctx, &at(0)).unwrap().current, 1);
    assert_eq!(list_active(&t).len(), 1);
    take_in(&mut t, &make_test_bc("bc_moved"));
    let bcs = load_project_bcs(&t, "_ungrouped");
    assert_eq!(bcs.len(), 1);
    assert_eq!(bcs[0].current_step, 0);
    assert_eq!(read_active_index(&t).get("bc_moved").unwrap().name, "Test BC bc_moved");
    take_in_all(&mut t, &vec![make_test_bc("bc_other"), make_test_bc("bc_moved")]);
    assert_eq!(active_count(&t), 2);
    assert_eq!(list_active(&t).len(), 2);
}

#[test]
fn operations_on_different_breadcrumbs_commute() {
    let ctx = WriterContext::new("me", "box", "s1");
    let run = |first_a: bool| {
        let mut t = Tracker::new();
        let p = Some("p".to_string());
        let a = start_at(&mut t, "a", texts(&["x"]), p.clone(), &ctx, &at(0)).unwrap().id;
        let b = start_at(&mut t, "b", texts(&["x"]), p, &ctx, &at(1)).unwrap().id;
        if first_a {
            step_at(&mut t, "ra", vec![], Some(&a), &ctx, &at(5)).unwrap();
            step_at(&mut t, "rb", vec![], Some(&b), &ctx, &at(6)).unwrap();
        } else {
            step_at(&mut t, "rb", vec![], Some(&b), &ctx, &at(6)).unwrap();
            step_at(&mut t, "ra", vec![], Some(&a), &ctx, &at(5)).unwrap();
        }
        format!(
            "{:?}{:?}{:?}",
            load_project_bcs(&t, "p"),
            read_active_index(&t).get(&a),
            read_active_index(&t).get(&b)
        )
    };
    assert_eq!(run(true), run(false));
}

#[test]
fn starts_in_projects_are_kept_apart() {
    let ctx = WriterContext::new("me", "box", "s1");
    let mut t = Tracker::new();
    let a = start_at(&mut t, "a", vec![], Some("p".to_string()), &ctx, &at(0)).unwrap().id;
    let b = start_at(&mut t, "b", vec![], Some("q".to_string()), &ctx, &at(1)).unwrap().id;
    let c = start_at(&mut t, "c", vec![], Some("p".to_string()), &ctx, &at(2)).unwrap().id;
    let ids = |pid: &str| -> Vec<String> {
        load_project_bcs(&t, pid).into_iter().map(|x| x.id).collect()
    };
    assert_eq!(ids("p"), vec![a, c]);
    assert_eq!(ids("q"), vec![b]);
}

#[test]
fn a_new_tracker_is_empty() {
    let t = Tracker::new();
    assert!(!has_active(&t));
    assert_eq!(active_count(&t), 0);
    assert_eq!(read_active_index(&t).len(), 0);
    assert!(list_active(&t).is_empty());
    assert!(load_project_bcs(&t, "_ungrouped").is_empty());
}

#[test]
fn start_files_the_breadcrumb() {
    let mut t = Tracker::new();
    let ctx = WriterContext::new("me", "box", "s1");
    let r = start_at(&mut t, "Do It", texts(&["a", "b"]), Some("p".to_string()), &ctx, &at(0)).unwrap();
    assert_eq!(r.status, "started");
    assert_eq!(r.id, "bc_1709294400000000000_do_it");
    assert_eq!(r.name, "Do It");
    assert_eq!(r.project_id, "p");
    assert_eq!(r.steps, texts(&["a", "b"]));
    assert_eq!(r.total_steps, 2);
    assert_eq!(r.auto_started, None);
    let bcs = load_project_bcs(&t, "p");
    assert_eq!(bcs.len(), 1);
    let bc = &bcs[0];
    assert_eq!(bc.id, r.id);
    assert_eq!(bc.project_id.as_deref(), Some("p"));
    assert_eq!((bc.owner.as_str(), bc.writer_machine.as_str(), bc.writer_session.as_str()), ("me", "box", "s1"));
    assert_eq!(bc.started_at, "2024-03-01T12:00:00+00:00");
    assert_eq!(bc.last_activity_at, bc.started_at);
    assert_eq!(bc.writer_at, bc.started_at);
    assert_eq!((bc.current_step, bc.total_steps), (0, 2));
    assert!(!bc.stale && !bc.aborted && !bc.auto_started);
    let entry = read_active_index(&t).get(&r.id).unwrap();
    assert_eq!(entry.id, r.id);
    assert_eq!(entry.owner, "me");
    assert_eq!(entry.name, "Do It");
    assert_eq!(entry.started_at, bc.started_at);
    assert!(has_active(&t));
    assert_eq!(active_count(&t), 1);
}

#[test]
fn an_automatic_start_is_marked() {
    let mut t = Tracker::new();
    let ctx = WriterContext::new("me", "box", "s1");
    let r = start_auto_at(&mut t, "auto", vec![], None, &ctx, &at(0)).unwrap();
    assert_eq!(r.project_id, "_ungrouped");
    assert_eq!(r.auto_started, Some(true));
    assert!(load_project_bcs(&t, "_ungrouped")[0].auto_started);
    assert!(load_project_bcs(&t, "_ungrouped")[0].project_id.is_none());
    let r2 = start_auto(&mut t, "auto", vec![], None, &ctx).unwrap();
    assert_eq!(r2.auto_started, Some(true));
    assert_eq!(active_count(&t), 2);
}

#[test]
fn steps_advance_and_are_recorded() {
    let mut t = Tracker::new();
    let ctx = WriterContext::new("me", "box", "s1");
    let id = start_at(&mut t, "op", texts(&["one", "two"]), None, &ctx, &at(0)).unwrap().id;
    let r = step_at(&mut t, "done 1", texts(&["x.rs"]), None, &ctx, &at(5)).unwrap();
    assert_eq!(r.step_completed, "one");
    assert_eq!((r.current, r.total, r.remaining), (1, 2, 1));
    assert_eq!(r.breadcrumb_id, id);
    assert!(r.conflict_warning.is_none());
    let r = step_at(&mut t, "done 2", texts(&["y.rs", "x.rs"]), Some(&id), &ctx, &at(6)).unwrap();
    assert_eq!(r.step_completed, "two");
    assert_eq!((r.current, r.remaining), (2, 0));
    let r = step_at(&mut t, "more", vec![], Some(&id), &ctx, &at(7)).unwrap();
    assert_eq!(r.step_completed, "step_3");
    assert_eq!((r.current, r.total, r.remaining), (3, 2, 0));
    let bc = &load_project_bcs(&t, "_ungrouped")[0];
    assert_eq!(bc.current_step, 3);
    assert_eq!(bc.files_changed, texts(&["x.rs", "y.rs", "x.rs"]));
    let idx: Vec<usize> = bc.step_results.iter().map(|s| s.step_idx).collect();
    assert_eq!(idx, vec![0, 1, 2]);
    assert_eq!(bc.step_results[1].result, "done 2");
    assert_eq!(bc.step_results[1].at, "2024-03-01T12:00:06+00:00");
    assert_eq!(bc.step_results[1].files_changed, texts(&["y.rs", "x.rs"]));
    assert_eq!(bc.last_activity_at, "2024-03-01T12:00:07+00:00");
    assert_eq!(
        read_active_index(&t).get(&id).unwrap().last_activity_at,
        "2024-03-01T12:00:07+00:00"
    );
}

#[test]
fn a_step_of_another_session_warns() {
    let mut t = Tracker::new();
    let a = WriterContext::new("alice", "box_a", "s_a");
    let b = WriterContext::new("bob", "box_b", "s_b");
    start_at(&mut t, "op", texts(&["one", "two", "three"]), None, &a, &at(0)).unwrap();
    let r = step_at(&mut t, "r", vec![], None, &b, &at(30)).unwrap();
    let c = r.conflict_warning.unwrap();
    assert_eq!(c.other_actor, "alice");
    assert_eq!(c.other_machine, "box_a");
    assert_eq!(c.other_session, "s_a");
    assert_eq!(c.last_activity_at, "2024-03-01T12:00:00+00:00");
    let again = step_at(&mut t, "r", vec![], None, &b, &at(31)).unwrap();
    assert!(again.conflict_warning.is_none());
    // The earlier warning stays on the record.
    let bc = &load_project_bcs(&t, "_ungrouped")[0];
    assert_eq!(bc.conflict_warning.as_ref().unwrap().other_session, "s_a");
    let late = step_at(&mut t, "r", vec![], None, &a, &at(62)).unwrap();
    assert!(late.conflict_warning.is_none());
}

#[test]
fn an_operation_leaves_others_alone() {
    let mut t = Tracker::new();
    let ctx = WriterContext::new("me", "box", "s1");
    let a = start_at(&mut t, "a", texts(&["x"]), Some("p".to_string()), &ctx, &at(0)).unwrap().id;
    let b = start_at(&mut t, "b", texts(&["x"]), Some("p".to_string()), &ctx, &at(1)).unwrap().id;
    let c = start_at(&mut t, "c", texts(&["x"]), Some("q".to_string()), &ctx, &at(2)).unwrap().id;
    let before = format!("{:?}{:?}", load_project_bcs(&t, "p")[1], load_project_bcs(&t, "q"));
    step_at(&mut t, "r", vec![], Some(&a), &ctx, &at(9)).unwrap();
    adopt_at(&mut t, &layout(), &a, &WriterContext::new("you", "m", "s2"), &at(10), DAY).unwrap();
    let after = format!("{:?}{:?}", load_project_bcs(&t, "p")[1], load_project_bcs(&t, "q"));
    assert_eq!(before, after);
    complete_at(&mut t, &layout(), "done", Some(&a), &ctx, &at(11), DAY).unwrap();
    let left: Vec<String> = load_project_bcs(&t, "p").into_iter().map(|b| b.id).collect();
    assert_eq!(left, vec![b.clone()]);
    assert_eq!(load_project_bcs(&t, "q")[0].id, c);
    assert_eq!(active_count(&t), 2);
    assert!(read_active_index(&t).contains_key(&b) && read_active_index(&t).contains_key(&c));
}

#[test]
fn without_an_id_exactly_one_must_be_active() {
    let mut t = Tracker::new();
    let ctx = WriterContext::new("me", "box", "s1");
    assert!(matches!(
        step(&mut t, "r", vec![], None, &ctx),
        Err(BreadcrumbError::NoActive)
    ));
    start_at(&mut t, "a", vec![], None, &ctx, &at(0)).unwrap();
    assert!(step(&mut t, "r", vec![], None, &ctx).is_ok());
    start_at(&mut t, "b", vec![], None, &ctx, &at(1)).unwrap();
    assert!(matches!(
        step(&mut t, "r", vec![], None, &ctx),
        Err(BreadcrumbError::Ambiguous { count: 2 })
    ));
    assert!(matches!(
        complete(&mut t, &layout(), "s", None, &ctx),
        Err(BreadcrumbError::Ambiguous { count: 2 })
    ));
    assert!(matches!(
        backup(&t, &layout(), None),
        Err(BreadcrumbError::Ambiguous { count: 2 })
    ));
    match step(&mut t, "r", vec![], Some("bc_none"), &ctx) {
        Err(BreadcrumbError::NotFound { id }) => assert_eq!(id, "bc_none"),
        other => panic!("{:?}", other),
    }
}

#[test]
fn an_entry_without_a_record_is_not_found() {
    let mut t = Tracker::new();
    let ctx = WriterContext::new("me", "box", "s1");
    index_upsert(
        &mut t.index,
        IndexEntry {
            id: "bc_lost".to_string(),
            project_id: Some("p".to_string()),
            name: "n".to_string(),
            owner: "o".to_string(),
            last_activity_at: "l".to_string(),
            started_at: "s".to_string(),
        },
    );
    assert!(can_step(&t, None));
    match step(&mut t, "r", vec![], None, &ctx) {
        Err(BreadcrumbError::NotFound { id }) => assert_eq!(id, "bc_lost"),
        other => panic!("{:?}", other),
    }
    let (id, pid) = resolve(&t.index, None).unwrap();
    assert_eq!((id.as_str(), pid.as_str()), ("bc_lost", "p"));
    index_remove(&mut t.index, "bc_lost");
    assert!(resolve(&t.index, None).is_err());
    assert_eq!(project_name(&None), "_ungrouped");
}

#[test]
fn a_full_breadcrumb_cannot_step() {
    let mut t = Tracker::new();
    let ctx = WriterContext::new("me", "box", "s1");
    let id = start(&mut t, "op", vec![], None, &ctx).unwrap().id;
    assert!(can_step(&t, Some(&id)));
    let mut bc = load_project_bcs(&t, "_ungrouped").remove(0);
    bc.current_step = usize::MAX;
    t.projects.insert("_ungrouped".to_string(), vec![bc]);
    assert!(!can_step(&t, Some(&id)));
    assert!(can_step(&t, Some("other")));
}

#[test]
fn completion_archives_under_the_day() {
    let mut t = Tracker::new();
    let a = WriterContext::new("alice", "box_a", "s_a");
    let b = WriterContext::new("bob", "box_b", "s_b");
    let id = start_at(&mut t, "op", texts(&["one"]), None, &a, &at(0)).unwrap().id;
    step_at(&mut t, "r", texts(&["f"]), None, &a, &at(1)).unwrap();
    let r = complete_at(&mut t, &layout(), "all done", None, &b, &at(100), DAY).unwrap();
    assert_eq!(r.status, "completed");
    assert_eq!((r.id.as_str(), r.name.as_str(), r.steps_completed), (id.as_str(), "op", 1));
    assert_eq!(r.files_changed, texts(&["f"]));
    assert_eq!(r.summary, "all done");
    assert_eq!(r.archived_to, format!("/vol/breadcrumbs/completed/2024-03-01/{}.json", id));
    assert!(r.extract_now);
    assert_eq!(
        r.note,
        "Review work for extraction-worthy insights (3Q gate: Reusable? Specific? New?)"
    );
    let kept = read_breadcrumb(archived_on(&t, "2024-03-01"), &id).unwrap();
    assert!(!kept.aborted);
    assert_eq!(kept.writer_actor, "bob");
    assert_eq!(kept.writer_machine, "box_b");
    assert_eq!(kept.owner, "alice");
    assert_eq!(kept.last_activity_at, "2024-03-01T12:01:40+00:00");
    assert_eq!(kept.step_results.len(), 1);
    assert!(!has_active(&t));
    assert!(load_project_bcs(&t, "_ungrouped").is_empty());
}

#[test]
fn what_is_not_archived_stays_active() {
    let mut t = Tracker::new();
    let ctx = WriterContext::new("me", "box", "s1");
    let id = start_at(&mut t, "op", texts(&["one"]), None, &ctx, &at(0)).unwrap().id;
    let shown = |t: &Tracker| {
        format!(
            "{:?}{:?}{:?}",
            load_project_bcs(t, "_ungrouped"),
            list_active(t),
            read_active_index(t).get(&id)
        )
    };
    let before = shown(&t);
    let plan = plan_complete_at(&t, &layout(), "done", None, &ctx, &at(9), DAY).unwrap();
    assert_eq!((plan.breadcrumb.id.as_str(), plan.date.as_str()), (id.as_str(), "2024-03-01"));
    match finish_complete(&mut t, plan, Err("disk full".to_string())) {
        Err(BreadcrumbError::Io(m)) => assert_eq!(m, "disk full"),
        other => panic!("{:?}", other),
    }
    assert_eq!(shown(&t), before);
    assert_eq!(t.storage.completed.len(), 0);
    let plan = plan_abort_at(&t, &layout(), "why", None, &ctx, &at(9), DAY).unwrap();
    assert!(matches!(plan, AbortPlan::Archive { .. }));
    match finish_abort(&mut t, plan, Err("disk full".to_string())) {
        Err(BreadcrumbError::Io(m)) => assert_eq!(m, "disk full"),
        other => panic!("{:?}", other),
    }
    assert_eq!(shown(&t), before);
    assert_eq!(t.storage.completed.len(), 0);
    // Both can be tried again.
    let plan = plan_complete_at(&t, &layout(), "done", Some(&id), &ctx, &at(10), DAY).unwrap();
    let r = finish_complete(&mut t, plan, Ok(())).unwrap();
    assert_eq!((r.id.as_str(), r.summary.as_str()), (id.as_str(), "done"));
    assert!(!has_active(&t));
    assert!(read_breadcrumb(archived_on(&t, "2024-03-01"), &id).is_ok());
}

#[test]
fn an_abort_in_two_parts_is_an_abort() {
    let ctx = WriterContext::new("me", "box", "s1");
    let mut t = Tracker::new();
    let mut u = Tracker::new();
    let id = start_at(&mut t, "op", texts(&["one"]), None, &ctx, &at(0)).unwrap().id;
    start_at(&mut u, "op", texts(&["one"]), None, &ctx, &at(0)).unwrap();
    let plan = plan_abort_at(&t, &layout(), "why", Some(&id), &ctx, &at(9), DAY).unwrap();
    let parts = finish_abort(&mut t, plan, Ok(())).unwrap();
    let whole = abort_at(&mut u, &layout(), "why", Some(&id), &ctx, &at(9), DAY).unwrap();
    assert_eq!(format!("{:?}", parts), format!("{:?}", whole));
    assert_eq!(
        format!("{:?}", read_breadcrumb(archived_on(&t, "2024-03-01"), &id)),
        format!("{:?}", read_breadcrumb(archived_on(&u, "2024-03-01"), &id))
    );
    assert!(!has_active(&t));
    // An abort of what is archived has nothing to write.
    let plan = plan_abort_at(&t, &layout(), "again", Some(&id), &ctx, &at(10), DAY).unwrap();
    assert!(matches!(plan, AbortPlan::AlreadyArchived { .. }));
    assert!(finish_abort(&mut t, plan, Err("unused".to_string())).is_ok());
    assert!(matches!(
        plan_abort_at(&t, &layout(), "x", Some("bc_none"), &ctx, &at(10), DAY),
        Err(BreadcrumbError::NotFound { .. })
    ));
}

#[test]
fn a_reap_leaves_what_could_not_be_copied() {
    let mut t = Tracker::new();
    let ctx = WriterContext::new("me", "box", "s1");
    let a = start_at(&mut t, "a", vec![], None, &ctx, &at(0)).unwrap().id;
    let b = start_at(&mut t, "b", vec![], None, &ctx, &at(1)).unwrap().id;
    start_at(&mut t, "c", vec![], None, &ctx, &at(7000)).unwrap();
    let gone = plan_reap_at(&t, 1, &at(7201));
    let ids: Vec<&str> = gone.iter().map(|x| x.id.as_str()).collect();
    assert_eq!(ids, vec![a.as_str(), b.as_str()]);
    assert_eq!(finish_reap(&mut t, &gone, &vec![false, true], "2024-03-01"), vec![b.clone()]);
    assert_eq!(active_count(&t), 2);
    assert!(read_active_index(&t).contains_key(&a));
    assert!(!read_breadcrumb(&t.storage.active, &a).unwrap().aborted);
    assert!(load_project_bcs(&t, "_ungrouped").iter().any(|x| x.id == a && !x.aborted));
    assert!(!read_active_index(&t).contains_key(&b));
    assert!(read_breadcrumb(archived_on(&t, "2024-03-01"), &b).unwrap().aborted);
    assert!(read_breadcrumb(archived_on(&t, "2024-03-01"), &a).is_err());
    assert_eq!(plan_reap(&t, 1).len(), 2);
    assert!(plan_reap(&t, u64::MAX).is_empty());
}

#[test]
fn steps_are_recorded_in_turn() {
    let mut t = Tracker::new();
    let ctx = WriterContext::new("me", "box", "s1");
    let steps = texts(&["one", "two", "three"]);
    let id = start_at(&mut t, "op", steps.clone(), None, &ctx, &at(0)).unwrap().id;
    let mut files = Vec::new();
    for j in 0..5usize {
        let given = vec![format!("f{}", j), "shared".to_string()];
        files.extend(given.clone());
        step_at(&mut t, &format!("r{}", j), given, Some(&id), &ctx, &at(j as i64)).unwrap();
    }
    let bc = &load_project_bcs(&t, "_ungrouped")[0];
    assert_eq!((bc.current_step, bc.total_steps), (5, 3));
    assert_eq!(bc.steps, steps);
    assert_eq!(bc.files_changed, files);
    for j in 0..5usize {
        assert_eq!(bc.step_results[j].step_idx, j);
        assert_eq!(bc.step_results[j].result, format!("r{}", j));
    }
}

#[test]
fn abort_keeps_the_machine_of_the_last_writer() {
    let mut t = Tracker::new();
    let a = WriterContext::new("alice", "box_a", "s_a");
    let b = WriterContext::new("bob", "box_b", "s_b");
    let id = start_at(&mut t, "op", texts(&["one"]), None, &a, &at(0)).unwrap().id;
    match abort_at(&mut t, &layout(), "no use", None, &b, &at(3), DAY).unwrap() {
        AbortResponse::Aborted { status, id: x, name, reason, steps_completed } => {
            assert_eq!(status, "aborted");
            assert_eq!(x, id);
            assert_eq!(name, "op");
            assert_eq!(reason, "no use");
            assert_eq!(steps_completed, 0);
        }
        other => panic!("{:?}", other),
    }
    let kept = read_breadcrumb(archived_on(&t, "2024-03-01"), &id).unwrap();
    assert!(kept.aborted);
    assert_eq!(kept.abort_reason.as_deref(), Some("no use"));
    assert_eq!(kept.writer_actor, "bob");
    assert_eq!(kept.writer_machine, "box_a");
    assert_eq!(kept.writer_session, "s_b");
}

#[test]
fn adoption_changes_the_owner() {
    let mut t = Tracker::new();
    let a = WriterContext::new("alice", "box_a", "s_a");
    let b = WriterContext::new("bob", "box_b", "s_b");
    let id = start_at(&mut t, "op", texts(&["one"]), None, &a, &at(0)).unwrap().id;
    let r = adopt_at(&mut t, &layout(), &id, &b, &at(60), DAY).unwrap();
    assert_eq!(r.status, "adopted");
    assert_eq!(r.breadcrumb_id, id);
    assert_eq!((r.new_owner.as_str(), r.prev_owner.as_str()), ("bob", "alice"));
    let bc = &load_project_bcs(&t, "_ungrouped")[0];
    assert_eq!(bc.owner, "bob");
    assert_eq!(bc.writer_session, "s_b");
    assert_eq!(bc.last_activity_at, "2024-03-01T12:01:00+00:00");
    let entry = read_active_index(&t).get(&id).unwrap();
    assert_eq!(entry.owner, "bob");
    assert_eq!(entry.last_activity_at, "2024-03-01T12:01:00+00:00");
    assert_eq!(entry.started_at, "2024-03-01T12:00:00+00:00");
    assert!(matches!(
        adopt(&mut t, &layout(), "bc_none", &b),
        Err(BreadcrumbError::NotFound { .. })
    ));
}

#[test]
fn a_snapshot_names_its_file() {
    let mut t = Tracker::new();
    let ctx = WriterContext::new("me", "box", "s1");
    let id = start_at(&mut t, "op", vec![], None, &ctx, &at(0)).unwrap().id;
    let r = backup_at(&t, &layout(), None, "20240301_120000").unwrap();
    assert_eq!(r.status, "backed_up");
    assert_eq!(r.breadcrumb_id, id);
    assert_eq!(r.breadcrumb.id, id);
    assert_eq!(r.path, format!("C:\\CPC\\backups\\breadcrumbs/{}_20240301_120000.json", id));
    assert!(backup(&t, &layout(), Some(&id)).unwrap().path.ends_with(".json"));
}

#[test]
fn test_d1_abort_archives_with_aborted_flag() {
    let mut t = Tracker::new();
    let ctx = WriterContext::new("tester", "test_machine", "sess_d1");

    // Start a breadcrumb
    let result = start(&mut t, "D1 test op", texts(&["s1", "s2"]), None, &ctx).unwrap();
    let id = result.id;

    // Abort it
    let abort_result = abort(&mut t, &layout(), "testing abort", Some(&id), &ctx).unwrap();
    match abort_result {
        AbortResponse::Aborted { status, .. } => assert_eq!(status, "aborted"),
        other => panic!("{:?}", other),
    }

    // Verify the archived file has aborted=true
    let date = day_name(today());
    let bc = read_breadcrumb(archived_on(&t, &date), &id).unwrap();
    assert!(bc.aborted, "Archived breadcrumb should have aborted=true");
    assert_eq!(bc.abort_reason.as_deref(), Some("testing abort"));

    // Now start and complete one — should NOT have aborted flag
    let result2 = start(&mut t, "D1 complete op", texts(&["s1"]), None, &ctx).unwrap();
    let id2 = result2.id;
    let _ = complete(&mut t, &layout(), "done", Some(&id2), &ctx).unwrap();

    let bc2 = read_breadcrumb(archived_on(&t, &date), &id2).unwrap();
    assert!(
        !bc2.aborted,
        "Completed breadcrumb should have aborted=false"
    );
}

#[test]
fn test_d3_abort_archived_returns_already_archived() {
    let mut t = Tracker::new();
    let ctx = WriterContext::new("tester", "test_machine", "sess_d3");
    let date = day_name(today());

    // An archived breadcrumb (completed)
    let mut completed_bc = make_test_bc("bc_completed_old");
    completed_bc.name = "Old Completed".to_string();
    place_archived(&mut t, &date, &completed_bc);

    // An archived breadcrumb (aborted)
    let mut aborted_bc = make_test_bc("bc_aborted_old");
    aborted_bc.name = "Old Aborted".to_string();
    aborted_bc.aborted = true;
    aborted_bc.abort_reason = Some("stale".to_string());
    place_archived(&mut t, &date, &aborted_bc);

    // abort on completed archived ID → already_archived
    match abort(&mut t, &layout(), "trying again", Some("bc_completed_old"), &ctx).unwrap() {
        AbortResponse::AlreadyArchived { status, result_type, name, archived_path, .. } => {
            assert_eq!(status, "already_archived");
            assert_eq!(result_type, "completed");
            assert_eq!(name, "Old Completed");
            assert_eq!(
                archived_path,
                format!("/vol/breadcrumbs/completed/{}/bc_completed_old.json", date)
            );
        }
        other => panic!("{:?}", other),
    }

    // abort on aborted archived ID → already_archived with aborted type
    match abort(&mut t, &layout(), "trying again", Some("bc_aborted_old"), &ctx).unwrap() {
        AbortResponse::AlreadyArchived { status, result_type, reason, archived_at, .. } => {
            assert_eq!(status, "already_archived");
            assert_eq!(result_type, "aborted");
            assert_eq!(reason.as_deref(), Some("stale"));
            assert_eq!(archived_at, aborted_bc.last_activity_at);
        }
        other => panic!("{:?}", other),
    }

    // adopt on archived ID → descriptive error
    let adopt_err = adopt(&mut t, &layout(), "bc_completed_old", &ctx);
    assert!(adopt_err.is_err(), "adopt on archived should fail");
    let err_msg = adopt_err.unwrap_err().message();
    assert!(
        err_msg.contains("Cannot adopt"),
        "Error should contain 'Cannot adopt': {}",
        err_msg
    );
    assert!(
        err_msg.contains("completed"),
        "Error should mention result type: {}",
        err_msg
    );
    assert_eq!(
        err_msg,
        format!(
            "Cannot adopt: breadcrumb bc_completed_old was already completed on {}. Archived at /vol/breadcrumbs/completed/{}/bc_completed_old.json.",
            completed_bc.last_activity_at, date
        )
    );

    // abort on truly non-existent ID → normal NotFound error
    let not_found = abort(&mut t, &layout(), "nope", Some("bc_does_not_exist"), &ctx);
    assert!(not_found.is_err(), "Non-existent ID should error");
}

#[test]
fn what_was_retired_is_remembered_for_a_week() {
    let mut t = Tracker::new();
    let ctx = WriterContext::new("me", "box", "s1");
    let id = start_at(&mut t, "op", vec![], None, &ctx, &at(0)).unwrap().id;
    abort_at(&mut t, &layout(), "why", Some(&id), &ctx, &at(1), DAY).unwrap();
    let other = WriterContext::new("you", "elsewhere", "s2");
    for later in DAY..=DAY + 7 {
        match abort_at(&mut t, &layout(), "again", Some(&id), &other, &at(2), later).unwrap() {
            AbortResponse::AlreadyArchived { result_type, reason, archived_path, .. } => {
                assert_eq!(result_type, "aborted");
                assert_eq!(reason.as_deref(), Some("why"));
                assert_eq!(
                    archived_path,
                    format!("/vol/breadcrumbs/completed/2024-03-01/{}.json", id)
                );
            }
            other => panic!("{:?}", other),
        }
        assert!(matches!(
            adopt_at(&mut t, &layout(), &id, &other, &at(2), later),
            Err(BreadcrumbError::Other(_))
        ));
    }
    assert!(matches!(
        abort_at(&mut t, &layout(), "again", Some(&id), &ctx, &at(2), DAY + 8),
        Err(BreadcrumbError::NotFound { .. })
    ));
}

#[test]
fn the_archive_is_searched_from_the_last_day_back() {
    let mut t = Tracker::new();
    let mut bc = make_test_bc("bc_twice");
    bc.name = "old".to_string();
    place_archived(&mut t, "2024-02-27", &bc);
    bc.name = "new".to_string();
    place_archived(&mut t, "2024-02-28", &bc);
    let (found, date) = archive::find_archived(&t.storage.completed, "bc_twice", DAY, 7).unwrap();
    assert_eq!((found.name.as_str(), date.as_str()), ("new", "2024-02-28"));
    assert!(archive::find_archived(&t.storage.completed, "bc_twice", DAY, 1).is_none());
    assert!(archive::find_archived(&t.storage.completed, "bc_other", DAY, 7).is_none());
    assert!(archive::find_archived(&t.storage.completed, "bc_twice", -95_746_129, u32::MAX).is_none());
    assert_eq!(archive::base(&layout()), "/vol/breadcrumbs/completed");
    let path = archive::archive(&mut t.storage, &layout(), &bc);
    assert_eq!(path, format!("/vol/breadcrumbs/completed/{}/bc_twice.json", day_name(today())));
}
