use cpc_breadcrumbs::clock::{day_name, today, Timestamp};
use cpc_breadcrumbs::error::BreadcrumbError;
use cpc_breadcrumbs::layout::Layout;
use cpc_breadcrumbs::migrate::{
    collect_legacy, finish_migration, migrate_legacy, migration_ends, plan_migration, Legacy,
    LegacyDirs, LegacyFile,
};
use cpc_breadcrumbs::schema::{Breadcrumb, IndexEntry, StepResult};
use cpc_breadcrumbs::storage::{
    active_count, archive_base, archive_breadcrumb, archive_breadcrumb_on, find_reapable_at,
    is_reapable, load_all_active, mutate_breadcrumb, put_archived, read_breadcrumb, reap_stale,
    reap_stale_at, remove_active, resolve, write_breadcrumb, Dir, FileContent, Storage,
};
use cpc_breadcrumbs::table::Table;

const NOON: i64 = 1_709_294_400;

fn layout() -> Layout {
    Layout {
        volumes: None,
        state_dir: None,
        archive_dir: Some("/arch".to_string()),
        handoff_dir: None,
        separator: '/',
    }
}

fn bc(id: &str, last_activity_at: &str) -> Breadcrumb {
    Breadcrumb {
        id: id.to_string(),
        name: format!("Test BC {}", id),
        project_id: None,
        owner: "o".to_string(),
        writer_actor: "a".to_string(),
        writer_machine: "m".to_string(),
        writer_session: "s".to_string(),
        writer_at: last_activity_at.to_string(),
        started_at: last_activity_at.to_string(),
        last_activity_at: last_activity_at.to_string(),
        steps: vec!["step1".to_string()],
        current_step: 0,
        total_steps: 1,
        step_results: Vec::new(),
        files_changed: Vec::new(),
        stale: false,
        conflict_warning: None,
        aborted: false,
        abort_reason: None,
        auto_started: false,
    }
}

#[test]
fn what_is_written_reads_back() {
    let mut dir: Dir = Table::new();
    write_breadcrumb(&mut dir, &bc("bc_1", "x"));
    write_breadcrumb(&mut dir, &bc("bc_2", "y"));
    write_breadcrumb(&mut dir, &bc("bc_1", "z"));
    assert_eq!(read_breadcrumb(&dir, "bc_1").unwrap().last_activity_at, "z");
    assert_eq!(read_breadcrumb(&dir, "bc_2").unwrap().last_activity_at, "y");
    assert!(dir.contains_key("bc_1.json"));
    assert_eq!(active_count(&dir), 2);
    remove_active(&mut dir, "bc_1");
    remove_active(&mut dir, "bc_1");
    match read_breadcrumb(&dir, "bc_1") {
        Err(BreadcrumbError::NotFound { id }) => assert_eq!(id, "bc_1"),
        other => panic!("{:?}", other),
    }
}

#[test]
fn bad_files_are_refused_when_read_and_skipped_when_listed() {
    let mut dir: Dir = Table::new();
    dir.insert("a.json".to_string(), FileContent::Unreadable("denied".to_string()));
    dir.insert("b.json".to_string(), FileContent::Malformed("eof".to_string()));
    dir.insert("c.json.tmp".to_string(), FileContent::Parsed(bc("c", "x")));
    write_breadcrumb(&mut dir, &bc("d", "x"));
    match read_breadcrumb(&dir, "a") {
        Err(BreadcrumbError::Io(m)) => assert_eq!(m, "denied"),
        other => panic!("{:?}", other),
    }
    match read_breadcrumb(&dir, "b") {
        Err(BreadcrumbError::Serde(m)) => assert_eq!(m, "eof"),
        other => panic!("{:?}", other),
    }
    let all = load_all_active(&dir);
    assert_eq!(all.len(), 1);
    assert_eq!(all[0].id, "d");
    assert_eq!(active_count(&dir), 3);
}

#[test]
fn a_request_resolves_to_one_file() {
    let mut dir: Dir = Table::new();
    assert!(matches!(resolve(&dir, None), Err(BreadcrumbError::NoActive)));
    dir.insert("notes.txt".to_string(), FileContent::Malformed("".to_string()));
    assert!(matches!(resolve(&dir, None), Err(BreadcrumbError::NoActive)));
    write_breadcrumb(&mut dir, &bc("bc_1.2", "x"));
    assert_eq!(resolve(&dir, None).unwrap(), "bc_1.2");
    write_breadcrumb(&mut dir, &bc("bc_2", "x"));
    assert!(matches!(resolve(&dir, None), Err(BreadcrumbError::Ambiguous { count: 2 })));
    assert_eq!(resolve(&dir, Some("bc_2")).unwrap(), "bc_2");
    assert!(matches!(resolve(&dir, Some("bc_3")), Err(BreadcrumbError::NotFound { .. })));
}

#[test]
fn a_change_is_written_or_refused() {
    let mut dir: Dir = Table::new();
    write_breadcrumb(&mut dir, &bc("bc_1", "x"));
    let changed = mutate_breadcrumb(&mut dir, "bc_1", |b: &mut Breadcrumb| {
        b.owner = "new".to_string();
        Ok(())
    })
    .unwrap();
    assert_eq!(changed.owner, "new");
    assert_eq!(read_breadcrumb(&dir, "bc_1").unwrap().owner, "new");
    let refused = mutate_breadcrumb(&mut dir, "bc_1", |b: &mut Breadcrumb| {
        b.owner = "lost".to_string();
        Err(BreadcrumbError::Other("no".to_string()))
    });
    assert!(matches!(refused, Err(BreadcrumbError::Other(_))));
    assert_eq!(read_breadcrumb(&dir, "bc_1").unwrap().owner, "new");
    let missing = mutate_breadcrumb(&mut dir, "bc_2", |_b: &mut Breadcrumb| Ok(()));
    assert!(matches!(missing, Err(BreadcrumbError::NotFound { .. })));
}

#[test]
fn archiving_moves_a_file() {
    let mut s = Storage::new();
    write_breadcrumb(&mut s.active, &bc("bc_1", "x"));
    write_breadcrumb(&mut s.active, &bc("bc_2", "x"));
    let path = archive_breadcrumb_on(&mut s, &layout(), &bc("bc_1", "y"), "2024-03-01");
    assert_eq!(path, "/arch/2024-03-01/bc_1.json");
    assert_eq!(archive_base(&layout()), "/arch");
    assert!(read_breadcrumb(&s.active, "bc_1").is_err());
    assert!(read_breadcrumb(&s.active, "bc_2").is_ok());
    let day = s.completed.get("2024-03-01").unwrap();
    assert_eq!(read_breadcrumb(day, "bc_1").unwrap().last_activity_at, "y");
    archive_breadcrumb_on(&mut s, &layout(), &bc("bc_2", "y"), "2024-03-01");
    assert_eq!(s.completed.get("2024-03-01").unwrap().len(), 2);
    let path = archive_breadcrumb(&mut s, &layout(), &bc("bc_3", "y"));
    assert_eq!(path, format!("/arch/{}/bc_3.json", day_name(today())));
}

#[test]
fn a_reap_takes_what_is_older() {
    let mut s = Storage::new();
    write_breadcrumb(&mut s.active, &bc("bc_old", "2024-02-29T11:59:59Z"));
    write_breadcrumb(&mut s.active, &bc("bc_edge", "2024-02-29T12:00:00Z"));
    write_breadcrumb(&mut s.active, &bc("bc_odd", "some day"));
    let now = Timestamp::new(NOON, 0).unwrap();
    assert!(is_reapable(&bc("x", "2024-02-29T11:59:59Z"), 24, &now));
    assert!(!is_reapable(&bc("x", "2024-02-29T12:00:00Z"), 24, &now));
    let ids = reap_stale_at(&mut s, 24, &now, "2024-03-01");
    assert_eq!(ids, vec!["bc_old".to_string()]);
    assert!(read_breadcrumb(&s.active, "bc_old").is_err());
    assert!(read_breadcrumb(&s.active, "bc_edge").is_ok());
    assert!(read_breadcrumb(&s.active, "bc_odd").is_ok());
    let kept = read_breadcrumb(s.completed.get("2024-03-01").unwrap(), "bc_old").unwrap();
    assert!(kept.aborted);
    assert_eq!(
        kept.abort_reason.as_deref(),
        Some("auto-reaped: stale >24h on server restart")
    );
    assert!(reap_stale_at(&mut s, 24, &now, "2024-03-01").is_empty());
    // By the clock of today, the other dated one is old as well.
    assert_eq!(reap_stale(&mut s, 24), vec!["bc_edge".to_string()]);
}

#[test]
fn a_reap_starts_from_what_is_found() {
    let mut s = Storage::new();
    write_breadcrumb(&mut s.active, &bc("bc_old", "2024-02-29T11:59:59Z"));
    write_breadcrumb(&mut s.active, &bc("bc_new", "2024-03-01T11:59:59Z"));
    let now = Timestamp::new(NOON, 0).unwrap();
    let found = find_reapable_at(&s.active, 24, &now);
    assert_eq!(found.len(), 1);
    assert_eq!((found[0].id.as_str(), found[0].aborted), ("bc_old", true));
    assert!(find_reapable_at(&s.active, u64::MAX, &now).is_empty());
    put_archived(&mut s, &found[0], "2024-03-01");
    assert!(read_breadcrumb(&s.active, "bc_old").is_err());
    assert!(read_breadcrumb(s.completed.get("2024-03-01").unwrap(), "bc_old").unwrap().aborted);
}

fn entry(id: &str) -> IndexEntry {
    IndexEntry {
        id: id.to_string(),
        project_id: Some("p".to_string()),
        name: format!("Entry {}", id),
        owner: "someone".to_string(),
        last_activity_at: "2024-03-01T11:00:00Z".to_string(),
        started_at: "2024-03-01T10:00:00Z".to_string(),
    }
}

fn index(ids: &[&str]) -> Option<Table<IndexEntry>> {
    let mut index: Table<IndexEntry> = Table::new();
    for id in ids {
        index.insert(id.to_string(), entry(id));
    }
    Some(index)
}

fn legacy() -> Legacy {
    Legacy {
        index: index(&["bc_1", "bc_gone"]),
        projects: Some(vec![
            LegacyFile {
                name: "p.jsonl".to_string(),
                records: vec![Some(bc("bc_1", "first")), None, Some(bc("bc_2", "x"))],
            },
            LegacyFile { name: "p.jsonl.bak".to_string(), records: vec![Some(bc("bc_3", "x"))] },
            LegacyFile { name: "q.jsonl".to_string(), records: vec![Some(bc("bc_1", "last"))] },
        ]),
    }
}

fn dirs(current: Option<Legacy>) -> LegacyDirs {
    LegacyDirs { current, renamed: Table::new() }
}

const MOMENT: &str = "20240301_120000";

#[test]
fn a_migration_recovers_orphans() {
    let mut active: Dir = Table::new();
    write_breadcrumb(&mut active, &bc("bc_0", "kept"));
    write_breadcrumb(&mut active, &bc("bc_2", "older"));
    let mut d = dirs(Some(legacy()));
    let m = migrate_legacy(&mut active, &mut d, MOMENT).unwrap();
    assert_eq!((m.migrated, m.orphans, m.errors), (3, 1, 0));
    assert_eq!(read_breadcrumb(&active, "bc_0").unwrap().last_activity_at, "kept");
    assert_eq!(read_breadcrumb(&active, "bc_1").unwrap().last_activity_at, "last");
    assert_eq!(read_breadcrumb(&active, "bc_2").unwrap().last_activity_at, "x");
    assert!(read_breadcrumb(&active, "bc_3").is_err());
    assert_eq!(collect_legacy(&legacy()).len(), 3);
    // What only the index knew is made of its entry.
    let made = read_breadcrumb(&active, "bc_gone").unwrap();
    assert_eq!(made.id, "bc_gone");
    assert_eq!(made.name, "Entry bc_gone");
    assert_eq!(made.project_id.as_deref(), Some("p"));
    assert_eq!(made.owner, "someone");
    assert_eq!(made.started_at, "2024-03-01T10:00:00Z");
    assert_eq!(made.last_activity_at, "2024-03-01T11:00:00Z");
    assert!(made.steps.is_empty() && made.step_results.is_empty() && !made.aborted);
    assert_eq!((made.current_step, made.total_steps), (0, 0));
}

#[test]
fn a_migration_can_be_run_again() {
    let mut once: Dir = Table::new();
    let mut d = dirs(Some(legacy()));
    migrate_legacy(&mut once, &mut d, MOMENT).unwrap();
    let before = format!("{:?}", load_all_active(&once));
    assert!(d.current.is_none());
    let kept = d.renamed.get("breadcrumbs.migrated_20240301_120000").unwrap();
    assert_eq!(kept.projects.as_ref().unwrap().len(), 3);
    assert_eq!(kept.index.as_ref().unwrap().len(), 2);
    // The directory is renamed, so that a second run finds nothing.
    assert!(migrate_legacy(&mut once, &mut d, "20240302_120000").is_none());
    assert_eq!(format!("{:?}", load_all_active(&once)), before);
    assert_eq!(d.renamed.len(), 1);
    migrate_legacy(&mut once, &mut dirs(Some(legacy())), MOMENT).unwrap();
    assert_eq!(format!("{:?}", load_all_active(&once)), before);
}

#[test]
fn nothing_left_behind_is_no_migration() {
    let mut active: Dir = Table::new();
    let mut d = dirs(Some(Legacy { index: None, projects: None }));
    assert!(migrate_legacy(&mut active, &mut d, MOMENT).is_none());
    assert!(d.current.is_some());
    let no_records = Legacy {
        index: index(&[]),
        projects: Some(vec![LegacyFile { name: "p.jsonl".to_string(), records: vec![None] }]),
    };
    assert!(plan_migration(&no_records, &active).is_none());
    assert!(migrate_legacy(&mut active, &mut dirs(Some(no_records)), MOMENT).is_none());
    assert!(migrate_legacy(&mut active, &mut dirs(None), MOMENT).is_none());
    assert_eq!(active.len(), 0);
}

#[test]
fn an_index_alone_is_migrated() {
    let mut active: Dir = Table::new();
    let mut d = dirs(Some(Legacy { index: index(&["bc_1"]), projects: None }));
    let m = migrate_legacy(&mut active, &mut d, MOMENT).unwrap();
    assert_eq!((m.migrated, m.orphans), (1, 0));
    assert_eq!(read_breadcrumb(&active, "bc_1").unwrap().name, "Entry bc_1");
}

/// A breadcrumb with work in it.
fn worked_on(id: &str) -> Breadcrumb {
    let mut b = bc(id, "2024-03-01T11:30:00Z");
    for j in 0..3usize {
        b.step_results.push(StepResult {
            step_idx: j,
            step_name: format!("step_{}", j + 1),
            result: format!("r{}", j),
            files_changed: vec!["f".to_string()],
            at: "2024-03-01T11:30:00Z".to_string(),
        });
    }
    b.current_step = 3;
    b.files_changed = vec!["f".to_string()];
    b
}

#[test]
fn an_entry_replaces_no_active_record() {
    let mut active: Dir = Table::new();
    write_breadcrumb(&mut active, &worked_on("bc_gone"));
    write_breadcrumb(&mut active, &worked_on("bc_2"));
    let before = format!("{:?}", read_breadcrumb(&active, "bc_gone"));
    let mut d = dirs(Some(legacy()));
    let m = migrate_legacy(&mut active, &mut d, MOMENT).unwrap();
    // Only the records are written, over active ones too; the entry gives way.
    assert_eq!((m.migrated, m.orphans, m.errors), (2, 1, 0));
    assert_eq!(format!("{:?}", read_breadcrumb(&active, "bc_gone")), before);
    assert_eq!(read_breadcrumb(&active, "bc_gone").unwrap().step_results.len(), 3);
    assert_eq!(read_breadcrumb(&active, "bc_2").unwrap().last_activity_at, "x");
    assert!(d.current.is_none());
}

#[test]
fn a_directory_with_nothing_to_write_is_renamed() {
    let mut active: Dir = Table::new();
    write_breadcrumb(&mut active, &worked_on("bc_1"));
    let before = format!("{:?}", load_all_active(&active));
    let only_index = Legacy { index: index(&["bc_1"]), projects: None };
    assert!(plan_migration(&only_index, &active).unwrap().breadcrumbs.is_empty());
    let mut d = dirs(Some(only_index));
    let m = migrate_legacy(&mut active, &mut d, MOMENT).unwrap();
    assert_eq!((m.migrated, m.orphans, m.errors), (0, 0, 0));
    assert_eq!(format!("{:?}", load_all_active(&active)), before);
    assert!(d.current.is_none());
    assert!(d.renamed.contains_key("breadcrumbs.migrated_20240301_120000"));
}

#[test]
fn work_after_a_failed_migration_is_kept() {
    let mut active: Dir = Table::new();
    let plan = plan_migration(&legacy(), &active).unwrap();
    finish_migration(&mut active, &plan, &vec![true, false, true]);
    // The breadcrumb made of the entry is worked on before the migration is tried again.
    write_breadcrumb(&mut active, &worked_on("bc_gone"));
    let again = plan_migration(&legacy(), &active).unwrap();
    let ids: Vec<&str> = again.breadcrumbs.iter().map(|b| b.id.as_str()).collect();
    assert_eq!(ids, vec!["bc_1", "bc_2"]);
    let m = finish_migration(&mut active, &again, &vec![true, true]);
    assert!(migration_ends(m.errors));
    assert_eq!(read_breadcrumb(&active, "bc_gone").unwrap().step_results.len(), 3);
}

#[test]
fn a_failed_write_stops_no_other() {
    let mut active: Dir = Table::new();
    let plan = plan_migration(&legacy(), &active).unwrap();
    let ids: Vec<&str> = plan.breadcrumbs.iter().map(|b| b.id.as_str()).collect();
    assert_eq!(ids, vec!["bc_1", "bc_2", "bc_gone"]);
    let m = finish_migration(&mut active, &plan, &vec![true, false, true]);
    assert_eq!((m.migrated, m.orphans, m.errors), (2, 1, 1));
    assert!(!migration_ends(m.errors));
    assert!(read_breadcrumb(&active, "bc_1").is_ok());
    assert!(read_breadcrumb(&active, "bc_2").is_err());
    assert!(read_breadcrumb(&active, "bc_gone").is_ok());
    let again = finish_migration(&mut active, &plan, &vec![true, true, true]);
    assert_eq!((again.migrated, again.errors), (3, 0));
    assert!(migration_ends(again.errors));
    assert_eq!(active.len(), 3);
}
