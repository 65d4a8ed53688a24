use cpc_breadcrumbs::clock::Timestamp;
use cpc_breadcrumbs::layout::Layout;
use cpc_breadcrumbs::migrate::{Legacy, LegacyDirs, LegacyFile};
use cpc_breadcrumbs::schema::{Breadcrumb, IndexEntry, WriterContext};
use cpc_breadcrumbs::startup::{init, init_at, should_migrate};
use cpc_breadcrumbs::storage::{read_breadcrumb, write_breadcrumb, Dir};
use cpc_breadcrumbs::table::Table;
use cpc_breadcrumbs::tracker::{
    active_count, load_project_bcs, read_active_index, start_at, step_at, Tracker,
};

const NOON: i64 = 1_709_294_400;
const MOMENT: &str = "20240301_120000";

fn at(secs: i64) -> Timestamp {
    Timestamp::new(NOON + secs, 0).unwrap()
}

/// The settings as they are without any variable.
fn default_layout() -> Layout {
    Layout { volumes: None, state_dir: None, archive_dir: None, handoff_dir: None, separator: '\\' }
}

fn apart() -> Layout {
    Layout { state_dir: Some("D:\\state".to_string()), ..default_layout() }
}

fn bc(id: &str) -> Breadcrumb {
    let then = "2024-03-01T11:59:00+00:00";
    Breadcrumb {
        id: id.to_string(),
        name: format!("Test BC {}", id),
        project_id: Some("p".to_string()),
        owner: "o".to_string(),
        writer_actor: "a".to_string(),
        writer_machine: "m".to_string(),
        writer_session: "s".to_string(),
        writer_at: then.to_string(),
        started_at: then.to_string(),
        last_activity_at: then.to_string(),
        steps: vec!["step1".to_string()],
        current_step: 0,
        total_steps: 1,
        step_results: Vec::new(),
        files_changed: Vec::new(),
        stale: false,
        conflict_warning: None,
        aborted: false,
        abort_reason: None,
        auto_started: false,
    }
}

fn found(bcs: Vec<Breadcrumb>) -> Option<Legacy> {
    let mut index: Table<IndexEntry> = Table::new();
    for b in &bcs {
        index.insert(
            b.id.clone(),
            IndexEntry {
                id: b.id.clone(),
                project_id: b.project_id.clone(),
                name: b.name.clone(),
                owner: b.owner.clone(),
                last_activity_at: b.last_activity_at.clone(),
                started_at: b.started_at.clone(),
            },
        );
    }
    Some(Legacy {
        index: Some(index),
        projects: Some(vec![LegacyFile {
            name: "p.jsonl".to_string(),
            records: bcs.into_iter().map(Some).collect(),
        }]),
    })
}

fn dirs(current: Option<Legacy>) -> LegacyDirs {
    LegacyDirs { current, renamed: Table::new() }
}

#[test]
fn what_was_left_behind_is_migrated_at_startup() {
    for layout in [default_layout(), apart()] {
        let mut t = Tracker::new();
        let mut d = dirs(found(vec![bc("bc_b"), bc("bc_c")]));
        let r = init_at(&mut t, &mut d, &layout, Some("0"), &at(0), "2024-03-01", MOMENT);
        let m = r.migrated.unwrap();
        assert_eq!((m.migrated, m.orphans, m.errors), (2, 0, 0));
        assert!(r.reaped.is_empty());
        assert_eq!(read_breadcrumb(&t.storage.active, "bc_b").unwrap().name, "Test BC bc_b");
        assert_eq!(active_count(&t), 2);
        assert_eq!(load_project_bcs(&t, "p").len(), 2);
        assert!(d.current.is_none());
        let kept = d.renamed.get("breadcrumbs.migrated_20240301_120000").unwrap();
        assert_eq!(kept.projects.as_ref().unwrap()[0].records.len(), 2);
        assert_eq!(kept.index.as_ref().unwrap().len(), 2);
        // What was migrated goes on as if it had been started here.
        let ctx = WriterContext::new("me", "box", "s1");
        assert_eq!(step_at(&mut t, "r", vec![], Some("bc_b"), &ctx, &at(1)).unwrap().current, 1);
        // A second startup has nothing to migrate.
        let again = init_at(&mut t, &mut d, &layout, Some("0"), &at(2), "2024-03-01", "later");
        assert!(again.migrated.is_none());
        assert_eq!(d.renamed.len(), 1);
        assert_eq!(load_project_bcs(&t, "p")[0].current_step, 1);
    }
}

#[test]
fn the_present_state_is_not_migrated() {
    let ctx = WriterContext::new("me", "box", "s1");
    let mut t = Tracker::new();
    start_at(&mut t, "op", vec![], Some("p".to_string()), &ctx, &at(0)).unwrap();
    let here = || found(load_project_bcs(&t, "p"));
    // In the default layout the state is kept in the directory of earlier versions.
    assert!(!should_migrate(&here(), &t.storage.active, &default_layout()));
    assert!(should_migrate(&here(), &t.storage.active, &apart()));
    let mut more = load_project_bcs(&t, "p");
    more.push(bc("bc_left"));
    assert!(should_migrate(&found(more), &t.storage.active, &default_layout()));
    let mut d = dirs(here());
    let r = init_at(&mut t, &mut d, &default_layout(), Some("0"), &at(1), "2024-03-01", MOMENT);
    assert!(r.migrated.is_none());
    assert!(d.current.is_some());
    assert_eq!(active_count(&t), 1);
}

#[test]
fn a_startup_keeps_what_only_the_index_knew() {
    for layout in [default_layout(), apart()] {
        let ctx = WriterContext::new("me", "box", "s1");
        let mut t = Tracker::new();
        let id = start_at(&mut t, "op", vec!["one".into()], Some("p".to_string()), &ctx, &at(0))
            .unwrap()
            .id;
        step_at(&mut t, "r", vec!["f".into()], None, &ctx, &at(1)).unwrap();
        let shown = |t: &Tracker| {
            format!(
                "{:?}{:?}{:?}",
                read_breadcrumb(&t.storage.active, &id),
                read_active_index(t).get(&id),
                load_project_bcs(t, "p").into_iter().find(|b| b.id == id)
            )
        };
        let before = shown(&t);
        // The index found knows it, and no record holds it; another breadcrumb was left behind.
        let mut left = found(vec![bc("bc_left"), bc(&id)]);
        if let Some(Legacy { projects: Some(files), .. }) = &mut left {
            files[0].records.pop();
        }
        let mut d = dirs(left);
        let r = init_at(&mut t, &mut d, &layout, Some("0"), &at(2), "2024-03-01", MOMENT);
        assert_eq!(r.migrated.unwrap().migrated, 1);
        assert_eq!(shown(&t), before);
        assert_eq!(active_count(&t), 2);
        assert!(read_breadcrumb(&t.storage.active, "bc_left").is_ok());
        assert!(d.current.is_none());
    }
}

#[test]
fn nothing_found_is_nothing_to_migrate() {
    let mut active: Dir = Table::new();
    let empty = Some(Legacy { index: None, projects: None });
    for layout in [default_layout(), apart()] {
        assert!(!should_migrate(&None, &active, &layout));
        assert!(!should_migrate(&empty, &active, &layout));
    }
    write_breadcrumb(&mut active, &bc("bc_b"));
    assert!(!should_migrate(&found(vec![bc("bc_b")]), &active, &default_layout()));
}

#[test]
fn a_startup_reaps_by_its_setting() {
    let ctx = WriterContext::new("me", "box", "s1");
    let run = |value: Option<&str>| -> usize {
        let mut t = Tracker::new();
        start_at(&mut t, "old", vec![], None, &ctx, &at(0)).unwrap();
        start_at(&mut t, "new", vec![], None, &ctx, &at(86_400)).unwrap();
        let r = init_at(
            &mut t,
            &mut dirs(None),
            &default_layout(),
            value,
            &at(86_401),
            "2024-03-02",
            MOMENT,
        );
        assert_eq!(active_count(&t), 2 - r.reaped.len());
        assert_eq!(t.storage.completed.contains_key("2024-03-02"), !r.reaped.is_empty());
        r.reaped.len()
    };
    assert_eq!(run(None), 1);
    assert_eq!(run(Some("24")), 1);
    assert_eq!(run(Some("25")), 0);
    assert_eq!(run(Some("0")), 0);
    assert_eq!(run(Some("never")), 0);
    assert_eq!(run(Some("18446744073709551615")), 0);
}

#[test]
fn a_startup_reads_the_clock() {
    let mut t = Tracker::new();
    let mut d = dirs(found(vec![bc("bc_b")]));
    let r = init(&mut t, &mut d, &default_layout(), None);
    assert_eq!(r.migrated.unwrap().migrated, 1);
    // By the clock, what was migrated is old.
    assert_eq!(r.reaped, vec!["bc_b".to_string()]);
    assert_eq!(read_active_index(&t).len(), 0);
    assert_eq!(d.renamed.len(), 1);
    assert_eq!(t.storage.completed.len(), 1);
}
