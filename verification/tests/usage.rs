use cpc_breadcrumbs::layout::Layout;
use cpc_breadcrumbs::{
    complete, has_active, list, machine_name, start, step, Tracker, WriterContext,
};

#[test]
fn an_operation_from_start_to_end() {
    let machine = machine_name(None, None, Some("BOX".to_string()));
    let ctx = WriterContext::from_env(None, machine, None);
    let layout = Layout {
        volumes: None,
        state_dir: None,
        archive_dir: None,
        handoff_dir: None,
        separator: '/',
    };
    let mut t = Tracker::new();
    let resp = start(
        &mut t,
        "my operation | targets: src/main.rs",
        vec!["step 1".into(), "step 2".into()],
        Some("my_project".into()),
        &ctx,
    )
    .unwrap();
    assert!(resp.id.ends_with("_my_operation___targets__src_main_rs"));
    assert_eq!(resp.project_id, "my_project");
    let done = step(&mut t, "step 1 done", vec!["src/main.rs".into()], None, &ctx).unwrap();
    assert_eq!((done.current, done.remaining), (1, 1));
    let end = complete(&mut t, &layout, "all done", None, &ctx).unwrap();
    assert_eq!(end.steps_completed, 1);
    assert!(!has_active(&t));
    assert_eq!(list(&t, Some("all")).unwrap().count, 1);
    assert_eq!(list(&t, None).unwrap().count, 0);
}
