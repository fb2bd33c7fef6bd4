use ia2::monitor::{ProgramHandle, RuntimeMode, StepRequest};
use ia2::routes::{
    default_journal_limit, default_step_ms, force_runtime_variable, list_runtime_forces,
    live_program, runtime_history, runtime_pause, runtime_resume, runtime_status, runtime_step,
    unforce_runtime_variable, write_runtime_variable, ApiError, DeviceHealth, ForceRequest,
    HistoryQuery, JournalQuery, ProjectSummary, SnapshotStamp, WriteVariableRequest,
};

fn is_409(e: &ApiError) -> bool {
    matches!(e, ApiError::Conflict(m) if m == "no program running")
}

#[test]
fn debug_routes_answer_409_without_a_program() {
    let mut none: Option<ProgramHandle> = None;
    assert!(is_409(&runtime_pause(&mut none).err().unwrap()));
    assert!(is_409(&runtime_resume(&mut none).err().unwrap()));
    assert!(is_409(&runtime_step(&mut none, None).err().unwrap()));
    assert!(is_409(&force_runtime_variable(&mut none, "x", ForceRequest { value: 1 }).err().unwrap()));
    assert!(is_409(&unforce_runtime_variable(&mut none, "x").err().unwrap()));
    assert!(is_409(&live_program(&none).err().unwrap()));
    let req = WriteVariableRequest { value: 1, pulse_ms: None };
    assert!(is_409(&write_runtime_variable(&none, "x", &req).err().unwrap()));
    assert!(list_runtime_forces(&none).is_empty());
}

#[test]
fn debug_routes_drive_the_live_program() {
    let mut p = Some(ProgramHandle::new(vec!["zeta".into(), "alpha".into(), "start_pb".into()]));
    assert_eq!(runtime_pause(&mut p).ok().unwrap().mode, RuntimeMode::Paused);
    assert_eq!(runtime_resume(&mut p).ok().unwrap().mode, RuntimeMode::Running);
    assert_eq!(runtime_step(&mut p, None).ok().unwrap().mode, RuntimeMode::Step { remaining: 1 });
    assert_eq!(
        runtime_step(&mut p, Some(StepRequest { cycles: 4 })).ok().unwrap().mode,
        RuntimeMode::Step { remaining: 4 }
    );
    let f = force_runtime_variable(&mut p, "zeta", ForceRequest { value: 3 }).ok().unwrap();
    assert_eq!((f.name.as_str(), f.value), ("zeta", 3));
    force_runtime_variable(&mut p, "alpha", ForceRequest { value: -1 }).ok().unwrap();
    let list = list_runtime_forces(&p);
    assert_eq!(list.iter().map(|e| e.name.as_str()).collect::<Vec<_>>(), vec!["alpha", "zeta"]);
    let u = unforce_runtime_variable(&mut p, "zeta").ok().unwrap();
    assert_eq!(u.name, "zeta");
    assert!(!u.forced);
    assert_eq!(list_runtime_forces(&p).len(), 1);
    let req = WriteVariableRequest { value: 1, pulse_ms: Some(300) };
    let w = write_runtime_variable(&p, "start_pb", &req).ok().unwrap();
    assert_eq!((w.name.as_str(), w.value, w.pulse_ms), ("start_pb", 1, Some(300)));
}

#[test]
fn status_reflects_project_snapshot_and_program() {
    let idle = runtime_status(None, None, None, None, None, vec![], true);
    assert!(!idle.running);
    assert!(idle.project.is_none());
    assert_eq!((idle.scan_count, idle.last_snapshot_us), (0, 0));
    assert!(idle.mode.is_none());
    assert!(!idle.watchdog_tripped, "no program: the latch reads false");

    let mut h = ProgramHandle::new(vec!["a".into(), "b".into()]);
    h.force_variable("b", 2).ok().unwrap();
    h.force_variable("a", 1).ok().unwrap();
    h.pause();
    let project = ProjectSummary {
        name: "tank".into(),
        program_instances: vec!["main".into()],
        devices: vec!["plc1".into()],
    };
    let health = vec![DeviceHealth { name: "plc1".into(), healthy: false }];
    let s = runtime_status(
        Some(project),
        Some(SnapshotStamp { scan_count: 42, timestamp_us: 7 }),
        Some("boom".into()),
        None,
        Some(&h),
        health,
        true,
    );
    assert!(s.running);
    assert_eq!(s.project.as_deref(), Some("tank"));
    assert_eq!(s.program_instances, vec!["main".to_string()]);
    assert_eq!((s.scan_count, s.last_snapshot_us), (42, 7));
    assert_eq!(s.last_error.as_deref(), Some("boom"));
    assert_eq!(s.mode, Some(RuntimeMode::Paused));
    assert_eq!(s.forces.iter().map(|e| e.name.as_str()).collect::<Vec<_>>(), vec!["a", "b"]);
    assert!(!s.device_health[0].healthy);
    assert!(s.watchdog_tripped);
}

#[test]
fn query_defaults_and_history_route() {
    assert_eq!(default_step_ms(), 1000);
    assert_eq!(default_journal_limit(), 100);
    assert_eq!(JournalQuery::defaults().limit, 100);
    let q = HistoryQuery { vars: " flow , ,level".into(), from_us: 0, to_us: 0, step_ms: 1000 };
    assert_eq!(q.var_names(), vec!["flow".to_string(), "level".to_string()]);
    let mut h = ia2::history::Historian::new(1_000_000, 10);
    h.note_snapshot(1_000_000, &vec![("flow".into(), 5), ("other".into(), 6)]);
    let r = runtime_history(&h, &q);
    assert_eq!(r.series.len(), 2);
    assert_eq!(r.series[0].name, "flow");
    assert_eq!(r.series[0].points.len(), 1);
    assert!(r.series[1].points.is_empty(), "level was never recorded");
    assert_eq!(r.oldest_us, 1_000_000);
    let all = runtime_history(&h, &HistoryQuery::defaults());
    assert_eq!(all.series.len(), 2);
    assert_eq!(all.series[1].name, "other");
}

#[test]
fn undeclared_names_answer_404() {
    let mut p = Some(ProgramHandle::new(vec!["pump".into()]));
    match force_runtime_variable(&mut p, "valve", ForceRequest { value: 1 }).err().unwrap() {
        ApiError::NotFound(m) => assert_eq!(m, "unknown variable `valve`"),
        _ => panic!("expected 404"),
    }
    assert!(list_runtime_forces(&p).is_empty());
    let req = WriteVariableRequest { value: 1, pulse_ms: None };
    assert!(matches!(write_runtime_variable(&p, "valve", &req), Err(ApiError::NotFound(_))));
    assert!(write_runtime_variable(&p, "pump", &req).is_ok());
}
