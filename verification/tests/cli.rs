use ia2::cli::{
    announce_label, check_target, exit_code_for, session_label, CheckTarget, Command, Failure,
    HmiCmd, LibraryCmd, ProjectCmd, SimCmd,
};
use ia2::runtime_cmd::RuntimeCmd;

fn label(c: Command) -> Option<String> {
    announce_label(&c)
}

#[test]
fn reads_stay_silent() {
    assert_eq!(label(Command::Ls { path: None }), None);
    assert_eq!(label(Command::Get { path: "iomap".into(), query: vec![] }), None);
    assert_eq!(label(Command::Probe { name: "pi".into() }), None);
    assert_eq!(label(Command::Runtime(RuntimeCmd::Status { edge: None })), None);
    assert_eq!(
        label(Command::Runtime(RuntimeCmd::Snapshot { vars: None, edge: None })),
        None
    );
    assert_eq!(label(Command::Project(ProjectCmd::Info { path: ".".into() })), None);
    assert_eq!(
        label(Command::Api { method: "GeT".into(), path: "/api/x".into(), from: None, query: vec![] }),
        None
    );
}

#[test]
fn mutations_announce_with_a_label() {
    assert_eq!(
        label(Command::Api { method: "post".into(), path: "/api/edges/pi/attach".into(), from: None, query: vec![] }),
        Some("api POST /api/edges/pi/attach".into())
    );
    assert_eq!(
        label(Command::Upsert {
            path: "devices/plc1".into(),
            from: None,
            protocol: None,
            host: None,
            title: None,
            pou_type: "program".into()
        }),
        Some("set devices/plc1".into())
    );
    assert_eq!(label(Command::Rm { path: "hmi/x".into() }), Some("rm hmi/x".into()));
    assert_eq!(
        label(Command::Runtime(RuntimeCmd::Step { cycles: 2, edge: None })),
        Some("runtime step".into())
    );
    assert_eq!(
        label(Command::Sim(SimCmd::Run {
            scenario: "s.toml".into(),
            program: None,
            trace: None,
            keep_running: false,
            no_run: false
        })),
        Some("sim run s.toml".into())
    );
    assert_eq!(
        label(Command::Hmi(HmiCmd::Generate { path: "ov".into(), force: true, title: None })),
        Some("hmi generate ov".into())
    );
    assert_eq!(
        label(Command::Library(LibraryCmd::Import { library: "pc".into(), blocks: vec![] })),
        Some("library import pc".into())
    );
    assert_eq!(label(Command::Stop), Some("stop".into()));
    assert_eq!(label(Command::Project(ProjectCmd::Close)), Some("project close".into()));
}

#[test]
fn check_targets_route_by_shape() {
    assert!(matches!(check_target("P0002", false), CheckTarget::Code));
    assert!(matches!(check_target("P0002", true), CheckTarget::File));
    assert!(matches!(check_target("P12", false), CheckTarget::File));
    assert!(matches!(check_target("P00x2", false), CheckTarget::File));
    match check_target("hmi/overview", false) {
        CheckTarget::Screen { slug } => assert_eq!(slug, "overview"),
        _ => panic!(),
    }
    assert!(matches!(check_target("hmi/overview", true), CheckTarget::File));
    assert!(matches!(check_target("pous/main.st", false), CheckTarget::File));
}

#[test]
fn session_ids_are_pid_and_hex_nanos() {
    assert_eq!(session_label(4242, 0xdead_beef), "cs-4242-deadbeef");
    assert_eq!(session_label(0, 0), "cs-0-0");
}

#[test]
fn only_mutations_announce() {
    let cases: Vec<(Command, bool)> = vec![
        (Command::Ls { path: Some("pous".into()) }, false),
        (Command::Check { targets: vec!["x.st".into()], explain: false }, false),
        (Command::Transpile { file: "a.ld.json".into(), with_map: false }, false),
        (Command::Symbols { file: "a.st".into(), name: None }, false),
        (Command::Project(ProjectCmd::Check { path: ".".into() }), false),
        (Command::Agent(ia2::cli::AgentCmd::Leave { id: None }), false),
        (Command::Api { method: "DELETE".into(), path: "/api/x".into(), from: None, query: vec![] }, true),
        (Command::Run { program: None, file: None }, true),
        (Command::Deploy { name: "pi".into() }, true),
        (Command::Runtime(RuntimeCmd::Ack { id: "a".into() }), true),
        (Command::Project(ProjectCmd::Open { path: "/p".into() }), true),
    ];
    for (c, mutates) in cases {
        assert_eq!(announce_label(&c).is_some(), mutates);
    }
}

#[test]
fn failures_map_onto_exit_codes() {
    assert_eq!(exit_code_for(Failure::Api { status: 404 }), 2);
    assert_eq!(exit_code_for(Failure::Api { status: 409 }), 2);
    assert_eq!(exit_code_for(Failure::Api { status: 400 }), 2);
    assert_eq!(exit_code_for(Failure::Api { status: 500 }), 3);
    assert_eq!(exit_code_for(Failure::Api { status: 302 }), 3);
    assert_eq!(exit_code_for(Failure::Usage), 2);
    assert_eq!(exit_code_for(Failure::Infrastructure), 3);
}

#[test]
fn check_exit_is_the_worst() {
    assert_eq!(ia2::cli::worst_exit(0, 1), 1);
    assert_eq!(ia2::cli::worst_exit(3, 1), 3);
    assert_eq!(ia2::cli::worst_exit(0, 0), 0);
}

#[test]
fn heartbeats_keep_a_forwarded_session() {
    assert_eq!(ia2::cli::heartbeat_session(Some("s-1".into()), "cs-1-ff"), "s-1");
    assert_eq!(ia2::cli::heartbeat_session(None, "cs-1-ff"), "cs-1-ff");
}

#[test]
fn screen_issue_lines_and_errors() {
    assert_eq!(
        ia2::cli::issue_line(Some("warning"), Some("n7"), Some("label overflows")),
        "warning [n7]: label overflows"
    );
    assert_eq!(ia2::cli::issue_line(None, None, Some("no tag")), "?: no tag");
    assert_eq!(ia2::cli::issue_line(Some("error"), None, None), "error: ");
    assert!(ia2::cli::any_error(&[Some("warning"), None, Some("error")]));
    assert!(!ia2::cli::any_error(&[Some("warning"), Some("info"), None]));
    assert!(!ia2::cli::any_error(&[]));
}
