use ia2::runtime_cmd::parse_value;
use ia2::runtime_cmd::{filter_snapshot, status_running};
use ia2::runtime_cmd::{
    pack_value, parse_i32, parse_i64, plan_run, runtime_request, snapshot_var_type, Method, PackError,
    PackNote, RunPlan, RuntimeCmd, SnapshotVar, WireBody,
};

fn chars(s: &str) -> Vec<char> {
    s.chars().collect()
}

fn f32_bits_of(raw: &str) -> Option<u32> {
    raw.parse::<f32>().ok().map(f32::to_bits)
}

fn pack(ty: Option<&str>, raw: &str) -> Result<(i32, PackNote), PackError> {
    pack_value(ty, raw, f32_bits_of(raw))
}

#[test]
fn integers_parse_like_std() {
    for s in ["0", "-0", "+17", "-9223372036854775808", "9223372036854775807", "007"] {
        assert_eq!(parse_i64(&chars(s)), s.parse::<i64>().ok(), "{s}");
    }
    for s in ["", "+", "-", "9223372036854775808", "1_000", " 1", "1.0", "x"] {
        assert_eq!(parse_i64(&chars(s)), None, "{s}");
    }
    assert_eq!(parse_i32(&chars("2147483647")), Some(i32::MAX));
    assert_eq!(parse_i32(&chars("2147483648")), None);
    assert_eq!(parse_i32(&chars("-2147483648")), Some(i32::MIN));
}

#[test]
fn values_pack_by_iec_type() {
    assert_eq!(pack(Some("REAL"), "TRUE").ok(), Some((1, PackNote::Quiet)));
    assert_eq!(pack(None, "false").ok(), Some((0, PackNote::Quiet)));
    assert_eq!(pack(Some("BOOL"), "5").ok(), Some((1, PackNote::Quiet)));
    assert!(matches!(pack(Some("BOOL"), "yes"), Err(PackError::NotBool { .. })));
    assert_eq!(
        pack(Some("REAL"), "1.5").ok(),
        Some((1.5f32.to_bits() as i32, PackNote::Quiet))
    );
    assert!(matches!(pack(Some("REAL"), "abc"), Err(PackError::NotReal { .. })));
    assert!(matches!(pack(Some("LREAL"), "1.0"), Err(PackError::LrealTooWide)));
    assert_eq!(pack(Some("DINT"), "-42").ok(), Some((-42, PackNote::Quiet)));
    assert_eq!(pack(Some("UDINT"), "4294967295").ok(), Some((-1, PackNote::Quiet)));
    assert_eq!(pack(Some("WORD"), "4294967296").ok(), Some((0, PackNote::Quiet)));
    assert!(matches!(pack(Some("INT"), "1.5"), Err(PackError::NotInteger { .. })));
    assert!(matches!(pack(Some("STRING"), "x"), Err(PackError::UnknownType { .. })));
    assert_eq!(
        pack(None, "2.5e1").ok(),
        Some((25.0f32.to_bits() as i32, PackNote::GuessedReal))
    );
    assert!(matches!(pack(None, "1.2.3"), Err(PackError::NotFloat { .. })));
    assert_eq!(pack(None, "12").ok(), Some((12, PackNote::AssumedInt)));
    assert!(matches!(pack(None, "12x"), Err(PackError::NotI32 { .. })));
}

fn req(cmd: RuntimeCmd, v: i32) -> (Method, String) {
    let r = runtime_request(&cmd, v);
    (r.method, r.path)
}

#[test]
fn runtime_verbs_route_local_or_edge() {
    assert_eq!(req(RuntimeCmd::Pause { edge: None }, 0), (Method::Post, "/api/runtime/pause".into()));
    assert_eq!(
        req(RuntimeCmd::Resume { edge: Some("pi box".into()) }, 0),
        (Method::Post, "/api/edges/pi%20box/runtime/resume".into())
    );
    assert_eq!(
        req(RuntimeCmd::Status { edge: Some("pi".into()) }, 0),
        (Method::Get, "/api/edges/pi/status".into())
    );
    assert_eq!(
        req(RuntimeCmd::Snapshot { vars: None, edge: None }, 0),
        (Method::Get, "/api/runtime/snapshot".into())
    );
    let r = runtime_request(&RuntimeCmd::Force { name: "a b".into(), value: "1".into(), edge: None }, 7);
    assert_eq!(r.path, "/api/runtime/forces/a%20b");
    assert!(matches!(r.body, WireBody::Value(7)));
    let r = runtime_request(&RuntimeCmd::Write { name: "x".into(), value: "1".into(), edge: Some("pi".into()) }, 3);
    assert_eq!(r.path, "/api/edges/pi/runtime/write");
    assert!(matches!(r.body, WireBody::NameValue(ref n, 3) if n == "x"));
    assert_eq!(
        req(RuntimeCmd::Unforce { name: "x".into(), edge: None }, 0),
        (Method::Delete, "/api/runtime/forces/x".into())
    );
    assert_eq!(
        req(RuntimeCmd::Ack { id: "level_high".into() }, 0),
        (Method::Post, "/api/runtime/alarms/level_high/ack".into())
    );
    let r = runtime_request(&RuntimeCmd::Step { cycles: 4, edge: None }, 0);
    assert!(matches!(r.body, WireBody::Cycles(4)));
}

#[test]
fn snapshot_type_lookup_and_run_plans() {
    let vars = vec![
        SnapshotVar { name: "a".into(), iec_type: Some("REAL".into()) },
        SnapshotVar { name: "b".into(), iec_type: None },
        SnapshotVar { name: "a".into(), iec_type: Some("INT".into()) },
    ];
    assert_eq!(snapshot_var_type(&vars, "a"), Some("REAL".into()));
    assert_eq!(snapshot_var_type(&vars, "b"), None);
    assert_eq!(snapshot_var_type(&vars, "c"), None);
    assert!(matches!(plan_run(None, false), Ok(RunPlan::Project)));
    assert!(matches!(plan_run(Some("main"), false), Ok(RunPlan::Isolated { ref program }) if program == "main"));
    assert!(matches!(plan_run(Some("main"), true), Ok(RunPlan::IsolatedFile { .. })));
    assert!(plan_run(None, true).is_err());
}

#[test]
fn values_pack_from_the_snapshot_type() {
    let vars = vec![
        SnapshotVar { name: "sp".into(), iec_type: Some("REAL".into()) },
        SnapshotVar { name: "run".into(), iec_type: Some("BOOL".into()) },
    ];
    assert_eq!(
        parse_value(Some(&vars), "sp", "2.5", f32_bits_of("2.5")).ok(),
        Some((2.5f32.to_bits() as i32, PackNote::Quiet))
    );
    assert_eq!(parse_value(Some(&vars), "run", "3", None).ok(), Some((1, PackNote::Quiet)));
    assert_eq!(parse_value(None, "sp", "3", None).ok(), Some((3, PackNote::AssumedInt)));
    assert_eq!(parse_value(Some(&vars), "other", "1.5", f32_bits_of("1.5")).ok(), Some((1.5f32.to_bits() as i32, PackNote::GuessedReal)));
}

#[test]
fn bool_words_win_over_every_type() {
    for ty in [Some("REAL"), Some("LREAL"), Some("STRING"), Some("INT"), None] {
        assert_eq!(pack(ty, "TrUe").ok(), Some((1, PackNote::Quiet)));
        assert_eq!(pack(ty, "FALSE").ok(), Some((0, PackNote::Quiet)));
    }
}

#[test]
fn status_and_snapshot_filters() {
    assert!(status_running(Some(true), Some("paused")));
    assert!(!status_running(Some(false), Some("running")));
    assert!(status_running(None, Some("running")));
    assert!(!status_running(None, Some("paused")));
    assert!(!status_running(None, None));
    let names = vec![Some("a".to_string()), None, Some("b".to_string()), Some("c".to_string())];
    assert_eq!(filter_snapshot(&names, " a, c ,"), vec![true, false, false, true]);
    assert_eq!(filter_snapshot(&names, ""), vec![false, false, false, false]);
}

#[test]
fn notes_and_errors_read_like_the_cli() {
    assert_eq!(ia2::runtime_cmd::pack_note_message(PackNote::Quiet, "x"), None);
    assert_eq!(
        ia2::runtime_cmd::pack_note_message(PackNote::GuessedReal, "sp").as_deref(),
        Some("note: runtime didn't expose `sp`'s type — guessed REAL from value format")
    );
    assert_eq!(
        ia2::runtime_cmd::pack_note_message(PackNote::AssumedInt, "n").as_deref(),
        Some("note: runtime didn't expose `n`'s type — assumed INT family")
    );
    let e = pack(Some("BOOL"), "yes").err().unwrap();
    assert_eq!(e.message(), "value `yes` doesn't fit BOOL (expected TRUE/FALSE/1/0)");
    let e = pack(Some("LREAL"), "1.0").err().unwrap();
    assert_eq!(
        e.message(),
        "LREAL (64-bit float) doesn't fit the 32-bit force wire — use a REAL variable, or write the low 32 bits manually"
    );
    let e = pack(Some("TIME"), "5").err().unwrap();
    assert_eq!(e.message(), "don't know how to encode value `5` for type TIME (yet)");
    let e = pack(None, "12x").err().unwrap();
    assert_eq!(e.message(), "value `12x` doesn't parse as i32; if you meant REAL, use `12x.0`");
    let e = pack(Some("INT"), "x").err().unwrap();
    assert_eq!(e.message(), "value `x` doesn't parse as integer for INT");
}
