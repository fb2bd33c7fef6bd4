use ia2::quartet::{
    api_path_ok, api_query_path, append_query, config_plan, create_body, doc_then, entry_matches,
    filter_rows, hmi_info, library_info, parse_query, pou_info, pou_plan, project_row,
    render_table, two_columns, CreateBody, Row, SetError, SetThen,
};
use ia2::resource::Kind;

fn row(n: &str, i: &str) -> Row {
    Row { name: n.into(), info: i.into() }
}

#[test]
fn query_strings() {
    let q = vec![("tail".to_string(), "500".to_string()), ("a b".to_string(), "x/y".to_string())];
    assert_eq!(append_query("/api/edges/pi/logs", &q), "/api/edges/pi/logs?tail=500&a%20b=x%2Fy");
    assert_eq!(api_query_path("/api/x", &q), "/api/x?tail=500&a b=x/y");
    assert_eq!(append_query("/api/x", &[]), "/api/x");
    let raw = vec!["tail=500".to_string(), "k==v".to_string()];
    let parsed = parse_query(&raw).ok().unwrap();
    assert_eq!(parsed, vec![("tail".into(), "500".into()), ("k".into(), "=v".into())]);
    let bad = vec!["ok=1".to_string(), "nokey".to_string(), "also".to_string()];
    let e = parse_query(&bad).err().unwrap();
    assert_eq!(e.arg, "nokey");
    assert_eq!(e.message(), "--query expects key=value, got `nokey`");
    assert!(api_path_ok("/api/runtime/status"));
    assert!(!api_path_ok("api/runtime/status"));
}

#[test]
fn ls_table_renders_aligned() {
    let rows = vec![row("main.st", "st  program main"), row("lib/pid.st", ""), row("x", "  ")];
    let kept = filter_rows(rows, "");
    let lines = render_table(&kept);
    assert_eq!(lines, vec!["main.st     st  program main", "lib/pid.st", "x"]);
    let rows = vec![row("lib/a", "1"), row("main", "2"), row("lib/b", "3")];
    let kept = filter_rows(rows, "lib");
    let names: Vec<String> = kept.iter().map(|r| r.name.clone()).collect();
    assert_eq!(names, vec!["lib/a", "lib/b"]);
    assert!(entry_matches("", "x", "y"));
    assert!(entry_matches("pous/l", "pous/lib", "z"));
    assert!(!entry_matches("q", "pous/lib", "z"));
}

#[test]
fn ls_columns() {
    let r = project_row("demo", "demo", "/p/demo");
    assert_eq!((r.name.as_str(), r.info.as_str()), ("* demo", "/p/demo"));
    assert_eq!(project_row("b", "a", "/b").name, "  b");
    assert_eq!(pou_info(Some(("st", "program", "main"))), "st  program main");
    assert_eq!(pou_info(None), "");
    assert_eq!(hmi_info(Some(2), "Overview"), "L2  Overview");
    assert_eq!(hmi_info(None, "Overview"), "  Overview");
    assert_eq!(library_info("1.2", Some(("1.1", 3))), "v1.2  imported(v1.1, 3 blocks)");
    assert_eq!(library_info("1.2", None), "v1.2  (not imported)");
    assert_eq!(two_columns("modbus", "Generic RTU"), "modbus  Generic RTU");
}

#[test]
fn set_decisions() {
    assert_eq!(config_plan("iomap", true).ok(), Some(SetThen::PutBody));
    assert_eq!(
        config_plan("iomap", false).err().unwrap().message(),
        "`cs set iomap` needs `--from <file|->` (JSON document)"
    );
    let (create, then) = pou_plan("motor", Some("ld"), false, false).ok().unwrap();
    assert_eq!(create.as_deref(), Some("ld"));
    assert_eq!(then, SetThen::ReadBack);
    assert!(matches!(pou_plan("motor", None, false, true), Err(SetError::PouMissingLanguage { .. })));
    assert!(matches!(pou_plan("motor", None, true, false), Err(SetError::PouExists { .. })));
    assert_eq!(pou_plan("motor", None, true, true).ok().unwrap().1, SetThen::PutBody);
    match create_body(Kind::Devices, "plc1", None, None, None, Some("modbus"), None).ok().unwrap() {
        CreateBody::Device { name, protocol } => assert_eq!((name.as_str(), protocol.as_str()), ("plc1", "modbus")),
        _ => panic!(),
    }
    assert!(matches!(create_body(Kind::Edges, "pi", None, None, None, None, None), Err(SetError::EdgeNeedsHost)));
    match create_body(Kind::Edges, "pi", None, Some("pi@box"), None, None, Some("other")).ok().unwrap() {
        CreateBody::Edge { host, .. } => assert_eq!(host, "pi@box"),
        _ => panic!(),
    }
    assert_eq!(doc_then("devices", "plc1", true, true).ok(), Some(SetThen::PutBody));
    assert_eq!(doc_then("devices", "plc1", false, false).ok(), Some(SetThen::ReadBack));
    assert_eq!(
        doc_then("devices", "plc1", true, false).err().unwrap().message(),
        "`devices/plc1` already exists — pass `--from <file|->` to replace its config (get → edit → set)"
    );
}

#[test]
fn info_column_lines_up_even_with_wide_names() {
    // "µ" takes two bytes: the column width counts bytes, the padding
    // counts characters, so every info starts at the same character index.
    let rows = vec![row("µs", "a"), row("abc", "b"), row("x", "")];
    let lines = render_table(&rows);
    let width = "µs".len(); // widest name in bytes
    for (line, r) in lines.iter().zip(&rows) {
        if r.info.trim().is_empty() {
            assert_eq!(line, &r.name);
        } else {
            let chars: Vec<char> = line.chars().collect();
            let info: String = chars[width + 2..].iter().collect();
            assert_eq!(info, r.info);
            assert!(line.starts_with(&r.name));
        }
    }
}

#[test]
fn missing_create_fields_are_not_usage_errors() {
    assert!(!SetError::DeviceNeedsProtocol.is_usage());
    assert!(!SetError::EdgeNeedsHost.is_usage());
    assert!(SetError::PouExists { slug: "m".into() }.is_usage());
    assert!(SetError::ConfigNeedsFrom { kind: "iomap".into() }.is_usage());
}
