use ia2::resource::pou_slug;
use ia2::resource::{resolve_get, resolve_ls, resolve_rm, resolve_set, Plan, SetPlan};

fn get_url(p: &str) -> String {
    match resolve_get(p).ok().unwrap() {
        Plan::Get { path, .. } => path,
        Plan::GetPou { slug } => format!("pou:{slug}"),
        _ => panic!("unexpected plan"),
    }
}

#[test]
fn get_maps_single_docs_and_subreads() {
    assert_eq!(get_url("iomap"), "/api/iomap");
    assert_eq!(get_url("tasks"), "/api/tasks");
    assert_eq!(get_url("project/variables"), "/api/project/variables");
    assert_eq!(get_url("runtime/snapshot"), "/api/runtime/snapshot");
    assert_eq!(get_url("edges/pi/logs"), "/api/edges/pi/logs");
    assert_eq!(get_url("edges/pi/scan"), "/api/edges/pi/discover");
    assert_eq!(get_url("devices/plc1"), "/api/devices/plc1");
    assert_eq!(get_url("hmi/overview"), "/api/hmi/overview");
}

#[test]
fn pou_paths_strip_extensions() {
    assert_eq!(get_url("pous/motor.ld.json"), "pou:motor");
    assert_eq!(get_url("pous/main.st"), "pou:main");
    assert_eq!(get_url("pous/lib/pid/fb_pid.st"), "pou:lib/pid/fb_pid");
    match resolve_set("pous/motor.ld.json").ok().unwrap() {
        SetPlan::Pou { slug, language } => {
            assert_eq!(slug, "motor");
            assert_eq!(language.as_deref(), Some("ld"));
        }
        _ => panic!(),
    }
}

#[test]
fn nested_names_percent_encode() {
    assert_eq!(
        get_url("devices/plant a/plc1"),
        "/api/devices/plant%20a%2Fplc1"
    );
}

#[test]
fn rm_maps_folders_and_library() {
    match resolve_rm("pous/old/").ok().unwrap() {
        Plan::Rm { path, .. } => assert_eq!(path, "/api/pous/folders/old"),
        _ => panic!(),
    }
    match resolve_rm("library/process-control").ok().unwrap() {
        Plan::Rm { path, .. } => assert_eq!(path, "/api/library/process-control"),
        _ => panic!(),
    }
    match resolve_rm("pous/motor.st").ok().unwrap() {
        Plan::Rm { path, .. } => assert_eq!(path, "/api/pous/motor"),
        _ => panic!(),
    }
}

#[test]
fn unknown_kind_is_a_usage_error() {
    assert!(resolve_get("gadgets/x").is_err());
    assert!(resolve_set("runtime/status").is_err());
    assert!(resolve_ls(Some("iomap")).is_err());
}

#[test]
fn one_path_addresses_one_resource() {
    for p in ["devices/plant a/plc1", "hmi/overview", "edges/pi", "edges/lab/pi"] {
        let got = get_url(p);
        let rm = match resolve_rm(p).ok().unwrap() {
            Plan::Rm { path, .. } => path,
            _ => panic!(),
        };
        assert_eq!(got, rm, "{p}");
        match resolve_set(p).ok().unwrap() {
            SetPlan::Doc { kind, name } => {
                assert_eq!(format!("/api/{kind}/{}", name.replace(' ', "%20").replace('/', "%2F")), got)
            }
            _ => panic!(),
        }
    }
    for p in ["pous/motor.ld.json", "pous/lib/pid/fb_pid.st", "pous/plain"] {
        let slug = get_url(p).trim_start_matches("pou:").to_string();
        match resolve_rm(p).ok().unwrap() {
            Plan::Rm { path, .. } => assert_eq!(path, format!("/api/pous/{}", slug.replace('/', "%2F"))),
            _ => panic!(),
        }
        match resolve_set(p).ok().unwrap() {
            SetPlan::Pou { slug: s, language } => {
                assert_eq!(s, slug);
                let (ps, pl) = pou_slug(p.trim_start_matches("pous/"));
                assert_eq!((ps, pl), (s, language));
            }
            _ => panic!(),
        }
    }
}

#[test]
fn pou_slugs_round_trip_to_the_path() {
    for (p, ext) in [("motor.ld.json", ".ld.json"), ("seq.sfc.json", ".sfc.json"), ("f.fbd.json", ".fbd.json"), ("main.st", ".st")] {
        let (slug, lang) = pou_slug(p);
        assert!(lang.is_some());
        assert_eq!(format!("{slug}{ext}"), p);
    }
    assert_eq!(pou_slug("notes.txt"), ("notes.txt".to_string(), None));
}

#[test]
fn encoded_names_stay_one_segment() {
    let enc: String = ia2::http::url_encode("a/b c/ü~").into_iter().collect();
    assert_eq!(enc, "a%2Fb%20c%2F%C3%BC~");
    assert!(!enc.contains('/'));
}

#[test]
fn distinct_names_get_distinct_segments() {
    let enc = |s: &str| -> String { ia2::http::url_encode(s).into_iter().collect() };
    assert_eq!(enc("a/b"), "a%2Fb");
    assert_eq!(enc("a%2Fb"), "a%252Fb");
    assert_ne!(enc("a/b"), enc("a%2Fb"));
    assert_ne!(enc("plant a"), enc("plant+a"));
}
