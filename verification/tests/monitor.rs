use ia2::monitor::write_with_pulse;
use ia2::monitor::{
    force_entries, micros_to_u64, pause, pulse_reset, resume, step, typed_value, ProgramHandle,
    RuntimeMode, TypedValue,
};

fn vars(names: &[&str]) -> Vec<String> {
    names.iter().map(|n| n.to_string()).collect()
}

fn real_number(tv: &TypedValue) -> Option<f64> {
    match tv {
        TypedValue::Float32(b) => Some(f32::from_bits(*b) as f64),
        TypedValue::Float64(b) => Some(f64::from_bits(*b)),
        _ => None,
    }
}

#[test]
fn typed_values_decode_by_iec_type() {
    assert_eq!(typed_value("BOOL", 1, "TRUE"), TypedValue::Bool(true));
    assert_eq!(typed_value("BOOL", 0, "FALSE"), TypedValue::Bool(false));
    assert_eq!(
        real_number(&typed_value("REAL", 12.5f32.to_bits() as u64, "12.5")),
        Some(12.5)
    );
    assert_eq!(
        real_number(&typed_value("LREAL", (-2.25f64).to_bits(), "-2.25")),
        Some(-2.25)
    );
    // -42 sign-extended into a 32-bit slot.
    assert_eq!(
        typed_value("DINT", (-42i32) as u32 as u64, "-42"),
        TypedValue::Int(-42)
    );
    assert_eq!(typed_value("WORD", 0x1637, "16#1637"), TypedValue::UInt(0x1637));
    assert_eq!(
        typed_value("STRING", 0, "'hello'"),
        TypedValue::Text("'hello'".to_string())
    );
}

#[test]
fn nan_real_falls_back_to_display() {
    let nan_bits = f32::NAN.to_bits() as u64;
    assert_eq!(
        typed_value("REAL", nan_bits, "NaN"),
        TypedValue::Text("NaN".to_string())
    );
}

#[test]
fn typed_value_type_names_are_case_insensitive() {
    assert_eq!(typed_value("bool", 7, "TRUE"), TypedValue::Bool(true));
    assert_eq!(typed_value("Int", 0xffff_ffff, "-1"), TypedValue::Int(-1));
    assert_eq!(typed_value("lint", u64::MAX, "-1"), TypedValue::Int(-1));
    assert_eq!(typed_value("BYTE", 0x1ff, "255"), TypedValue::UInt(0xff));
    assert_eq!(typed_value("UDINT", 0x1_0000_0005, "5"), TypedValue::UInt(5));
    assert_eq!(typed_value("LWORD", u64::MAX, "x"), TypedValue::UInt(u64::MAX));
    assert_eq!(typed_value("TIME", 1500, "T#1.5s"), TypedValue::Int(1500));
    assert_eq!(
        typed_value("LREAL", f64::INFINITY.to_bits(), "inf"),
        TypedValue::Text("inf".to_string())
    );
    assert_eq!(
        typed_value("WSTRING", 3, "\"x\""),
        TypedValue::Text("\"x\"".to_string())
    );
}

#[test]
fn mode_ops_report_the_new_mode() {
    let mut h = ProgramHandle::new(vars(&["valve", "alpha", "motor", "a", "b", "c", "x"]));
    assert_eq!(h.mode(), RuntimeMode::Running);
    assert_eq!(pause(&mut h).mode, RuntimeMode::Paused);
    assert_eq!(resume(&mut h).mode, RuntimeMode::Running);
    assert_eq!(step(&mut h, 3).mode, RuntimeMode::Step { remaining: 3 });
    h.scan_completed();
    h.scan_completed();
    assert_eq!(h.mode(), RuntimeMode::Step { remaining: 1 });
    h.scan_completed();
    assert_eq!(h.mode(), RuntimeMode::Paused);
}

#[test]
fn force_entries_are_sorted_and_unforce_is_idempotent() {
    let mut h = ProgramHandle::new(vars(&["valve", "alpha", "motor", "a", "b", "c", "x"]));
    assert_eq!(h.force_variable("valve", 1).ok(), Some(1));
    assert_eq!(h.force_variable("alpha", 7).ok(), Some(7));
    assert_eq!(h.force_variable("motor", -3).ok(), Some(-3));
    assert_eq!(h.force_variable("valve", 0).ok(), Some(0));
    let e = force_entries(&h);
    let names: Vec<(String, i32)> = e.into_iter().map(|f| (f.name, f.value)).collect();
    assert_eq!(
        names,
        vec![
            ("alpha".to_string(), 7),
            ("motor".to_string(), -3),
            ("valve".to_string(), 0)
        ]
    );
    h.unforce_variable("motor");
    h.unforce_variable("motor");
    h.unforce_variable("never-forced");
    let e = force_entries(&h);
    assert_eq!(e.len(), 2);
    assert_eq!(e[0].name, "alpha");
    assert_eq!(e[1].name, "valve");
}

#[test]
fn pulse_schedules_a_zero_reset() {
    let r = pulse_reset(Some(250)).unwrap();
    assert_eq!(r.after_ms, 250);
    assert_eq!(r.value, 0);
    assert!(pulse_reset(None).is_none());
}

#[test]
fn clock_readings_truncate_to_64_bits() {
    assert_eq!(micros_to_u64(None), 0);
    assert_eq!(micros_to_u64(Some(42)), 42);
    assert_eq!(micros_to_u64(Some((1u128 << 64) + 9)), 9);
    assert!(ia2::monitor::wall_now_us() > 1_600_000_000_000_000);
}

#[test]
fn step_counts_down_then_pauses() {
    let mut h = ProgramHandle::new(vars(&["valve", "alpha", "motor", "a", "b", "c", "x"]));
    step(&mut h, 1);
    h.scan_completed();
    assert_eq!(h.mode(), RuntimeMode::Paused);
    step(&mut h, 0);
    h.scan_completed();
    assert_eq!(h.mode(), RuntimeMode::Paused);
    resume(&mut h);
    h.scan_completed();
    assert_eq!(h.mode(), RuntimeMode::Running);
    pause(&mut h);
    h.scan_completed();
    assert_eq!(h.mode(), RuntimeMode::Paused);
}

#[test]
fn unforce_undoes_force_and_force_reads_back() {
    let mut h = ProgramHandle::new(vars(&["valve", "alpha", "motor", "a", "b", "c", "x"]));
    h.force_variable("a", 1).ok().unwrap();
    h.force_variable("b", 2).ok().unwrap();
    let before: Vec<(String, i32)> = h.forces().into_iter().map(|f| (f.name, f.value)).collect();
    h.force_variable("c", 9).ok().unwrap();
    let during: Vec<(String, i32)> = h.forces().into_iter().map(|f| (f.name, f.value)).collect();
    assert_eq!(during.iter().filter(|(n, _)| n == "c").count(), 1);
    assert!(during.contains(&("c".to_string(), 9)));
    h.unforce_variable("c");
    let after: Vec<(String, i32)> = h.forces().into_iter().map(|f| (f.name, f.value)).collect();
    assert_eq!(after, before);
    // Re-forcing keeps the entry's place and takes the new value.
    h.force_variable("a", 5).ok().unwrap();
    let again: Vec<(String, i32)> = h.forces().into_iter().map(|f| (f.name, f.value)).collect();
    assert_eq!(again, vec![("a".to_string(), 5), ("b".to_string(), 2)]);
}

#[test]
fn mode_ops_keep_the_force_table() {
    let mut h = ProgramHandle::new(vars(&["valve", "alpha", "motor", "a", "b", "c", "x"]));
    h.force_variable("x", 3).ok().unwrap();
    pause(&mut h);
    step(&mut h, 4);
    resume(&mut h);
    let e = force_entries(&h);
    assert_eq!(e.len(), 1);
    assert_eq!((e[0].name.as_str(), e[0].value), ("x", 3));
}

#[test]
fn writes_schedule_a_reset_only_when_they_succeed() {
    let ok: Result<i32, &str> = Ok(1);
    let (v, reset) = write_with_pulse(ok, Some(500)).unwrap();
    assert_eq!(v, 1);
    let reset = reset.unwrap();
    assert_eq!((reset.after_ms, reset.value), (500, 0));
    let plain: Result<i32, &str> = Ok(7);
    let (v, reset) = write_with_pulse(plain, None).unwrap();
    assert_eq!(v, 7);
    assert!(reset.is_none());
    let failed: Result<i32, &str> = Err("unknown variable");
    assert_eq!(write_with_pulse(failed, Some(500)).err(), Some("unknown variable"));
}

#[test]
fn undeclared_variables_cannot_be_forced() {
    let mut h = ProgramHandle::new(vars(&["pump"]));
    assert!(h.declares("pump"));
    assert!(!h.declares("pum"));
    let e = h.force_variable("valve", 1).err().unwrap();
    assert_eq!(e.message(), "unknown variable `valve`");
    assert!(force_entries(&h).is_empty());
    assert_eq!(h.force_variable("pump", 1).ok(), Some(1));
}

#[test]
fn step_requests_default_to_one_cycle() {
    assert_eq!(ia2::monitor::StepRequest::with_default_cycles().cycles, 1);
    assert_eq!(ia2::monitor::default_step_cycles(), 1);
}
