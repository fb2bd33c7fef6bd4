use ia2::cli::Failure;
use ia2::sim::{
    empty_step_report, failure_entry, inject_report, set_report, step_failure, step_line,
    wait_report, InjectStep,
};
use ia2::sim::{alarm_poll, watchdog_poll, Outcome};
use ia2::sim::{
    alarm_verdict, eval, expect_verdict, never_verdict, numeric_text, parse_hex_u64, validate,
    watchdog_verdict, watchdog_window, AlarmStep, CmpOp, ExpectStep, NeverStep, NumericText,
    Scenario, ScenarioError, SetStep, Step, Verdict, WatchdogStep, WatchdogWindow,
};

fn empty_step() -> Step {
    Step {
        wait_ms: None,
        set: None,
        expect: None,
        expect_never: None,
        expect_alarm: None,
        inject: None,
        expect_watchdog: None,
    }
}

fn bits(v: f64) -> u64 {
    v.to_bits()
}

#[test]
fn scenario_parses_and_validates() {
    // description = "demo"; wait_ms = 100; set inlet := true;
    // expect level gt 10.0 within 500; expect_never overflow is_true during 200;
    // expect_alarm level_high within 300 (active defaults to true)
    let mut steps = Vec::new();
    steps.push(Step { wait_ms: Some(100), ..empty_step() });
    steps.push(Step {
        set: Some(SetStep { var: "inlet".into(), value_text: "TRUE".into() }),
        ..empty_step()
    });
    steps.push(Step {
        expect: Some(ExpectStep {
            var: "level".into(),
            op: CmpOp::Gt,
            value_is_zero: 10.0f64 == 0.0,
            within_ms: 500,
        }),
        ..empty_step()
    });
    steps.push(Step {
        expect_never: Some(NeverStep { var: "overflow".into(), op: CmpOp::IsTrue, during_ms: 200 }),
        ..empty_step()
    });
    steps.push(Step {
        expect_alarm: Some(AlarmStep {
            id: "level_high".into(),
            active: ia2::sim::default_true(),
            within_ms: 300,
        }),
        ..empty_step()
    });
    let s = Scenario { description: Some("demo".into()), steps };
    assert!(validate(&s).is_ok());
    assert_eq!(s.steps.len(), 5);
    assert!(s.steps[4].expect_alarm.as_ref().unwrap().active);
}

#[test]
fn ambiguous_step_rejected() {
    // wait_ms = 100 and set = { var = "x", value = 1 } in one step
    let s = Scenario {
        description: None,
        steps: vec![Step {
            wait_ms: Some(100),
            set: Some(SetStep { var: "x".into(), value_text: "1".into() }),
            ..empty_step()
        }],
    };
    assert!(validate(&s).is_err());
    assert_eq!(validate(&s), Err(ScenarioError::NotExactlyOne { step: 1, found: 2 }));
    assert_eq!(
        ScenarioError::NotExactlyOne { step: 1, found: 2 }.message(),
        "step 1: exactly one of wait_ms / set / expect / expect_never / expect_alarm / inject / expect_watchdog (found 2)"
    );
}

#[test]
fn scenario_errors_name_the_step() {
    let no_steps = Scenario { description: None, steps: vec![] };
    assert_eq!(validate(&no_steps), Err(ScenarioError::NoSteps));
    assert_eq!(ScenarioError::NoSteps.message(), "scenario has no [[steps]]");
    let s = Scenario {
        description: None,
        steps: vec![
            Step { wait_ms: Some(1), ..empty_step() },
            Step {
                expect: Some(ExpectStep {
                    var: "b".into(),
                    op: CmpOp::IsTrue,
                    value_is_zero: false,
                    within_ms: 5000,
                }),
                ..empty_step()
            },
        ],
    };
    assert_eq!(validate(&s), Err(ScenarioError::OpTakesNoValue { step: 2, op: CmpOp::IsTrue }));
    assert_eq!(
        ScenarioError::OpTakesNoValue { step: 2, op: CmpOp::IsTrue }.message(),
        "step 2: `IsTrue` takes no value"
    );
    let w = Scenario {
        description: None,
        steps: vec![Step {
            expect_watchdog: Some(WatchdogStep { tripped: true, within_ms: Some(1), during_ms: Some(2) }),
            ..empty_step()
        }],
    };
    assert_eq!(validate(&w), Err(ScenarioError::WatchdogBothWindows { step: 1 }));
    let empty = Scenario { description: None, steps: vec![empty_step()] };
    assert_eq!(validate(&empty), Err(ScenarioError::NotExactlyOne { step: 1, found: 0 }));
}

#[test]
fn cmp_ops_and_value_decode() {
    assert!(eval(CmpOp::Gt, bits(2.0), bits(1.0)));
    assert!(eval(CmpOp::IsTrue, bits(1.0), bits(0.0)));
    assert!(!eval(CmpOp::IsTrue, bits(0.0), bits(0.0)));
    // { "name": "x", "type_name": "WORD", "value": "16#FF" } → 255
    assert_eq!(numeric_text("WORD", "16#FF"), NumericText::Hex(255));
    // { "name": "b", "type_name": "BOOL", "value": "TRUE" } → 1
    assert_eq!(numeric_text("BOOL", "TRUE"), NumericText::Bool(true));
}

#[test]
fn comparisons_follow_ieee() {
    assert!(eval(CmpOp::Eq, bits(-0.0), bits(0.0)));
    assert!(eval(CmpOp::Lt, bits(-3.0), bits(-2.0)));
    assert!(eval(CmpOp::Le, bits(2.0), bits(2.0)));
    assert!(eval(CmpOp::Ge, bits(f64::INFINITY), bits(1e308)));
    assert!(!eval(CmpOp::Eq, bits(f64::NAN), bits(f64::NAN)));
    assert!(eval(CmpOp::Ne, bits(f64::NAN), bits(1.0)));
    assert!(!eval(CmpOp::Gt, bits(f64::NAN), bits(1.0)));
    assert!(eval(CmpOp::IsFalse, bits(-0.0), bits(5.0)));
    assert!(eval(CmpOp::IsTrue, bits(f64::NAN), bits(0.0)));
}

#[test]
fn display_texts_decode() {
    assert_eq!(numeric_text("bool", "false"), NumericText::Bool(false));
    assert_eq!(numeric_text("BOOL", "1"), NumericText::Bool(false));
    assert_eq!(numeric_text("INT", "16#zz"), NumericText::Decimal);
    assert_eq!(numeric_text("REAL", "12.5"), NumericText::Decimal);
    let c: Vec<char> = "+ff".chars().collect();
    assert_eq!(parse_hex_u64(&c), Some(255));
    let big: Vec<char> = "10000000000000000".chars().collect();
    assert_eq!(parse_hex_u64(&big), None);
    let max: Vec<char> = "FFFFFFFFFFFFFFFF".chars().collect();
    assert_eq!(parse_hex_u64(&max), Some(u64::MAX));
    assert_eq!(parse_hex_u64(&['+']), None);
}

#[test]
fn polling_verdicts() {
    assert_eq!(expect_verdict(Some(true), false), Verdict::Pass);
    assert_eq!(expect_verdict(None, true), Verdict::Fail);
    assert_eq!(expect_verdict(Some(false), false), Verdict::Poll);
    assert_eq!(never_verdict(Some(true), false), Verdict::Fail);
    assert_eq!(never_verdict(Some(false), true), Verdict::Pass);
    assert_eq!(alarm_verdict(Some(false), false, false), Verdict::Pass);
    assert_eq!(alarm_verdict(None, true, true), Verdict::Fail);
    let hold = watchdog_window(&WatchdogStep { tripped: false, within_ms: None, during_ms: Some(800) });
    assert_eq!(hold, WatchdogWindow::Hold { ms: 800 });
    assert_eq!(watchdog_verdict(hold, true, false, false), Verdict::Fail);
    assert_eq!(watchdog_verdict(hold, false, false, true), Verdict::Pass);
    let reach = watchdog_window(&WatchdogStep { tripped: true, within_ms: None, during_ms: None });
    assert_eq!(reach, WatchdogWindow::Reach { ms: 5000 });
    assert_eq!(watchdog_verdict(reach, true, true, false), Verdict::Pass);
    assert_eq!(watchdog_verdict(reach, false, true, true), Verdict::Fail);
}

#[test]
fn step_reports_read_like_the_run_log() {
    assert_eq!(wait_report(300), "wait 300ms");
    assert_eq!(set_report("inlet_cmd", "TRUE"), "set inlet_cmd := TRUE");
    assert_eq!(step_failure("set", "x", "boom"), "set x: boom");
    assert_eq!(
        inject_report(&InjectStep { scan_stall_ms: 25, scans: None }),
        "inject scan stall 25ms x default"
    );
    assert_eq!(
        inject_report(&InjectStep { scan_stall_ms: 25, scans: Some(4) }),
        "inject scan stall 25ms x 4"
    );
    assert_eq!(step_line(3, true, "wait 1ms"), "  ✓ step 3: wait 1ms");
    assert_eq!(step_line(2, false, "nope"), "  ✗ step 2: nope");
    assert_eq!(failure_entry(2, "nope"), "step 2: nope");
    assert!(empty_step_report().starts_with("empty step (write one of: wait_ms"));
}

#[test]
fn alarm_polls_pass_fail_and_hint_at_unknown_ids() {
    let step = AlarmStep { id: "level_high".into(), active: true, within_ms: 3000 };
    let (o, seen) = alarm_poll(&step, Some(true), false, false);
    assert_eq!(o, Outcome::Held("alarm level_high active".into()));
    assert!(seen);
    let (o, seen) = alarm_poll(&step, Some(false), false, false);
    assert_eq!(o, Outcome::Again);
    assert!(seen);
    let (o, _) = alarm_poll(&step, None, true, true);
    assert_eq!(o, Outcome::Failed("alarm level_high did not become active within 3000ms".into()));
    let (o, seen) = alarm_poll(&step, None, false, true);
    assert_eq!(
        o,
        Outcome::Failed(
            "alarm level_high did not become active within 3000ms (id not defined in alarms.toml?)".into()
        )
    );
    assert!(!seen);
    let cleared = AlarmStep { id: "a".into(), active: false, within_ms: 10 };
    assert_eq!(alarm_poll(&cleared, Some(false), false, false).0, Outcome::Held("alarm a inactive".into()));
}

#[test]
fn watchdog_polls_hold_and_reach() {
    let hold = WatchdogWindow::Hold { ms: 800 };
    assert_eq!(
        watchdog_poll(hold, false, true, false),
        Outcome::Failed(
            "watchdog became tripped (latched) inside the 800ms window (required: stays not tripped)".into()
        )
    );
    assert_eq!(watchdog_poll(hold, false, false, false), Outcome::Again);
    assert_eq!(
        watchdog_poll(hold, false, false, true),
        Outcome::Held("watchdog not tripped for 800ms".into())
    );
    let reach = WatchdogWindow::Reach { ms: 3000 };
    assert_eq!(
        watchdog_poll(reach, true, true, false),
        Outcome::Held("watchdog tripped (latched)".into())
    );
    assert_eq!(
        watchdog_poll(reach, true, false, true),
        Outcome::Failed("watchdog_tripped stayed false for 3000ms (expected true)".into())
    );
}

#[test]
fn comparisons_complement_each_other() {
    for (a, e) in [(1.0, 2.0), (2.0, 2.0), (-0.0, 0.0), (f64::NAN, 1.0), (3.0, f64::NAN)] {
        assert_eq!(eval(CmpOp::Ne, bits(a), bits(e)), !eval(CmpOp::Eq, bits(a), bits(e)));
        assert_eq!(eval(CmpOp::IsFalse, bits(a), bits(e)), !eval(CmpOp::IsTrue, bits(a), bits(e)));
        if !a.is_nan() && !e.is_nan() {
            assert_eq!(eval(CmpOp::Gt, bits(a), bits(e)), !eval(CmpOp::Le, bits(a), bits(e)));
            assert_eq!(eval(CmpOp::Lt, bits(a), bits(e)), !eval(CmpOp::Ge, bits(a), bits(e)));
        }
        assert_eq!(eval(CmpOp::Gt, bits(a), bits(e)), a > e);
        assert_eq!(eval(CmpOp::Le, bits(a), bits(e)), a <= e);
    }
}

#[test]
fn exit_codes_of_a_run() {
    assert_eq!(ia2::sim::scenario_exit_code(0), 0);
    assert_eq!(ia2::sim::scenario_exit_code(1), 1);
    assert_eq!(ia2::sim::scenario_exit_code(7), 1);
}

#[test]
fn a_failed_request_sets_the_run_exit_code() {
    assert_eq!(ia2::sim::run_exit_code(0, None), 0);
    assert_eq!(ia2::sim::run_exit_code(1, None), 1);
    assert_eq!(ia2::sim::run_exit_code(1, Some(Failure::Api { status: 404 })), 2);
    assert_eq!(ia2::sim::run_exit_code(1, Some(Failure::Api { status: 503 })), 3);
    assert_eq!(ia2::sim::run_exit_code(1, Some(Failure::Infrastructure)), 3);
    assert_eq!(ia2::sim::run_exit_code(0, Some(Failure::Usage)), 2);
}
