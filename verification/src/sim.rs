//! `cs sim run` — scenario-driven simulation harness.
//!
//! A scenario is a list of steps executed top to bottom; each step is
//! exactly one of `wait_ms / set / expect / expect_never / expect_alarm /
//! inject / expect_watchdog`. This module holds the scenario's shape, its
//! validation, and the verdict each polling step reaches from one
//! observation; the caller does the polling, sleeping and HTTP.
use vstd::prelude::*;
use crate::cli::{exit_code_for, failure_code, Failure};
use crate::history::{sign_set, signed_magnitude};
use crate::runtime_cmd::ascii_lower_text;
use crate::text::{
    chars_of, decimal_chars, decimal_text, eq_str, extend_chars, extend_str, slice_chars, string_of,
};

verus! {

/// Comparison of an `expect` / `expect_never` step.
#[derive(Clone, Copy, PartialEq, Eq, Debug, Structural)]
pub enum CmpOp {
    Gt,
    Ge,
    Lt,
    Le,
    Eq,
    Ne,
    IsTrue,
    IsFalse,
}

/// `set = { var, value }`: play the plant (value already rendered as text).
pub struct SetStep {
    pub var: String,
    pub value_text: String,
}

/// `expect = { var, op, value, within_ms }` (what validation reads of the
/// float `value`: whether it is zero).
pub struct ExpectStep {
    pub var: String,
    pub op: CmpOp,
    pub value_is_zero: bool,
    pub within_ms: u64,
}

/// `expect_never = { var, op, value, during_ms }`.
pub struct NeverStep {
    pub var: String,
    pub op: CmpOp,
    pub during_ms: u64,
}

/// `expect_alarm = { id, active, within_ms }`.
pub struct AlarmStep {
    pub id: String,
    pub active: bool,
    pub within_ms: u64,
}

/// `inject = { scan_stall_ms, scans }`.
pub struct InjectStep {
    pub scan_stall_ms: u64,
    pub scans: Option<u32>,
}

/// `expect_watchdog = { tripped, within_ms | during_ms }`.
pub struct WatchdogStep {
    pub tripped: bool,
    pub within_ms: Option<u64>,
    pub during_ms: Option<u64>,
}

/// One scenario step: exactly one field should be present.
pub struct Step {
    pub wait_ms: Option<u64>,
    pub set: Option<SetStep>,
    pub expect: Option<ExpectStep>,
    pub expect_never: Option<NeverStep>,
    pub expect_alarm: Option<AlarmStep>,
    pub inject: Option<InjectStep>,
    pub expect_watchdog: Option<WatchdogStep>,
}

/// A scenario file.
pub struct Scenario {
    pub description: Option<String>,
    pub steps: Vec<Step>,
}

/// Default deadline / window of a polling step, in milliseconds.
pub fn default_within() -> (r: u64)
    ensures
        r == 5000,
{
    5000
}

/// Default of `expect_alarm.active` and `expect_watchdog.tripped`.
pub fn default_true() -> (r: bool)
    ensures
        r,
{
    true
}

/// How many of a step's fields are present.
pub open spec fn fields_present(s: Step) -> nat {
    (if s.wait_ms.is_some() { 1nat } else { 0nat }) + (if s.set.is_some() { 1nat } else { 0nat })
        + (if s.expect.is_some() { 1nat } else { 0nat }) + (if s.expect_never.is_some() {
        1nat
    } else {
        0nat
    }) + (if s.expect_alarm.is_some() { 1nat } else { 0nat }) + (if s.inject.is_some() {
        1nat
    } else {
        0nat
    }) + (if s.expect_watchdog.is_some() { 1nat } else { 0nat })
}

/// Why a scenario is rejected before it runs.
#[derive(Clone, Copy, PartialEq, Eq, Debug, Structural)]
pub enum ScenarioError {
    /// No `[[steps]]` at all.
    NoSteps,
    /// Step `step` (1-based) has `found` fields instead of one.
    NotExactlyOne { step: u64, found: u64 },
    /// `is_true` / `is_false` given a non-zero value.
    OpTakesNoValue { step: u64, op: CmpOp },
    /// `expect_watchdog` with both `within_ms` and `during_ms`.
    WatchdogBothWindows { step: u64 },
}

/// What is wrong with one step (`n`: its 1-based number), if anything.
pub open spec fn step_error(s: Step, n: u64) -> Option<ScenarioError> {
    if fields_present(s) != 1 {
        Some(ScenarioError::NotExactlyOne { step: n, found: fields_present(s) as u64 })
    } else if s.expect matches Some(e) && (e.op == CmpOp::IsTrue || e.op == CmpOp::IsFalse)
        && !e.value_is_zero {
        Some(ScenarioError::OpTakesNoValue { step: n, op: s.expect.unwrap().op })
    } else if s.expect_watchdog matches Some(w) && w.within_ms.is_some() && w.during_ms.is_some() {
        Some(ScenarioError::WatchdogBothWindows { step: n })
    } else {
        None
    }
}

/// The first faulty step at or after index `i`.
pub open spec fn first_step_error(steps: Seq<Step>, i: int) -> Option<ScenarioError>
    decreases steps.len() - i,
{
    if i < 0 || i >= steps.len() {
        None
    } else {
        match step_error(steps[i], (i + 1) as u64) {
            Some(e) => Some(e),
            None => first_step_error(steps, i + 1),
        }
    }
}

/// A scenario is accepted iff it has steps and no step is faulty; the
/// error reported is the first one.
pub open spec fn spec_validate(steps: Seq<Step>) -> Result<(), ScenarioError> {
    if steps.len() == 0 {
        Err(ScenarioError::NoSteps)
    } else {
        match first_step_error(steps, 0) {
            Some(e) => Err(e),
            None => Ok(()),
        }
    }
}

proof fn lemma_no_error_from(steps: Seq<Step>, i: int)
    requires
        0 <= i,
        first_step_error(steps, i) is None,
    ensures
        forall|j: int| i <= j < steps.len() ==> (#[trigger] step_error(steps[j], (j + 1) as u64)) is None,
    decreases steps.len() - i,
{
    if i < steps.len() {
        lemma_no_error_from(steps, i + 1);
    }
}

/// A scenario that validates has at least one step, and every step is
/// exactly one of the seven kinds, with no value on `is_true`/`is_false`
/// and at most one watchdog window.
pub proof fn law_valid_scenario_steps(steps: Seq<Step>)
    requires
        spec_validate(steps) is Ok,
    ensures
        steps.len() > 0,
        forall|j: int| 0 <= j < steps.len() ==> fields_present(#[trigger] steps[j]) == 1,
        forall|j: int|
            0 <= j < steps.len() ==> ((#[trigger] steps[j]).expect matches Some(e) ==> ((e.op
                == CmpOp::IsTrue || e.op == CmpOp::IsFalse) ==> e.value_is_zero)),
        forall|j: int|
            0 <= j < steps.len() ==> ((#[trigger] steps[j]).expect_watchdog matches Some(w) ==> !(
            w.within_ms.is_some() && w.during_ms.is_some())),
{
    lemma_no_error_from(steps, 0);
    assert forall|j: int| 0 <= j < steps.len() implies fields_present(#[trigger] steps[j]) == 1 by {
        assert(step_error(steps[j], (j + 1) as u64) is None);
    }
    assert forall|j: int| 0 <= j < steps.len() implies ((#[trigger] steps[j]).expect matches Some(e)
        ==> ((e.op == CmpOp::IsTrue || e.op == CmpOp::IsFalse) ==> e.value_is_zero)) by {
        assert(step_error(steps[j], (j + 1) as u64) is None);
    }
    assert forall|j: int| 0 <= j < steps.len() implies ((#[trigger] steps[j]).expect_watchdog matches Some(w)
        ==> !(w.within_ms.is_some() && w.during_ms.is_some())) by {
        assert(step_error(steps[j], (j + 1) as u64) is None);
    }
}

fn count_fields(s: &Step) -> (r: u64)
    ensures
        r == fields_present(*s),
{
    let mut n: u64 = 0;
    if s.wait_ms.is_some() {
        n = n + 1;
    }
    if s.set.is_some() {
        n = n + 1;
    }
    if s.expect.is_some() {
        n = n + 1;
    }
    if s.expect_never.is_some() {
        n = n + 1;
    }
    if s.expect_alarm.is_some() {
        n = n + 1;
    }
    if s.inject.is_some() {
        n = n + 1;
    }
    if s.expect_watchdog.is_some() {
        n = n + 1;
    }
    n
}

/// Check a parsed scenario before running it.
pub fn validate(s: &Scenario) -> (r: Result<(), ScenarioError>)
    requires
        s.steps@.len() < u64::MAX,
    ensures
        r == spec_validate(s.steps@),
{
    if s.steps.len() == 0 {
        return Err(ScenarioError::NoSteps);
    }
    let mut i: usize = 0;
    while i < s.steps.len()
        invariant
            i <= s.steps@.len() < u64::MAX,
            first_step_error(s.steps@, 0) == first_step_error(s.steps@, i as int),
        decreases s.steps@.len() - i,
    {
        let step = &s.steps[i];
        let n = (i + 1) as u64;
        let found = count_fields(step);
        if found != 1 {
            return Err(ScenarioError::NotExactlyOne { step: n, found });
        }
        if let Some(e) = &step.expect {
            if (e.op == CmpOp::IsTrue || e.op == CmpOp::IsFalse) && !e.value_is_zero {
                return Err(ScenarioError::OpTakesNoValue { step: n, op: e.op });
            }
        }
        if let Some(w) = &step.expect_watchdog {
            if w.within_ms.is_some() && w.during_ms.is_some() {
                return Err(ScenarioError::WatchdogBothWindows { step: n });
            }
        }
        i = i + 1;
    }
    Ok(())
}

/// The debug name of a comparison (`{:?}`).
pub open spec fn op_name(op: CmpOp) -> Seq<char> {
    match op {
        CmpOp::Gt => "Gt"@,
        CmpOp::Ge => "Ge"@,
        CmpOp::Lt => "Lt"@,
        CmpOp::Le => "Le"@,
        CmpOp::Eq => "Eq"@,
        CmpOp::Ne => "Ne"@,
        CmpOp::IsTrue => "IsTrue"@,
        CmpOp::IsFalse => "IsFalse"@,
    }
}

fn op_str(op: CmpOp) -> (r: &'static str)
    ensures
        r@ == op_name(op),
{
    match op {
        CmpOp::Gt => "Gt",
        CmpOp::Ge => "Ge",
        CmpOp::Lt => "Lt",
        CmpOp::Le => "Le",
        CmpOp::Eq => "Eq",
        CmpOp::Ne => "Ne",
        CmpOp::IsTrue => "IsTrue",
        CmpOp::IsFalse => "IsFalse",
    }
}

impl ScenarioError {
    /// The message shown for the error.
    pub open spec fn text(self) -> Seq<char> {
        match self {
            ScenarioError::NoSteps => "scenario has no [[steps]]"@,
            ScenarioError::NotExactlyOne { step, found } => "step "@ + decimal_text(step as nat)
                + ": exactly one of wait_ms / set / expect / expect_never / expect_alarm / inject / expect_watchdog (found "@
                + decimal_text(found as nat) + ")"@,
            ScenarioError::OpTakesNoValue { step, op } => "step "@ + decimal_text(step as nat)
                + ": `"@ + op_name(op) + "` takes no value"@,
            ScenarioError::WatchdogBothWindows { step } => "step "@ + decimal_text(step as nat)
                + ": expect_watchdog takes within_ms (reached by deadline) OR during_ms (holds for the window), not both"@,
        }
    }

    /// The message shown for the error.
    pub fn message(&self) -> (r: String)
        ensures
            r@ == self.text(),
    {
        let mut m: Vec<char> = Vec::new();
        match self {
            ScenarioError::NoSteps => {
                extend_str(&mut m, "scenario has no [[steps]]");
            },
            ScenarioError::NotExactlyOne { step, found } => {
                extend_str(&mut m, "step ");
                extend_chars(&mut m, &decimal_chars(*step as u128));
                extend_str(
                    &mut m,
                    ": exactly one of wait_ms / set / expect / expect_never / expect_alarm / inject / expect_watchdog (found ",
                );
                extend_chars(&mut m, &decimal_chars(*found as u128));
                extend_str(&mut m, ")");
            },
            ScenarioError::OpTakesNoValue { step, op } => {
                extend_str(&mut m, "step ");
                extend_chars(&mut m, &decimal_chars(*step as u128));
                extend_str(&mut m, ": `");
                extend_str(&mut m, op_str(*op));
                extend_str(&mut m, "` takes no value");
            },
            ScenarioError::WatchdogBothWindows { step } => {
                extend_str(&mut m, "step ");
                extend_chars(&mut m, &decimal_chars(*step as u128));
                extend_str(
                    &mut m,
                    ": expect_watchdog takes within_ms (reached by deadline) OR during_ms (holds for the window), not both",
                );
            },
        }
        string_of(&m)
    }
}

// ------------------------------------------------------------ polling
/// Outcome of one poll of a waiting step.
#[derive(Clone, Copy, PartialEq, Eq, Debug, Structural)]
pub enum Verdict {
    /// The step held.
    Pass,
    /// The step failed.
    Fail,
    /// Sleep one poll interval and observe again.
    Poll,
}

/// `expect`: passes on the first observation that satisfies the
/// comparison (`observed`: `None` when the variable is absent from the
/// snapshot), fails once the deadline has passed.
pub fn expect_verdict(observed: Option<bool>, deadline_passed: bool) -> (r: Verdict)
    ensures
        r == (if observed == Some(true) {
            Verdict::Pass
        } else if deadline_passed {
            Verdict::Fail
        } else {
            Verdict::Poll
        }),
{
    if observed == Some(true) {
        Verdict::Pass
    } else if deadline_passed {
        Verdict::Fail
    } else {
        Verdict::Poll
    }
}

/// `expect_never`: fails on the first observation that satisfies the
/// comparison, passes once the whole window has elapsed.
pub fn never_verdict(observed: Option<bool>, deadline_passed: bool) -> (r: Verdict)
    ensures
        r == (if observed == Some(true) {
            Verdict::Fail
        } else if deadline_passed {
            Verdict::Pass
        } else {
            Verdict::Poll
        }),
{
    if observed == Some(true) {
        Verdict::Fail
    } else if deadline_passed {
        Verdict::Pass
    } else {
        Verdict::Poll
    }
}

/// `expect_alarm`: passes when the alarm is found in the wanted state
/// (`active`: `None` when the id is absent), fails at the deadline.
pub fn alarm_verdict(active: Option<bool>, want_active: bool, deadline_passed: bool) -> (r: Verdict)
    ensures
        r == (if active == Some(want_active) {
            Verdict::Pass
        } else if deadline_passed {
            Verdict::Fail
        } else {
            Verdict::Poll
        }),
{
    if active == Some(want_active) {
        Verdict::Pass
    } else if deadline_passed {
        Verdict::Fail
    } else {
        Verdict::Poll
    }
}

/// How an `expect_watchdog` step is judged.
#[derive(Clone, Copy, PartialEq, Eq, Debug, Structural)]
pub enum WatchdogWindow {
    /// The state must hold at every poll for `ms`.
    Hold { ms: u64 },
    /// The state must be reached within `ms`.
    Reach { ms: u64 },
}

/// `during_ms` selects hold semantics; otherwise the state must be reached
/// within `within_ms` (default 5000).
pub fn watchdog_window(w: &WatchdogStep) -> (r: WatchdogWindow)
    ensures
        w.during_ms matches Some(d) ==> r == (WatchdogWindow::Hold { ms: d }),
        w.during_ms is None ==> r == (WatchdogWindow::Reach {
            ms: match w.within_ms {
                Some(x) => x,
                None => 5000,
            },
        }),
{
    match w.during_ms {
        Some(d) => WatchdogWindow::Hold { ms: d },
        None => WatchdogWindow::Reach {
            ms: match w.within_ms {
                Some(x) => x,
                None => default_within(),
            },
        },
    }
}

/// `expect_watchdog`: with hold semantics the first differing observation
/// fails and the end of the window passes; with reach semantics the first
/// matching observation passes and the deadline fails.
pub fn watchdog_verdict(window: WatchdogWindow, tripped: bool, want: bool, deadline_passed: bool) -> (r: Verdict)
    ensures
        window is Hold ==> r == (if tripped != want {
            Verdict::Fail
        } else if deadline_passed {
            Verdict::Pass
        } else {
            Verdict::Poll
        }),
        window is Reach ==> r == (if tripped == want {
            Verdict::Pass
        } else if deadline_passed {
            Verdict::Fail
        } else {
            Verdict::Poll
        }),
{
    match window {
        WatchdogWindow::Hold { .. } => if tripped != want {
            Verdict::Fail
        } else if deadline_passed {
            Verdict::Pass
        } else {
            Verdict::Poll
        },
        WatchdogWindow::Reach { .. } => if tripped == want {
            Verdict::Pass
        } else if deadline_passed {
            Verdict::Fail
        } else {
            Verdict::Poll
        },
    }
}

// ------------------------------------------------------------ step reports
/// What one poll of a step concluded, with the text reported for it.
#[derive(Debug, PartialEq)]
pub enum Outcome {
    /// The step held.
    Held(String),
    /// The step failed.
    Failed(String),
    /// Sleep one poll interval and observe again.
    Again,
}

/// An [`Outcome`] with its text as a character sequence.
pub enum OutcomeView {
    Held(Seq<char>),
    Failed(Seq<char>),
    Again,
}

impl View for Outcome {
    type V = OutcomeView;

    open spec fn view(&self) -> OutcomeView {
        match self {
            Outcome::Held(t) => OutcomeView::Held(t@),
            Outcome::Failed(t) => OutcomeView::Failed(t@),
            Outcome::Again => OutcomeView::Again,
        }
    }
}

/// `true` / `false` as Rust prints a `bool`.
pub open spec fn bool_text(b: bool) -> Seq<char> {
    if b {
        "true"@
    } else {
        "false"@
    }
}

fn bool_str(b: bool) -> (r: &'static str)
    ensures
        r@ == bool_text(b),
{
    if b {
        "true"
    } else {
        "false"
    }
}

/// The report of a `wait_ms` step.
pub fn wait_report(ms: u64) -> (r: String)
    ensures
        r@ == "wait "@ + decimal_text(ms as nat) + "ms"@,
{
    let mut m = chars_of("wait ");
    extend_chars(&mut m, &decimal_chars(ms as u128));
    extend_str(&mut m, "ms");
    string_of(&m)
}

/// The report of a `set` step that wrote `raw` to `var`.
pub fn set_report(var: &str, raw: &str) -> (r: String)
    ensures
        r@ == "set "@ + var@ + " := "@ + raw@,
{
    let mut m = chars_of("set ");
    extend_str(&mut m, var);
    extend_str(&mut m, " := ");
    extend_str(&mut m, raw);
    string_of(&m)
}

/// A failure message prefixed with the step kind and its subject
/// (`set level: …`, `expect level: …`).
pub fn step_failure(what: &str, subject: &str, error: &str) -> (r: String)
    ensures
        r@ == what@ + " "@ + subject@ + ": "@ + error@,
{
    let mut m = chars_of(what);
    extend_str(&mut m, " ");
    extend_str(&mut m, subject);
    extend_str(&mut m, ": ");
    extend_str(&mut m, error);
    string_of(&m)
}

/// `active` / `inactive`.
pub open spec fn active_word(b: bool) -> Seq<char> {
    if b {
        "active"@
    } else {
        "inactive"@
    }
}

fn active_str(b: bool) -> (r: &'static str)
    ensures
        r@ == active_word(b),
{
    if b {
        "active"
    } else {
        "inactive"
    }
}

/// What one poll of an `expect_alarm` step concludes. `found`: the
/// alarm's `active` flag, `None` when the id is not among the states;
/// `seen`: whether an earlier poll found the id. Returns the outcome and
/// the updated `seen`.
pub open spec fn spec_alarm_poll(id: Seq<char>, want: bool, within_ms: u64, found: Option<bool>, seen: bool, deadline_passed: bool) -> (
    OutcomeView,
    bool,
) {
    let seen2 = seen || found.is_some();
    if found == Some(want) {
        (OutcomeView::Held("alarm "@ + id + " "@ + active_word(want)), seen2)
    } else if deadline_passed {
        (
            OutcomeView::Failed(
                "alarm "@ + id + " did not become "@ + active_word(want) + " within "@ + decimal_text(
                    within_ms as nat,
                ) + "ms"@ + if seen2 {
                    Seq::<char>::empty()
                } else {
                    " (id not defined in alarms.toml?)"@
                },
            ),
            seen2,
        )
    } else {
        (OutcomeView::Again, seen2)
    }
}

/// One poll of an `expect_alarm` step (see [`spec_alarm_poll`]).
pub fn alarm_poll(step: &AlarmStep, found: Option<bool>, seen: bool, deadline_passed: bool) -> (r: (
    Outcome,
    bool,
))
    ensures
        (r.0@, r.1) == spec_alarm_poll(step.id@, step.active, step.within_ms, found, seen, deadline_passed),
{
    let seen2 = seen || found.is_some();
    match alarm_verdict(found, step.active, deadline_passed) {
        Verdict::Pass => {
            let mut m = chars_of("alarm ");
            extend_str(&mut m, step.id.as_str());
            extend_str(&mut m, " ");
            extend_str(&mut m, active_str(step.active));
            (Outcome::Held(string_of(&m)), seen2)
        },
        Verdict::Fail => {
            let mut m = chars_of("alarm ");
            extend_str(&mut m, step.id.as_str());
            extend_str(&mut m, " did not become ");
            extend_str(&mut m, active_str(step.active));
            extend_str(&mut m, " within ");
            extend_chars(&mut m, &decimal_chars(step.within_ms as u128));
            extend_str(&mut m, "ms");
            if !seen2 {
                extend_str(&mut m, " (id not defined in alarms.toml?)");
            } else {
                assert(m@ =~= m@ + Seq::<char>::empty());
            }
            (Outcome::Failed(string_of(&m)), seen2)
        },
        Verdict::Poll => (Outcome::Again, seen2),
    }
}

/// The report of an `inject` step.
pub fn inject_report(step: &InjectStep) -> (r: String)
    ensures
        r@ == "inject scan stall "@ + decimal_text(step.scan_stall_ms as nat) + "ms x "@ + (
        match step.scans {
            Some(n) => decimal_text(n as nat),
            None => "default"@,
        }),
{
    let mut m = chars_of("inject scan stall ");
    extend_chars(&mut m, &decimal_chars(step.scan_stall_ms as u128));
    extend_str(&mut m, "ms x ");
    match step.scans {
        Some(n) => extend_chars(&mut m, &decimal_chars(n as u128)),
        None => extend_str(&mut m, "default"),
    }
    string_of(&m)
}

/// How the watchdog latch is described.
pub open spec fn tripped_word(b: bool) -> Seq<char> {
    if b {
        "tripped (latched)"@
    } else {
        "not tripped"@
    }
}

fn tripped_str(b: bool) -> (r: &'static str)
    ensures
        r@ == tripped_word(b),
{
    if b {
        "tripped (latched)"
    } else {
        "not tripped"
    }
}

/// What one poll of an `expect_watchdog` step concludes (`tripped`: the
/// latch as just read).
pub open spec fn spec_watchdog_poll(window: WatchdogWindow, want: bool, tripped: bool, deadline_passed: bool) -> OutcomeView {
    match window {
        WatchdogWindow::Hold { ms } => if tripped != want {
            OutcomeView::Failed(
                "watchdog became "@ + tripped_word(tripped) + " inside the "@ + decimal_text(ms as nat)
                    + "ms window (required: stays "@ + tripped_word(want) + ")"@,
            )
        } else if deadline_passed {
            OutcomeView::Held("watchdog "@ + tripped_word(want) + " for "@ + decimal_text(ms as nat) + "ms"@)
        } else {
            OutcomeView::Again
        },
        WatchdogWindow::Reach { ms } => if tripped == want {
            OutcomeView::Held("watchdog "@ + tripped_word(want))
        } else if deadline_passed {
            OutcomeView::Failed(
                "watchdog_tripped stayed "@ + bool_text(tripped) + " for "@ + decimal_text(ms as nat)
                    + "ms (expected "@ + bool_text(want) + ")"@,
            )
        } else {
            OutcomeView::Again
        },
    }
}

/// One poll of an `expect_watchdog` step (see [`spec_watchdog_poll`]).
pub fn watchdog_poll(window: WatchdogWindow, want: bool, tripped: bool, deadline_passed: bool) -> (r: Outcome)
    ensures
        r@ == spec_watchdog_poll(window, want, tripped, deadline_passed),
{
    match watchdog_verdict(window, tripped, want, deadline_passed) {
        Verdict::Poll => Outcome::Again,
        Verdict::Pass => match window {
            WatchdogWindow::Hold { ms } => {
                let mut m = chars_of("watchdog ");
                extend_str(&mut m, tripped_str(want));
                extend_str(&mut m, " for ");
                extend_chars(&mut m, &decimal_chars(ms as u128));
                extend_str(&mut m, "ms");
                Outcome::Held(string_of(&m))
            },
            WatchdogWindow::Reach { .. } => {
                let mut m = chars_of("watchdog ");
                extend_str(&mut m, tripped_str(want));
                Outcome::Held(string_of(&m))
            },
        },
        Verdict::Fail => match window {
            WatchdogWindow::Hold { ms } => {
                let mut m = chars_of("watchdog became ");
                extend_str(&mut m, tripped_str(tripped));
                extend_str(&mut m, " inside the ");
                extend_chars(&mut m, &decimal_chars(ms as u128));
                extend_str(&mut m, "ms window (required: stays ");
                extend_str(&mut m, tripped_str(want));
                extend_str(&mut m, ")");
                Outcome::Failed(string_of(&m))
            },
            WatchdogWindow::Reach { ms } => {
                let mut m = chars_of("watchdog_tripped stayed ");
                extend_str(&mut m, bool_str(tripped));
                extend_str(&mut m, " for ");
                extend_chars(&mut m, &decimal_chars(ms as u128));
                extend_str(&mut m, "ms (expected ");
                extend_str(&mut m, bool_str(want));
                extend_str(&mut m, ")");
                Outcome::Failed(string_of(&m))
            },
        },
    }
}

/// The failure of a step with no field at all (only reachable for an
/// unvalidated scenario).
pub fn empty_step_report() -> (r: &'static str)
    ensures
        r@ == "empty step (write one of: wait_ms / set / expect / expect_never / expect_alarm / inject / expect_watchdog)"@,
{
    "empty step (write one of: wait_ms / set / expect / expect_never / expect_alarm / inject / expect_watchdog)"
}

/// The progress line of step `n`: `  ✓ step n: …` or `  ✗ step n: …`.
pub fn step_line(n: u64, held: bool, text: &str) -> (r: String)
    ensures
        r@ == (if held { "  ✓ step "@ } else { "  ✗ step "@ }) + decimal_text(n as nat) + ": "@ + text@,
{
    let mut m = if held {
        chars_of("  ✓ step ")
    } else {
        chars_of("  ✗ step ")
    };
    extend_chars(&mut m, &decimal_chars(n as u128));
    extend_str(&mut m, ": ");
    extend_str(&mut m, text);
    string_of(&m)
}

/// The entry a failed step leaves in the run's failure list.
pub fn failure_entry(n: u64, text: &str) -> (r: String)
    ensures
        r@ == "step "@ + decimal_text(n as nat) + ": "@ + text@,
{
    let mut m = chars_of("step ");
    extend_chars(&mut m, &decimal_chars(n as u128));
    extend_str(&mut m, ": ");
    extend_str(&mut m, text);
    string_of(&m)
}

/// Exit code of a run: 0 when every step held, 1 otherwise.
pub fn scenario_exit_code(failures: usize) -> (r: i32)
    ensures
        r == (if failures == 0 { 0i32 } else { 1i32 }),
{
    if failures == 0 {
        0
    } else {
        1
    }
}

/// Exit code of a run that may have been cut short by a failed request:
/// the request's own code (2 for a 4xx or a usage error, 3 for the
/// infrastructure) when one broke the run, else that of the steps.
pub fn run_exit_code(failures: usize, broken: Option<Failure>) -> (r: i32)
    ensures
        r == (match broken {
            Some(f) => failure_code(f),
            None => if failures == 0 { 0i32 } else { 1i32 },
        }),
{
    match broken {
        Some(f) => exit_code_for(f),
        None => scenario_exit_code(failures),
    }
}

// ------------------------------------------------------------ value decode
pub open spec fn is_hex_digit(c: char) -> bool {
    ('0' <= c <= '9') || ('a' <= c <= 'f') || ('A' <= c <= 'F')
}

pub open spec fn hex_digit_value(c: char) -> nat {
    if '0' <= c <= '9' {
        ((c as nat) - ('0' as nat)) as nat
    } else if 'a' <= c <= 'f' {
        ((c as nat) - ('a' as nat) + 10) as nat
    } else {
        ((c as nat) - ('A' as nat) + 10) as nat
    }
}

/// The value of a run of hex digits.
pub open spec fn hex_value(d: Seq<char>) -> nat
    decreases d.len(),
{
    if d.len() == 0 {
        0
    } else {
        hex_value(d.drop_last()) * 16 + hex_digit_value(d.last())
    }
}

/// The text after an optional leading `+`.
pub open spec fn hex_digits_part(s: Seq<char>) -> Seq<char> {
    if s.len() > 0 && s[0] == '+' {
        s.drop_first()
    } else {
        s
    }
}

/// One or more hex digits.
pub open spec fn all_hex(d: Seq<char>) -> bool {
    d.len() > 0 && forall|i: int| 0 <= i < d.len() ==> is_hex_digit(#[trigger] d[i])
}

/// `u64::from_str_radix(s, 16)`: an optional `+`, then one or more hex
/// digits whose value fits 64 bits.
pub open spec fn parse_hex_spec(s: Seq<char>) -> Option<u64> {
    let d = hex_digits_part(s);
    if all_hex(d) && hex_value(d) <= u64::MAX {
        Some(hex_value(d) as u64)
    } else {
        None
    }
}

/// `u64::from_str_radix(s, 16)`.
pub fn parse_hex_u64(s: &[char]) -> (r: Option<u64>)
    ensures
        r == parse_hex_spec(s@),
{
    let start: usize = if s.len() > 0 && s[0] == '+' { 1 } else { 0 };
    let ghost d = s@.skip(start as int);
    assert(start == 1 ==> d == s@.drop_first());
    assert(start == 0 ==> d == s@);
    assert(d == hex_digits_part(s@));
    if start == s.len() {
        return None;
    }
    let mut acc: u128 = 0;
    let mut over = false;
    let mut i = start;
    while i < s.len()
        invariant
            start <= i <= s@.len(),
            d == s@.skip(start as int),
            d == hex_digits_part(s@),
            forall|j: int| 0 <= j < i - start ==> is_hex_digit(#[trigger] d[j]),
            !over ==> acc == hex_value(d.take(i - start)) && acc <= u64::MAX,
            over ==> hex_value(d.take(i - start)) > u64::MAX,
        decreases s@.len() - i,
    {
        let c = s[i];
        assert(d[i - start] == c);
        let v: u128 = if '0' <= c && c <= '9' {
            (c as u32 - '0' as u32) as u128
        } else if 'a' <= c && c <= 'f' {
            (c as u32 - 'a' as u32 + 10) as u128
        } else if 'A' <= c && c <= 'F' {
            (c as u32 - 'A' as u32 + 10) as u128
        } else {
            assert(!is_hex_digit(d[i - start]));
            assert(d == hex_digits_part(s@));
            assert(!all_hex(d));
            return None;
        };
        assert(d.take(i - start + 1).drop_last() =~= d.take(i - start));
        assert(d.take(i - start + 1).last() == c);
        if !over {
            let next = acc * 16 + v;
            if next > 0xffff_ffff_ffff_ffff {
                over = true;
            } else {
                acc = next;
            }
        }
        i = i + 1;
    }
    assert(d.take(d.len() as int) =~= d);
    if over {
        None
    } else {
        Some(acc as u64)
    }
}

/// How a snapshot variable's display text becomes a number: BOOL by its
/// TRUE/FALSE text, `16#`-prefixed hex as an integer, anything else by
/// decimal float parsing (done by the caller).
#[derive(Clone, Copy, PartialEq, Eq, Debug, Structural)]
pub enum NumericText {
    Bool(bool),
    Hex(u64),
    Decimal,
}

/// The decoding rule of a snapshot variable's display text.
pub open spec fn spec_numeric_text(iec_type: Seq<char>, display: Seq<char>) -> NumericText {
    if ascii_lower_text(iec_type) == "bool"@ {
        NumericText::Bool(ascii_lower_text(display) == "true"@)
    } else if crate::text::has_prefix(display, "16#"@) && parse_hex_spec(
        display.skip("16#"@.len() as int),
    ) is Some {
        NumericText::Hex(parse_hex_spec(display.skip("16#"@.len() as int)).unwrap())
    } else {
        NumericText::Decimal
    }
}

fn lower(s: &[char]) -> (r: Vec<char>)
    ensures
        r@ == ascii_lower_text(s@),
{
    let mut r: Vec<char> = Vec::new();
    for i in 0..s.len()
        invariant
            r@ == ascii_lower_text(s@).take(i as int),
    {
        let c = s[i];
        let l = if 'A' <= c && c <= 'Z' {
            ((c as u8) + 32) as char
        } else {
            c
        };
        r.push(l);
        assert(r@ =~= ascii_lower_text(s@).take(i + 1));
    }
    assert(ascii_lower_text(s@).take(s@.len() as int) =~= ascii_lower_text(s@));
    r
}

/// Decode rule for one snapshot variable (case-insensitive BOOL / TRUE).
pub fn numeric_text(iec_type: &str, display: &str) -> (r: NumericText)
    ensures
        r == spec_numeric_text(iec_type@, display@),
{
    let t = lower(&chars_of(iec_type));
    let d = chars_of(display);
    if eq_str(&t, "bool") {
        let dl = lower(&d);
        return NumericText::Bool(eq_str(&dl, "true"));
    }
    let prefix = chars_of("16#");
    if crate::text::starts_with_chars(&d, &prefix) {
        let rest = slice_chars(&d, prefix.len(), d.len());
        assert(rest@ == display@.skip("16#"@.len() as int));
        if let Some(n) = parse_hex_u64(&rest) {
            return NumericText::Hex(n);
        }
    }
    NumericText::Decimal
}

// ------------------------------------------------------------ comparisons
/// The f64 pattern is a NaN: exponent all ones, fraction non-zero.
pub open spec fn is_nan_bits(b: u64) -> bool {
    (b / 0x10_0000_0000_0000) % 0x800 == 0x7ff && b % 0x10_0000_0000_0000 != 0
}

/// IEEE-754 comparison of two f64 patterns: any comparison with a NaN is
/// false (so `!=` is true); otherwise values compare by sign and
/// magnitude, with `-0.0 == +0.0` (infinities have the largest magnitude).
pub open spec fn spec_eval(op: CmpOp, actual: u64, expected: u64) -> bool {
    let nan = is_nan_bits(actual) || is_nan_bits(expected);
    let a = signed_magnitude(actual);
    let e = signed_magnitude(expected);
    let a_nan = is_nan_bits(actual);
    match op {
        CmpOp::Gt => !nan && a > e,
        CmpOp::Ge => !nan && a >= e,
        CmpOp::Lt => !nan && a < e,
        CmpOp::Le => !nan && a <= e,
        CmpOp::Eq => !nan && a == e,
        CmpOp::Ne => nan || a != e,
        CmpOp::IsTrue => a_nan || a != 0,
        CmpOp::IsFalse => !a_nan && a == 0,
    }
}

/// The comparisons pair up as IEEE-754 prescribes: `ne` is the negation
/// of `eq` and `is_false` of `is_true` for every value; for values that are
/// not NaN, `gt` negates `le` and `lt` negates `ge`. Every comparison but
/// `ne` and `is_true` is false on NaN.
pub proof fn law_comparisons_complement(actual: u64, expected: u64)
    ensures
        spec_eval(CmpOp::Ne, actual, expected) == !spec_eval(CmpOp::Eq, actual, expected),
        spec_eval(CmpOp::IsFalse, actual, expected) == !spec_eval(CmpOp::IsTrue, actual, expected),
        !is_nan_bits(actual) && !is_nan_bits(expected) ==> spec_eval(CmpOp::Gt, actual, expected)
            == !spec_eval(CmpOp::Le, actual, expected) && spec_eval(CmpOp::Lt, actual, expected)
            == !spec_eval(CmpOp::Ge, actual, expected),
        is_nan_bits(actual) ==> !spec_eval(CmpOp::Gt, actual, expected) && !spec_eval(
            CmpOp::Ge,
            actual,
            expected,
        ) && !spec_eval(CmpOp::Lt, actual, expected) && !spec_eval(CmpOp::Le, actual, expected)
            && !spec_eval(CmpOp::Eq, actual, expected) && !spec_eval(CmpOp::IsFalse, actual, expected),
{
}

fn nan_bits(b: u64) -> (r: bool)
    ensures
        r == is_nan_bits(b),
{
    (b / 0x10_0000_0000_0000) % 0x800 == 0x7ff && b % 0x10_0000_0000_0000 != 0
}

/// Sign and magnitude of a pattern: (negative, magnitude bits).
fn sign_mag(b: u64) -> (r: (bool, u64))
    ensures
        r.0 == sign_set(b),
        signed_magnitude(b) == if r.0 { -(r.1 as int) } else { r.1 as int },
{
    if b >= 0x8000_0000_0000_0000 {
        (true, b - 0x8000_0000_0000_0000)
    } else {
        (false, b)
    }
}

/// `signed_magnitude(a) < signed_magnitude(b)`.
fn sm_less(a: u64, b: u64) -> (r: bool)
    ensures
        r == (signed_magnitude(a) < signed_magnitude(b)),
{
    let (na, ma) = sign_mag(a);
    let (nb, mb) = sign_mag(b);
    if na && nb {
        mb < ma
    } else if na && !nb {
        !(ma == 0 && mb == 0)
    } else if !na && nb {
        false
    } else {
        ma < mb
    }
}

/// Compare an observed value with the expected one (both as f64 bit
/// patterns), with IEEE-754 semantics.
pub fn eval(op: CmpOp, actual: u64, expected: u64) -> (r: bool)
    ensures
        r == spec_eval(op, actual, expected),
{
    let nan = nan_bits(actual) || nan_bits(expected);
    let lt = sm_less(actual, expected);
    let gt = sm_less(expected, actual);
    let zero = 0u64;
    match op {
        CmpOp::Gt => !nan && gt,
        CmpOp::Ge => !nan && !lt,
        CmpOp::Lt => !nan && lt,
        CmpOp::Le => !nan && !gt,
        CmpOp::Eq => !nan && !lt && !gt,
        CmpOp::Ne => nan || lt || gt,
        CmpOp::IsTrue => nan_bits(actual) || sm_less(actual, zero) || sm_less(zero, actual),
        CmpOp::IsFalse => !nan_bits(actual) && !sm_less(actual, zero) && !sm_less(zero, actual),
    }
}

} // verus!
