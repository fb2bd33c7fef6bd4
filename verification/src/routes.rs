//! The runtime-monitor routes of the IDE server: request/response shapes
//! and what each handler decides. Every debug-control route looks up the
//! live program first and answers 409 when nothing runs.
use vstd::prelude::*;
use crate::history::{
    buckets, oldest_us_of, points_view, query_names, ring_of, step_us_of, string_views, Historian,
    HistoryResponse,
};
use crate::monitor::{
    entry_views, force_entries, forced, pause, resume, sorted_by_name, step, unforced, ForceEntry,
    ModeResponse, ProgramHandle, RuntimeMode, StepRequest,
};
use crate::text::{comma_list, split_comma_list};

verus! {

/// Query of the history route.
pub struct HistoryQuery {
    /// Comma-separated variable names; empty = all recorded.
    pub vars: String,
    pub from_us: u64,
    /// 0 = no upper bound.
    pub to_us: u64,
    /// Bucket width; defaults to 1000 ms.
    pub step_ms: u64,
}

/// Default bucket width of a history query, in milliseconds.
pub fn default_step_ms() -> (r: u64)
    ensures
        r == 1000,
{
    1000
}

impl HistoryQuery {
    /// The query with every field at its default.
    pub fn defaults() -> (r: HistoryQuery)
        ensures
            r.vars@.len() == 0,
            r.from_us == 0,
            r.to_us == 0,
            r.step_ms == 1000,
    {
        HistoryQuery { vars: String::new(), from_us: 0, to_us: 0, step_ms: default_step_ms() }
    }

    /// The variable names asked for: split at `,`, trimmed, empty ones
    /// dropped.
    pub fn var_names(&self) -> (r: Vec<String>)
        ensures
            string_views(r@) == comma_list(self.vars@),
    {
        let r = split_comma_list(self.vars.as_str());
        assert(string_views(r@) =~= Seq::new(r@.len(), |i: int| r@[i]@));
        r
    }
}

/// Query of the alarm-journal route.
pub struct JournalQuery {
    pub limit: usize,
}

/// Default number of journal entries returned.
pub fn default_journal_limit() -> (r: usize)
    ensures
        r == 100,
{
    100
}

impl JournalQuery {
    pub fn defaults() -> (r: JournalQuery)
        ensures
            r.limit == 100,
    {
        JournalQuery { limit: default_journal_limit() }
    }
}

/// Live fieldbus health of one device of the running program.
pub struct DeviceHealth {
    pub name: String,
    /// `false`: the device's inputs are frozen at last-known values and its
    /// outputs are dropped, while the scan loop keeps running.
    pub healthy: bool,
}

/// What kind of run is active and which PROGRAM(s) it covers.
pub struct RunningInfo {
    /// `isolated` or `project`.
    pub kind: String,
    pub programs: Vec<String>,
}

/// One-shot overview of the runtime.
pub struct RuntimeStatus {
    pub running: bool,
    pub project: Option<String>,
    /// Program instances declared in tasks.toml.
    pub program_instances: Vec<String>,
    /// Device names declared in the project's `devices/` files.
    pub devices: Vec<String>,
    /// Live per-device fieldbus health; empty when nothing is running.
    pub device_health: Vec<DeviceHealth>,
    /// `true` once the scan watchdog has tripped (outputs latched off).
    pub watchdog_tripped: bool,
    /// Scan count from the most recent snapshot; 0 before the first one.
    pub scan_count: u64,
    /// Timestamp_us of the most recent snapshot, or 0.
    pub last_snapshot_us: u64,
    pub last_error: Option<String>,
    pub running_info: Option<RunningInfo>,
    /// Current scan-loop mode; `None` when nothing's running.
    pub mode: Option<RuntimeMode>,
    /// Currently-forced variables, sorted by name.
    pub forces: Vec<ForceEntry>,
}

/// What the status route reads from the project it is scoped to.
pub struct ProjectSummary {
    pub name: String,
    pub program_instances: Vec<String>,
    pub devices: Vec<String>,
}

/// The `(scan_count, timestamp_us)` of the most recent snapshot.
pub struct SnapshotStamp {
    pub scan_count: u64,
    pub timestamp_us: u64,
}

/// One-shot overview of the runtime: project-scoped fields from `project`
/// (all empty when no project matched), snapshot counters from
/// `snapshot` (0 before the first), live fields from `program` (mode,
/// sorted forces, device health and the watchdog latch —
/// `None`/empty/`false` when no program runs).
pub fn runtime_status(
    project: Option<ProjectSummary>,
    snapshot: Option<SnapshotStamp>,
    last_error: Option<String>,
    running_info: Option<RunningInfo>,
    program: Option<&ProgramHandle>,
    device_health: Vec<DeviceHealth>,
    watchdog_tripped: bool,
) -> (r: RuntimeStatus)
    ensures
        r.running == program.is_some(),
        project matches Some(p) ==> r.project == Some(p.name) && r.program_instances
            == p.program_instances && r.devices == p.devices,
        project is None ==> r.project is None && r.program_instances@.len() == 0
            && r.devices@.len() == 0,
        r.scan_count == (match snapshot {
            Some(s) => s.scan_count,
            None => 0,
        }),
        r.last_snapshot_us == (match snapshot {
            Some(s) => s.timestamp_us,
            None => 0,
        }),
        r.last_error == last_error,
        r.running_info == running_info,
        program matches Some(h) ==> r.mode == Some(h.spec_mode()) && r.device_health
            == device_health && r.watchdog_tripped == watchdog_tripped && sorted_by_name(
            entry_views(r.forces@),
        ) && r.forces@.len() == h.force_list().len() && (forall|e: (Seq<char>, i32)|
            entry_views(r.forces@).contains(e) <==> h.force_list().contains(e)),
        program is None ==> r.mode is None && r.device_health@.len() == 0
            && !r.watchdog_tripped && r.forces@.len() == 0,
{
    let running = program.is_some();
    let (project_name, programs, devices) = match project {
        Some(p) => (Some(p.name), p.program_instances, p.devices),
        None => (None, Vec::new(), Vec::new()),
    };
    let (scan_count, last_snapshot_us) = match snapshot {
        Some(s) => (s.scan_count, s.timestamp_us),
        None => (0, 0),
    };
    let (mode, forces, health, tripped) = match program {
        Some(h) => (Some(h.mode()), force_entries(h), device_health, watchdog_tripped),
        None => (None, Vec::new(), Vec::new(), false),
    };
    RuntimeStatus {
        running,
        project: project_name,
        program_instances: programs,
        devices,
        device_health: health,
        watchdog_tripped: tripped,
        scan_count,
        last_snapshot_us,
        last_error,
        running_info,
        mode,
        forces,
    }
}

/// Body of a variable write.
pub struct WriteVariableRequest {
    /// Raw i32 value to write (BOOL → 0/1, REAL → IEEE-754 bits, …).
    pub value: i32,
    /// Momentary hold: after `pulse_ms` the runtime writes 0 back.
    pub pulse_ms: Option<u32>,
}

/// Answer of a variable write.
pub struct WriteVariableResponse {
    pub name: String,
    pub value: i32,
}

/// Body of a force request.
pub struct ForceRequest {
    pub value: i32,
}

/// Answer of a force request.
pub struct ForceResponse {
    pub name: String,
    pub value: i32,
}

/// Answer of an unforce request: `{ "name": …, "forced": false }`.
pub struct UnforceResponse {
    pub name: String,
    pub forced: bool,
}

/// Failures of the runtime routes.
pub enum ApiError {
    /// 409: the operation needs a running program.
    Conflict(String),
    /// 404: no such resource.
    NotFound(String),
}

/// The 409 every debug-control route answers when nothing runs.
pub open spec fn no_program_message() -> Seq<char> {
    "no program running"@
}

pub open spec fn is_no_program(e: ApiError) -> bool {
    e matches ApiError::Conflict(m) && m@ == no_program_message()
}

fn no_program() -> (e: ApiError)
    ensures
        is_no_program(e),
{
    ApiError::Conflict(String::from_str("no program running"))
}

/// The live program, or the 409 every debug-control route answers when
/// nothing runs.
pub fn live_program(program: &Option<ProgramHandle>) -> (r: Result<&ProgramHandle, ApiError>)
    ensures
        program matches Some(h) ==> (r matches Ok(x) && *x == h),
        program is None ==> (r matches Err(e) && is_no_program(e)),
{
    match program {
        Some(h) => Ok(h),
        None => Err(no_program()),
    }
}

/// The write a variable-write request asks of the live program: the
/// variable, the raw value, and the momentary-pulse hold.
pub struct VariableWrite {
    pub name: String,
    pub value: i32,
    pub pulse_ms: Option<u32>,
}

/// Poke a variable while a program runs: 409 when nothing runs, 404 when
/// the program does not declare it, else the write to perform (the
/// runtime applies it between scan rounds and reports the value written,
/// see [`crate::monitor::write_with_pulse`]).
pub fn write_runtime_variable(
    program: &Option<ProgramHandle>,
    name: &str,
    req: &WriteVariableRequest,
) -> (r: Result<VariableWrite, ApiError>)
    ensures
        program is None ==> (r matches Err(e) && is_no_program(e)),
        program matches Some(h) && h.variables().contains(name@) ==> (r matches Ok(w) && w.name@
            == name@ && w.value == req.value && w.pulse_ms == req.pulse_ms),
        program matches Some(h) && !h.variables().contains(name@) ==> (r matches Err(e)
            && is_unknown_variable(e, name@)),
{
    match live_program(program) {
        Ok(h) => if h.declares(name) {
            Ok(VariableWrite { name: String::from_str(name), value: req.value, pulse_ms: req.pulse_ms })
        } else {
            let e = crate::monitor::UnknownVariable { name: String::from_str(name) };
            Err(ApiError::NotFound(e.message()))
        },
        Err(e) => Err(e),
    }
}

/// `pause` on the live program.
pub fn runtime_pause(program: &mut Option<ProgramHandle>) -> (r: Result<ModeResponse, ApiError>)
    ensures
        old(program).is_some() ==> final(program).is_some() && final(program).unwrap().variables()
            == old(program).unwrap().variables(),
        old(program).is_none() ==> final(program).is_none() && (r matches Err(e) && is_no_program(
            e,
        )),
        old(program).is_some() ==> (r matches Ok(m) && m.mode == RuntimeMode::Paused),
        old(program).is_some() ==> final(program).is_some() && final(program).unwrap().spec_mode()
            == RuntimeMode::Paused && final(program).unwrap().force_list() == old(
            program,
        ).unwrap().force_list(),
{
    match program {
        Some(h) => Ok(pause(h)),
        None => Err(no_program()),
    }
}

/// `resume` on the live program.
pub fn runtime_resume(program: &mut Option<ProgramHandle>) -> (r: Result<ModeResponse, ApiError>)
    ensures
        old(program).is_some() ==> final(program).is_some() && final(program).unwrap().variables()
            == old(program).unwrap().variables(),
        old(program).is_none() ==> final(program).is_none() && (r matches Err(e) && is_no_program(
            e,
        )),
        old(program).is_some() ==> (r matches Ok(m) && m.mode == RuntimeMode::Running),
        old(program).is_some() ==> final(program).is_some() && final(program).unwrap().spec_mode()
            == RuntimeMode::Running && final(program).unwrap().force_list() == old(
            program,
        ).unwrap().force_list(),
{
    match program {
        Some(h) => Ok(resume(h)),
        None => Err(no_program()),
    }
}

/// Cycles a step request asks for; a missing body asks for one.
pub open spec fn step_cycles(body: Option<StepRequest>) -> u32 {
    match body {
        Some(b) => b.cycles,
        None => 1,
    }
}

/// `step` on the live program; a missing body steps one cycle.
pub fn runtime_step(program: &mut Option<ProgramHandle>, body: Option<StepRequest>) -> (r: Result<
    ModeResponse,
    ApiError,
>)
    ensures
        old(program).is_some() ==> final(program).is_some() && final(program).unwrap().variables()
            == old(program).unwrap().variables(),
        old(program).is_none() ==> final(program).is_none() && (r matches Err(e) && is_no_program(
            e,
        )),
        old(program).is_some() ==> (r matches Ok(m) && m.mode == (RuntimeMode::Step {
            remaining: step_cycles(body),
        })),
        old(program).is_some() ==> final(program).is_some() && final(program).unwrap().spec_mode() == (
        RuntimeMode::Step { remaining: step_cycles(body) }) && final(program).unwrap().force_list()
            == old(program).unwrap().force_list(),
{
    let cycles = match body {
        Some(b) => b.cycles,
        None => 1,
    };
    match program {
        Some(h) => Ok(step(h, cycles)),
        None => Err(no_program()),
    }
}

/// The 404 of a name the live program does not declare.
pub open spec fn is_unknown_variable(e: ApiError, name: Seq<char>) -> bool {
    e matches ApiError::NotFound(m) && m@ == "unknown variable `"@ + name + "`"@
}

/// Pin a variable on the live program: 409 when nothing runs, 404 when
/// the program does not declare it.
pub fn force_runtime_variable(
    program: &mut Option<ProgramHandle>,
    name: &str,
    req: ForceRequest,
) -> (r: Result<ForceResponse, ApiError>)
    ensures
        old(program).is_none() ==> final(program).is_none() && (r matches Err(e) && is_no_program(
            e,
        )),
        old(program).is_some() ==> final(program).is_some() && final(program).unwrap().spec_mode()
            == old(program).unwrap().spec_mode() && final(program).unwrap().variables() == old(
            program,
        ).unwrap().variables(),
        old(program).is_some() && old(program).unwrap().variables().contains(name@) ==> (r matches Ok(
            f,
        ) && f.name@ == name@ && f.value == req.value) && final(program).unwrap().force_list()
            == forced(old(program).unwrap().force_list(), name@, req.value),
        old(program).is_some() && !old(program).unwrap().variables().contains(name@) ==> (r matches Err(
            e,
        ) && is_unknown_variable(e, name@)) && final(program).unwrap().force_list() == old(
            program,
        ).unwrap().force_list(),
{
    match program {
        Some(h) => match h.force_variable(name, req.value) {
            Ok(value) => Ok(ForceResponse { name: String::from_str(name), value }),
            Err(e) => Err(ApiError::NotFound(e.message())),
        },
        None => Err(no_program()),
    }
}

/// Release a forced variable on the live program (no-op if not forced).
pub fn unforce_runtime_variable(program: &mut Option<ProgramHandle>, name: &str) -> (r: Result<
    UnforceResponse,
    ApiError,
>)
    ensures
        old(program).is_some() ==> final(program).is_some() && final(program).unwrap().variables()
            == old(program).unwrap().variables(),
        old(program).is_none() ==> final(program).is_none() && (r matches Err(e) && is_no_program(
            e,
        )),
        old(program).is_some() ==> (r matches Ok(u) && u.name@ == name@ && !u.forced),
        old(program).is_some() ==> final(program).is_some() && final(program).unwrap().spec_mode()
            == old(program).unwrap().spec_mode() && final(program).unwrap().force_list() == unforced(
            old(program).unwrap().force_list(),
            name@,
        ),
{
    match program {
        Some(h) => {
            h.unforce_variable(name);
            Ok(UnforceResponse { name: String::from_str(name), forced: false })
        },
        None => Err(no_program()),
    }
}

/// The forced variables, sorted by name; `[]` when nothing runs.
pub fn list_runtime_forces(program: &Option<ProgramHandle>) -> (r: Vec<ForceEntry>)
    ensures
        program is None ==> r@.len() == 0,
        program matches Some(h) ==> sorted_by_name(entry_views(r@)) && r@.len()
            == h.force_list().len() && (forall|e: (Seq<char>, i32)|
            entry_views(r@).contains(e) <==> h.force_list().contains(e)),
{
    match program {
        Some(h) => force_entries(h),
        None => Vec::new(),
    }
}

/// Downsampled history for the named variables.
pub fn runtime_history(historian: &Historian, q: &HistoryQuery) -> (r: HistoryResponse)
    requires
        q.step_ms <= u64::MAX / 1000,
    ensures
        r.series@.len() == query_names(*historian, comma_list(q.vars@)).len(),
        forall|i: int|
            0 <= i < r.series@.len() ==> #[trigger] r.series@[i].name@ == query_names(
                *historian,
                comma_list(q.vars@),
            )[i],
        forall|i: int|
            0 <= i < r.series@.len() ==> points_view(#[trigger] r.series@[i].points@) == buckets(
                ring_of(historian.rings(), query_names(*historian, comma_list(q.vars@))[i]),
                q.from_us,
                q.to_us,
                step_us_of(q.step_ms),
            ),
        r.oldest_us == oldest_us_of(historian.rings(), query_names(*historian, comma_list(q.vars@))),
        r.sample_interval_us == historian.interval(),
{
    let vars = q.var_names();
    historian.query(vars.as_slice(), q.from_us, q.to_us, q.step_ms)
}

} // verus!
