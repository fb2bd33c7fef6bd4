//! The `cs` command surface: the command tree, which commands announce
//! themselves to the IDE (and under which label), how `cs check` targets
//! are routed, and the per-process session id.
//!
//! Read-only commands (`ls`, `get`, `check`, `probe`, `runtime
//! status/snapshot`, …) never announce: querying state isn't operating.
use vstd::prelude::*;
use crate::runtime_cmd::{ascii_lower_text, RuntimeCmd};
use crate::text::{
    chars_of, decimal_chars, decimal_text, eq_str, extend_chars, extend_str, hex_text, radix_chars,
    slice_chars, starts_with_chars, string_of,
};

verus! {

/// `cs sim …`
pub enum SimCmd {
    Run {
        scenario: String,
        program: Option<String>,
        trace: Option<String>,
        keep_running: bool,
        no_run: bool,
    },
}

/// `cs hmi …`
pub enum HmiCmd {
    Op { path: String, from: String },
    Generate { path: String, force: bool, title: Option<String> },
}

/// `cs library …`
pub enum LibraryCmd {
    Import { library: String, blocks: Vec<String> },
}

/// `cs project …`
pub enum ProjectCmd {
    Check { path: String },
    Info { path: String },
    Create { name: String },
    Open { path: String },
    Close,
}

/// `cs agent …`
pub enum AgentCmd {
    Run { label: String, cmd: Vec<String> },
    Enter { label: String },
    Leave { id: Option<String> },
}

/// Every `cs` command.
pub enum Command {
    Ls { path: Option<String> },
    Get { path: String, query: Vec<String> },
    /// `cs set` (create-or-replace).
    Upsert {
        path: String,
        from: Option<String>,
        protocol: Option<String>,
        host: Option<String>,
        title: Option<String>,
        pou_type: String,
    },
    Rm { path: String },
    Api { method: String, path: String, from: Option<String>, query: Vec<String> },
    Check { targets: Vec<String>, explain: bool },
    Transpile { file: String, with_map: bool },
    Symbols { file: String, name: Option<String> },
    Run { program: Option<String>, file: Option<String> },
    Stop,
    Runtime(RuntimeCmd),
    Sim(SimCmd),
    Deploy { name: String },
    Probe { name: String },
    Hmi(HmiCmd),
    Library(LibraryCmd),
    Project(ProjectCmd),
    Agent(AgentCmd),
}

/// The Unicode upper-case mapping of a text (`str::to_uppercase`).
pub uninterp spec fn unicode_upper(s: Seq<char>) -> Seq<char>;

/// `str::to_uppercase`: the result is `unicode_upper` of the argument —
/// a function of the text alone (the Unicode case tables are not
/// restated here).
#[verifier::external_body]
fn to_uppercase(s: &str) -> (r: String)
    ensures
        r@ == unicode_upper(s@),
{
    s.to_uppercase()
}

/// The overlay label of a raw API call, given the upper-cased method.
pub fn api_label(upper_method: &str, path: &str) -> (r: String)
    ensures
        r@ == "api "@ + upper_method@ + " "@ + path@,
{
    let mut m = chars_of("api ");
    extend_str(&mut m, upper_method);
    extend_str(&mut m, " ");
    extend_str(&mut m, path);
    string_of(&m)
}

/// Overlay label for commands that mutate server-visible state; `None`
/// for reads and offline analysis.
pub open spec fn spec_announce_label(cmd: Command) -> Option<Seq<char>> {
    match cmd {
        Command::Api { method, path, .. } => if ascii_lower_text(method@) == "get"@ {
            None
        } else {
            Some("api "@ + unicode_upper(method@) + " "@ + path@)
        },
        Command::Upsert { path, .. } => Some("set "@ + path@),
        Command::Rm { path } => Some("rm "@ + path@),
        Command::Ls { .. } | Command::Get { .. } => None,
        Command::Check { .. } | Command::Transpile { .. } | Command::Symbols { .. }
        | Command::Probe { .. } => None,
        Command::Runtime(r) => match r {
            RuntimeCmd::Status { .. } | RuntimeCmd::Snapshot { .. } => None,
            RuntimeCmd::Pause { .. } => Some("runtime pause"@),
            RuntimeCmd::Resume { .. } => Some("runtime resume"@),
            RuntimeCmd::Step { .. } => Some("runtime step"@),
            RuntimeCmd::Force { .. } => Some("runtime force"@),
            RuntimeCmd::Unforce { .. } => Some("runtime unforce"@),
            RuntimeCmd::Write { .. } => Some("runtime write"@),
            RuntimeCmd::Ack { .. } => Some("runtime ack"@),
        },
        Command::Run { .. } => Some("run"@),
        Command::Stop => Some("stop"@),
        Command::Sim(SimCmd::Run { scenario, .. }) => Some("sim run "@ + scenario@),
        Command::Deploy { name } => Some("deploy "@ + name@),
        Command::Hmi(h) => match h {
            HmiCmd::Op { path, .. } => Some("hmi op "@ + path@),
            HmiCmd::Generate { path, .. } => Some("hmi generate "@ + path@),
        },
        Command::Library(LibraryCmd::Import { library, .. }) => Some("library import "@ + library@),
        Command::Project(p) => match p {
            ProjectCmd::Check { .. } | ProjectCmd::Info { .. } => None,
            ProjectCmd::Create { name } => Some("project create "@ + name@),
            ProjectCmd::Open { .. } => Some("project open"@),
            ProjectCmd::Close => Some("project close"@),
        },
        Command::Agent(_) => None,
    }
}

/// Whether a command changes server-visible state. Reads (`ls`, `get`,
/// `api GET`, `runtime status/snapshot`) and offline analysis (`check`,
/// `transpile`, `symbols`, `probe`, `project check/info`) do not; `agent`
/// manages its own explicit session and is counted with them here.
pub open spec fn changes_state(cmd: Command) -> bool {
    match cmd {
        Command::Ls { .. } | Command::Get { .. } | Command::Check { .. } | Command::Transpile { .. }
        | Command::Symbols { .. } | Command::Probe { .. } | Command::Agent(_) => false,
        Command::Api { method, .. } => ascii_lower_text(method@) != "get"@,
        Command::Runtime(r) => !(r is Status || r is Snapshot),
        Command::Project(p) => !(p is Check || p is Info),
        _ => true,
    }
}

/// The heartbeat rule: exactly the commands that change state announce
/// themselves to the IDE; querying state is not operating.
pub proof fn law_only_mutations_announce(cmd: Command)
    ensures
        spec_announce_label(cmd).is_some() == changes_state(cmd),
{
}

fn prefixed(prefix: &str, rest: &String) -> (r: Option<String>)
    ensures
        r matches Some(s) && s@ == prefix@ + rest@,
{
    let mut m = chars_of(prefix);
    extend_str(&mut m, rest.as_str());
    Some(string_of(&m))
}

fn fixed(label: &str) -> (r: Option<String>)
    ensures
        r matches Some(s) && s@ == label@,
{
    Some(String::from_str(label))
}

fn lower_text(s: &str) -> (r: Vec<char>)
    ensures
        r@ == ascii_lower_text(s@),
{
    let cs = chars_of(s);
    let mut r: Vec<char> = Vec::new();
    for i in 0..cs.len()
        invariant
            cs@ == s@,
            r@ == ascii_lower_text(s@).take(i as int),
    {
        let c = cs[i];
        let l = if 'A' <= c && c <= 'Z' {
            ((c as u8) + 32) as char
        } else {
            c
        };
        r.push(l);
        assert(r@ =~= ascii_lower_text(s@).take(i + 1));
    }
    assert(ascii_lower_text(s@).take(s@.len() as int) =~= ascii_lower_text(s@));
    r
}

pub open spec fn opt_string(o: Option<String>) -> Option<Seq<char>> {
    match o {
        Some(s) => Some(s@),
        None => None,
    }
}

/// Overlay label of a command (see [`spec_announce_label`]).
pub fn announce_label(cmd: &Command) -> (r: Option<String>)
    ensures
        opt_string(r) == spec_announce_label(*cmd),
{
    match cmd {
        Command::Api { method, path, .. } => {
            let low = lower_text(method.as_str());
            if eq_str(&low, "get") {
                None
            } else {
                let upper = to_uppercase(method.as_str());
                Some(api_label(upper.as_str(), path.as_str()))
            }
        },
        Command::Upsert { path, .. } => prefixed("set ", path),
        Command::Rm { path } => prefixed("rm ", path),
        Command::Ls { .. } | Command::Get { .. } => None,
        Command::Check { .. } | Command::Transpile { .. } | Command::Symbols { .. }
        | Command::Probe { .. } => None,
        Command::Runtime(r) => match r {
            RuntimeCmd::Status { .. } | RuntimeCmd::Snapshot { .. } => None,
            RuntimeCmd::Pause { .. } => fixed("runtime pause"),
            RuntimeCmd::Resume { .. } => fixed("runtime resume"),
            RuntimeCmd::Step { .. } => fixed("runtime step"),
            RuntimeCmd::Force { .. } => fixed("runtime force"),
            RuntimeCmd::Unforce { .. } => fixed("runtime unforce"),
            RuntimeCmd::Write { .. } => fixed("runtime write"),
            RuntimeCmd::Ack { .. } => fixed("runtime ack"),
        },
        Command::Run { .. } => fixed("run"),
        Command::Stop => fixed("stop"),
        Command::Sim(SimCmd::Run { scenario, .. }) => prefixed("sim run ", scenario),
        Command::Deploy { name } => prefixed("deploy ", name),
        Command::Hmi(h) => match h {
            HmiCmd::Op { path, .. } => prefixed("hmi op ", path),
            HmiCmd::Generate { path, .. } => prefixed("hmi generate ", path),
        },
        Command::Library(LibraryCmd::Import { library, .. }) => prefixed("library import ", library),
        Command::Project(p) => match p {
            ProjectCmd::Check { .. } | ProjectCmd::Info { .. } => None,
            ProjectCmd::Create { name } => prefixed("project create ", name),
            ProjectCmd::Open { .. } => fixed("project open"),
            ProjectCmd::Close => fixed("project close"),
        },
        Command::Agent(_) => None,
    }
}

// ------------------------------------------------------------ cs check
/// Where one `cs check` target goes.
pub enum CheckTarget {
    /// A problem code (`P0002`): print its explanation.
    Code,
    /// `hmi/<slug>`: the server-side screen check.
    Screen { slug: String },
    /// A POU file, checked together with the others.
    File,
}

/// `P` followed by ASCII digits, five characters or more.
pub open spec fn looks_like_code(t: Seq<char>) -> bool {
    t.len() >= 5 && t[0] == 'P' && forall|i: int| 1 <= i < t.len() ==> '0' <= #[trigger] t[i] <= '9'
}

/// Routing of a `cs check` target; a path that exists on disk is always
/// a file.
pub open spec fn spec_check_target(t: Seq<char>, exists: bool) -> (bool, Option<Seq<char>>) {
    if looks_like_code(t) && !exists {
        (true, None)
    } else if crate::text::has_prefix(t, "hmi/"@) && !exists {
        (false, Some(t.skip("hmi/"@.len() as int)))
    } else {
        (false, None)
    }
}

pub open spec fn target_view(c: CheckTarget) -> (bool, Option<Seq<char>>) {
    match c {
        CheckTarget::Code => (true, None),
        CheckTarget::Screen { slug } => (false, Some(slug@)),
        CheckTarget::File => (false, None),
    }
}

/// Route one `cs check` target (`exists`: the path exists on disk).
pub fn check_target(t: &str, exists: bool) -> (r: CheckTarget)
    ensures
        target_view(r) == spec_check_target(t@, exists),
{
    let cs = chars_of(t);
    let mut code = cs.len() >= 5 && cs[0] == 'P';
    if code {
        let mut i: usize = 1;
        while i < cs.len()
            invariant
                cs@ == t@,
                1 <= i <= cs@.len(),
                cs@.len() >= 5 && cs@[0] == 'P',
                code == (forall|j: int| 1 <= j < i ==> '0' <= #[trigger] cs@[j] <= '9'),
            decreases cs@.len() - i,
        {
            if !('0' <= cs[i] && cs[i] <= '9') {
                code = false;
            }
            i = i + 1;
        }
    }
    if code && !exists {
        return CheckTarget::Code;
    }
    let prefix = chars_of("hmi/");
    if starts_with_chars(&cs, &prefix) && !exists {
        let slug = slice_chars(&cs, prefix.len(), cs.len());
        return CheckTarget::Screen { slug: string_of(&slug) };
    }
    CheckTarget::File
}

/// Exit code of `cs check`: the worst over all targets.
pub fn worst_exit(a: i32, b: i32) -> (r: i32)
    ensures
        r == (if a >= b { a } else { b }),
{
    if a >= b {
        a
    } else {
        b
    }
}

// ------------------------------------------------------------ hmi issues
/// One screen issue as `cs check` prints it: `severity [node]: message`,
/// with `?` for a missing severity and no bracket for a missing node.
pub open spec fn issue_text(severity: Option<Seq<char>>, node: Option<Seq<char>>, message: Option<Seq<char>>) -> Seq<
    char,
> {
    (match severity {
        Some(s) => s,
        None => "?"@,
    }) + (match node {
        Some(n) => " ["@ + n + "]"@,
        None => Seq::empty(),
    }) + ": "@ + (match message {
        Some(m) => m,
        None => Seq::empty(),
    })
}

pub open spec fn opt_view(o: Option<&str>) -> Option<Seq<char>> {
    match o {
        Some(s) => Some(s@),
        None => None,
    }
}

/// The line printed for one issue of a screen check.
pub fn issue_line(severity: Option<&str>, node: Option<&str>, message: Option<&str>) -> (r: String)
    ensures
        r@ == issue_text(opt_view(severity), opt_view(node), opt_view(message)),
{
    let mut m: Vec<char> = match severity {
        Some(s) => chars_of(s),
        None => chars_of("?"),
    };
    if let Some(n) = node {
        extend_str(&mut m, " [");
        extend_str(&mut m, n);
        extend_str(&mut m, "]");
    }
    extend_str(&mut m, ": ");
    if let Some(msg) = message {
        extend_str(&mut m, msg);
    }
    proof {
        reveal_strlit("?");
    }
    string_of(&m)
}

/// Whether any issue of a screen check has severity `error` (which fails
/// the check).
pub fn any_error(severities: &[Option<&str>]) -> (r: bool)
    ensures
        r == exists|i: int| 0 <= i < severities@.len() && #[trigger] opt_view(severities@[i]) == Some("error"@),
{
    let mut i: usize = 0;
    while i < severities.len()
        invariant
            i <= severities@.len(),
            forall|j: int| 0 <= j < i ==> #[trigger] opt_view(severities@[j]) != Some("error"@),
        decreases severities@.len() - i,
    {
        if let Some(s) = severities[i] {
            if eq_str(&chars_of(s), "error") {
                assert(opt_view(severities@[i as int]) == Some("error"@));
                return true;
            }
        }
        i += 1;
    }
    false
}

// ------------------------------------------------------------ exit codes
/// How a command failed.
#[derive(Clone, Copy, PartialEq, Eq, Debug, Structural)]
pub enum Failure {
    /// The server answered with a non-success HTTP status.
    Api { status: u16 },
    /// The invocation itself was wrong (bad path, bad flag, bad input).
    Usage,
    /// Anything else: server down, I/O, a broken answer.
    Infrastructure,
}

/// 2 when the request was wrong (a usage error or an HTTP 4xx), 3 for
/// infrastructure failures (5xx, connection, I/O).
pub open spec fn failure_code(failure: Failure) -> i32 {
    match failure {
        Failure::Api { status } => if 400 <= status < 500 {
            2i32
        } else {
            3i32
        },
        Failure::Usage => 2i32,
        Failure::Infrastructure => 3i32,
    }
}

/// The exit code of a failed command: 2 when the request was wrong (a
/// usage error or an HTTP 4xx, whose body the caller prints verbatim),
/// 3 for infrastructure failures (5xx, connection, I/O).
pub fn exit_code_for(failure: Failure) -> (r: i32)
    ensures
        r == failure_code(failure),
{
    match failure {
        Failure::Api { status } => if 400 <= status && status < 500 {
            2
        } else {
            3
        },
        Failure::Usage => 2,
        Failure::Infrastructure => 3,
    }
}

// ------------------------------------------------------------ session id
/// `cs-<pid>-<nanos in hex>`: the per-process session id.
pub fn session_label(pid: u32, nanos: u128) -> (r: String)
    ensures
        r@ == "cs-"@ + decimal_text(pid as nat) + "-"@ + hex_text(nanos as nat),
{
    let mut m = chars_of("cs-");
    extend_chars(&mut m, &decimal_chars(pid as u128));
    extend_str(&mut m, "-");
    extend_chars(&mut m, &radix_chars(nanos, 16));
    string_of(&m)
}

/// The session a heartbeat reports: the one forwarded by an enclosing
/// `cs agent run` / `cs agent enter` (so the IDE keeps one steady banner),
/// else this process's own session id.
pub fn heartbeat_session(forwarded: Option<String>, own: &str) -> (r: String)
    ensures
        r@ == (match forwarded {
            Some(f) => f@,
            None => own@,
        }),
{
    match forwarded {
        Some(f) => f,
        None => String::from_str(own),
    }
}

} // verus!
