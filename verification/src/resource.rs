//! The resource-path grammar behind `cs ls / get / set / rm`.
//!
//! A project resource is addressed by the same slash-path it has on disk
//! and in the HTTP API; the four verbs map onto plain REST:
//!
//!   cs ls  pous                → enumerate a collection
//!   cs get devices/plc1        → GET  /api/devices/plc1
//!   cs set devices/plc1 --from → PUT  /api/devices/plc1  (create on 404)
//!   cs rm  hmi/overview        → DELETE /api/hmi/overview
//!
//! Grammar:
//!   * the path is trimmed of leading/trailing `/` and split at `/`;
//!   * the first segment names the resource kind;
//!   * a trailing `/` on the raw path names a FOLDER;
//!   * a reserved last segment names a sub-read (`edges/pi/logs`);
//!   * POU paths may carry their on-disk extension (`motor.ld.json`) —
//!     the API slug is extension-less, and on create the extension is
//!     what picks the language.
use vstd::prelude::*;
use crate::http::{url_encode_chars, url_encoded};
use crate::text::{
    chars_of, ends_with_chars, eq_str, extend_chars, extend_str, has_suffix, join_range,
    join_with, slice_chars, split_chars, split_on, string_of, texts,
};

verus! {

/// Resource kinds the quartet understands. Everything else is a typo —
/// or a job for `cs api`.
#[derive(Clone, Copy, PartialEq, Eq, Debug, Structural)]
pub enum Kind {
    Projects,
    Project,
    Pous,
    Devices,
    Edges,
    Hmi,
    Iomap,
    Tasks,
    Northbound,
    Alarms,
    Library,
    DeviceCatalog,
    Runtime,
    HmiSymbols,
}

/// Every kind, in the order the overview lists them.
pub open spec fn all_kinds() -> Seq<Kind> {
    seq![
        Kind::Projects,
        Kind::Project,
        Kind::Pous,
        Kind::Devices,
        Kind::Edges,
        Kind::Hmi,
        Kind::Iomap,
        Kind::Tasks,
        Kind::Northbound,
        Kind::Alarms,
        Kind::Library,
        Kind::DeviceCatalog,
        Kind::Runtime,
        Kind::HmiSymbols,
    ]
}

impl Kind {
    /// The path segment that names the kind.
    pub open spec fn text(self) -> Seq<char> {
        match self {
            Kind::Projects => "projects"@,
            Kind::Project => "project"@,
            Kind::Pous => "pous"@,
            Kind::Devices => "devices"@,
            Kind::Edges => "edges"@,
            Kind::Hmi => "hmi"@,
            Kind::Iomap => "iomap"@,
            Kind::Tasks => "tasks"@,
            Kind::Northbound => "northbound"@,
            Kind::Alarms => "alarms"@,
            Kind::Library => "library"@,
            Kind::DeviceCatalog => "device-catalog"@,
            Kind::Runtime => "runtime"@,
            Kind::HmiSymbols => "hmi-symbols"@,
        }
    }

    /// The kind's path segment.
    pub fn as_str(self) -> (r: &'static str)
        ensures
            r@ == self.text(),
    {
        match self {
            Kind::Projects => "projects",
            Kind::Project => "project",
            Kind::Pous => "pous",
            Kind::Devices => "devices",
            Kind::Edges => "edges",
            Kind::Hmi => "hmi",
            Kind::Iomap => "iomap",
            Kind::Tasks => "tasks",
            Kind::Northbound => "northbound",
            Kind::Alarms => "alarms",
            Kind::Library => "library",
            Kind::DeviceCatalog => "device-catalog",
            Kind::Runtime => "runtime",
            Kind::HmiSymbols => "hmi-symbols",
        }
    }

    /// One-line description of the kind in the `cs ls` overview.
    pub open spec fn about_text(self) -> Seq<char> {
        match self {
            Kind::Projects => "open projects on the server (ls)"@,
            Kind::Project => "project tree · project/variables · project/pous"@,
            Kind::Pous => "POU source files (get prints source; set writes it)"@,
            Kind::Devices => "field devices (JSON config docs)"@,
            Kind::Edges => "deploy targets (+ edges/<n>/probe|status|logs|scan|system)"@,
            Kind::Hmi => "operator screens (JSON docs; see also `cs hmi op`)"@,
            Kind::Iomap => "variable ↔ device.channel bindings (one doc)"@,
            Kind::Tasks => "task → program schedule (one doc)"@,
            Kind::Northbound => "MQTT northbound config (one doc)"@,
            Kind::Alarms => "alarm definitions (one doc; alarms.toml)"@,
            Kind::Library => "FB library registry (ls; rm library/<name>)"@,
            Kind::DeviceCatalog => "known-device templates (ls)"@,
            Kind::Runtime => "runtime/{status,snapshot,forces,history,alarms,alarms-journal}"@,
            Kind::HmiSymbols => "HMI symbol palette contract (get)"@,
        }
    }

    /// One-line description for the `cs ls` overview.
    pub fn about(self) -> (r: &'static str)
        ensures
            r@ == self.about_text(),
    {
        match self {
            Kind::Projects => "open projects on the server (ls)",
            Kind::Project => "project tree · project/variables · project/pous",
            Kind::Pous => "POU source files (get prints source; set writes it)",
            Kind::Devices => "field devices (JSON config docs)",
            Kind::Edges => "deploy targets (+ edges/<n>/probe|status|logs|scan|system)",
            Kind::Hmi => "operator screens (JSON docs; see also `cs hmi op`)",
            Kind::Iomap => "variable ↔ device.channel bindings (one doc)",
            Kind::Tasks => "task → program schedule (one doc)",
            Kind::Northbound => "MQTT northbound config (one doc)",
            Kind::Alarms => "alarm definitions (one doc; alarms.toml)",
            Kind::Library => "FB library registry (ls; rm library/<name>)",
            Kind::DeviceCatalog => "known-device templates (ls)",
            Kind::Runtime => "runtime/{status,snapshot,forces,history,alarms,alarms-journal}",
            Kind::HmiSymbols => "HMI symbol palette contract (get)",
        }
    }

    /// Every kind, in overview order.
    pub fn all() -> (r: Vec<Kind>)
        ensures
            r@ == all_kinds(),
    {
        let r = vec![
            Kind::Projects,
            Kind::Project,
            Kind::Pous,
            Kind::Devices,
            Kind::Edges,
            Kind::Hmi,
            Kind::Iomap,
            Kind::Tasks,
            Kind::Northbound,
            Kind::Alarms,
            Kind::Library,
            Kind::DeviceCatalog,
            Kind::Runtime,
            Kind::HmiSymbols,
        ];
        assert(r@ =~= all_kinds());
        r
    }
}

/// The kind a path segment names, if any (first match in overview order).
pub open spec fn parse_kind(s: Seq<char>) -> Option<Kind> {
    if s == Kind::Projects.text() {
        Some(Kind::Projects)
    } else if s == Kind::Project.text() {
        Some(Kind::Project)
    } else if s == Kind::Pous.text() {
        Some(Kind::Pous)
    } else if s == Kind::Devices.text() {
        Some(Kind::Devices)
    } else if s == Kind::Edges.text() {
        Some(Kind::Edges)
    } else if s == Kind::Hmi.text() {
        Some(Kind::Hmi)
    } else if s == Kind::Iomap.text() {
        Some(Kind::Iomap)
    } else if s == Kind::Tasks.text() {
        Some(Kind::Tasks)
    } else if s == Kind::Northbound.text() {
        Some(Kind::Northbound)
    } else if s == Kind::Alarms.text() {
        Some(Kind::Alarms)
    } else if s == Kind::Library.text() {
        Some(Kind::Library)
    } else if s == Kind::DeviceCatalog.text() {
        Some(Kind::DeviceCatalog)
    } else if s == Kind::Runtime.text() {
        Some(Kind::Runtime)
    } else if s == Kind::HmiSymbols.text() {
        Some(Kind::HmiSymbols)
    } else {
        None
    }
}

/// The known kind spelled by `kind`, if there is one.
pub fn kind_static(kind: &[char]) -> (r: Option<Kind>)
    ensures
        r == parse_kind(kind@),
        r matches Some(k) ==> k.text() == kind@,
{
    if eq_str(kind, "projects") {
        Some(Kind::Projects)
    } else if eq_str(kind, "project") {
        Some(Kind::Project)
    } else if eq_str(kind, "pous") {
        Some(Kind::Pous)
    } else if eq_str(kind, "devices") {
        Some(Kind::Devices)
    } else if eq_str(kind, "edges") {
        Some(Kind::Edges)
    } else if eq_str(kind, "hmi") {
        Some(Kind::Hmi)
    } else if eq_str(kind, "iomap") {
        Some(Kind::Iomap)
    } else if eq_str(kind, "tasks") {
        Some(Kind::Tasks)
    } else if eq_str(kind, "northbound") {
        Some(Kind::Northbound)
    } else if eq_str(kind, "alarms") {
        Some(Kind::Alarms)
    } else if eq_str(kind, "library") {
        Some(Kind::Library)
    } else if eq_str(kind, "device-catalog") {
        Some(Kind::DeviceCatalog)
    } else if eq_str(kind, "runtime") {
        Some(Kind::Runtime)
    } else if eq_str(kind, "hmi-symbols") {
        Some(Kind::HmiSymbols)
    } else {
        None
    }
}

/// The names of `kinds`, in order.
pub open spec fn kind_texts(kinds: Seq<Kind>) -> Seq<Seq<char>> {
    Seq::new(kinds.len(), |i: int| kinds[i].text())
}

/// `known resource kinds: projects, project, …` — the hint every
/// unknown-kind error carries.
pub open spec fn kinds_hint() -> Seq<char> {
    "known resource kinds: "@ + join_with(kind_texts(all_kinds()), ", "@)
}

/// The hint listing every known kind.
pub fn known_kinds_hint() -> (r: String)
    ensures
        r@ == kinds_hint(),
{
    let kinds = Kind::all();
    let mut names: Vec<Vec<char>> = Vec::new();
    for i in 0..kinds.len()
        invariant
            kinds@ == all_kinds(),
            texts(names@) == kind_texts(kinds@.take(i as int)),
    {
        let ghost old_names = names@;
        let name = chars_of(kinds[i].as_str());
        names.push(name);
        assert(names@ == old_names.push(name));
        assert(texts(old_names).len() == old_names.len());
        assert(kind_texts(kinds@.take(i as int)).len() == i);
        assert forall|j: int| 0 <= j < i + 1 implies texts(names@)[j] == kind_texts(
            kinds@.take(i + 1),
        )[j] by {
            if j < i {
                assert(texts(old_names)[j] == kind_texts(kinds@.take(i as int))[j]);
            }
        }
        assert(texts(names@) =~= kind_texts(kinds@.take(i + 1)));
    }
    assert(kinds@.take(kinds@.len() as int) == kinds@);
    let sep = chars_of(", ");
    let joined = join_range(&names, 0, names.len(), &sep);
    assert(texts(names@).subrange(0, names@.len() as int) == texts(names@));
    let mut m = chars_of("known resource kinds: ");
    extend_chars(&mut m, &joined);
    string_of(&m)
}

// ------------------------------------------------------------ splitting
/// `s` without its leading `/` characters.
pub open spec fn strip_leading_slashes(s: Seq<char>) -> Seq<char>
    decreases s.len(),
{
    if s.len() > 0 && s[0] == '/' {
        strip_leading_slashes(s.drop_first())
    } else {
        s
    }
}

/// `s` without its trailing `/` characters.
pub open spec fn strip_trailing_slashes(s: Seq<char>) -> Seq<char>
    decreases s.len(),
{
    if s.len() > 0 && s.last() == '/' {
        strip_trailing_slashes(s.drop_last())
    } else {
        s
    }
}

/// `path.trim_matches('/')`.
pub open spec fn trim_slashes(s: Seq<char>) -> Seq<char> {
    strip_trailing_slashes(strip_leading_slashes(s))
}

/// The segments of a resource path: trimmed of outer slashes, split at `/`.
pub open spec fn path_segments(path: Seq<char>) -> Seq<Seq<char>> {
    split_on(trim_slashes(path), '/')
}

/// The first segment: the resource kind as written.
pub open spec fn path_kind(path: Seq<char>) -> Seq<char> {
    path_segments(path)[0]
}

/// The segments after the kind.
pub open spec fn path_rest(path: Seq<char>) -> Seq<Seq<char>> {
    path_segments(path).drop_first()
}

/// The segments after the kind, joined back with `/`.
pub open spec fn path_joined(path: Seq<char>) -> Seq<char> {
    join_with(path_rest(path), seq!['/'])
}

fn trim_slash_chars(s: &[char]) -> (r: Vec<char>)
    ensures
        r@ == trim_slashes(s@),
{
    let n = s.len();
    let mut a: usize = 0;
    assert(s@.subrange(0, n as int) == s@);
    while a < n && s[a] == '/'
        invariant
            a <= n == s@.len(),
            strip_leading_slashes(s@) == strip_leading_slashes(s@.subrange(a as int, n as int)),
        decreases n - a,
    {
        assert(s@.subrange(a as int, n as int).drop_first() == s@.subrange(a + 1, n as int));
        a = a + 1;
    }
    let ghost lead = s@.subrange(a as int, n as int);
    assert(strip_leading_slashes(lead) == lead);
    let mut b: usize = n;
    while b > a && s[b - 1] == '/'
        invariant
            a <= b <= n == s@.len(),
            lead == s@.subrange(a as int, n as int),
            strip_trailing_slashes(lead) == strip_trailing_slashes(s@.subrange(a as int, b as int)),
        decreases b - a,
    {
        assert(s@.subrange(a as int, b as int).drop_last() == s@.subrange(a as int, b - 1));
        b = b - 1;
    }
    let r = slice_chars(s, a, b);
    r
}

/// The path's segments: the kind is `[0]`, the rest follow.
pub fn split(path: &[char]) -> (segs: Vec<Vec<char>>)
    ensures
        texts(segs@) == path_segments(path@),
        segs@.len() >= 1,
{
    let t = trim_slash_chars(path);
    split_chars(&t, '/')
}

// ------------------------------------------------------------ POU slugs
/// `(slug, language)` of a POU path: a known extension is stripped and
/// names the language; anything else is the slug as written.
pub open spec fn pou_slug_of(p: Seq<char>) -> (Seq<char>, Option<Seq<char>>) {
    if has_suffix(p, ".ld.json"@) {
        (p.take(p.len() - ".ld.json"@.len()), Some("ld"@))
    } else if has_suffix(p, ".fbd.json"@) {
        (p.take(p.len() - ".fbd.json"@.len()), Some("fbd"@))
    } else if has_suffix(p, ".sfc.json"@) {
        (p.take(p.len() - ".sfc.json"@.len()), Some("sfc"@))
    } else if has_suffix(p, ".st"@) {
        (p.take(p.len() - ".st"@.len()), Some("st"@))
    } else {
        (p, None)
    }
}

fn strip_ext(p: &[char], ext: &str) -> (r: Option<Vec<char>>)
    ensures
        r matches Some(s) ==> has_suffix(p@, ext@) && s@ == p@.take(p@.len() - ext@.len()),
        r is None ==> !has_suffix(p@, ext@),
{
    let e = chars_of(ext);
    if ends_with_chars(p, &e) {
        Some(slice_chars(p, 0, p.len() - e.len()))
    } else {
        None
    }
}

fn pou_slug_chars(p: &[char]) -> (r: (Vec<char>, Option<&'static str>))
    ensures
        r.0@ == pou_slug_of(p@).0,
        r.1 matches Some(l) ==> pou_slug_of(p@).1 == Some(l@),
        r.1 is None ==> pou_slug_of(p@).1 is None,
{
    if let Some(s) = strip_ext(p, ".ld.json") {
        (s, Some("ld"))
    } else if let Some(s) = strip_ext(p, ".fbd.json") {
        (s, Some("fbd"))
    } else if let Some(s) = strip_ext(p, ".sfc.json") {
        (s, Some("sfc"))
    } else if let Some(s) = strip_ext(p, ".st") {
        (s, Some("st"))
    } else {
        (slice_chars(p, 0, p.len()), None)
    }
}

/// Strip a known POU extension, returning (slug, language).
pub fn pou_slug(path: &str) -> (r: (String, Option<String>))
    ensures
        r.0@ == pou_slug_of(path@).0,
        r.1 matches Some(l) ==> pou_slug_of(path@).1 == Some(l@),
        r.1 is None ==> pou_slug_of(path@).1 is None,
{
    let p = chars_of(path);
    let (slug, lang) = pou_slug_chars(&p);
    let language = match lang {
        Some(l) => Some(String::from_str(l)),
        None => None,
    };
    (string_of(&slug), language)
}

// ------------------------------------------------------------ plans
/// Which pretty-printer `cs get` uses in human mode. JSON mode always
/// passes the payload through untouched.
#[derive(Clone, Copy, PartialEq, Eq, Debug, Structural)]
pub enum Render {
    Json,
    EdgeLogs,
    EdgeScan,
    EdgeSystem,
}

/// What a quartet verb resolved to; the caller turns it into HTTP +
/// rendering.
pub enum Plan {
    /// Plain JSON GET → print (with a human renderer).
    Get { path: String, render: Render },
    /// GET a POU: print `.source` raw by default.
    GetPou { slug: String },
    /// Enumerate a collection.
    Ls { kind: &'static str, prefix: String },
    /// DELETE a resource or folder.
    Rm { path: String, label: String },
}

/// A [`Plan`] with its texts as character sequences.
pub enum PlanView {
    Get { path: Seq<char>, render: Render },
    GetPou { slug: Seq<char> },
    Ls { kind: Seq<char>, prefix: Seq<char> },
    Rm { path: Seq<char>, label: Seq<char> },
}

impl View for Plan {
    type V = PlanView;

    open spec fn view(&self) -> PlanView {
        match self {
            Plan::Get { path, render } => PlanView::Get { path: path@, render: *render },
            Plan::GetPou { slug } => PlanView::GetPou { slug: slug@ },
            Plan::Ls { kind, prefix } => PlanView::Ls { kind: kind@, prefix: prefix@ },
            Plan::Rm { path, label } => PlanView::Rm { path: path@, label: label@ },
        }
    }
}

/// How `cs set` reaches its target.
pub enum SetPlan {
    /// PUT text source to /api/pous/{slug}; on 404 create first (language
    /// from the extension, known only when the caller wrote one).
    Pou { slug: String, language: Option<String> },
    /// PUT JSON to /api/{kind}/{name}; on 404 POST /api/{kind} first.
    Doc { kind: &'static str, name: String },
    /// Single-document config: PUT /api/{kind}.
    Config { kind: &'static str },
    /// POST /api/{kind}/folders {path}
    Folder { kind: &'static str, path: String },
}

/// A [`SetPlan`] with its texts as character sequences.
pub enum SetPlanView {
    Pou { slug: Seq<char>, language: Option<Seq<char>> },
    Doc { kind: Seq<char>, name: Seq<char> },
    Config { kind: Seq<char> },
    Folder { kind: Seq<char>, path: Seq<char> },
}

pub open spec fn opt_text(o: Option<String>) -> Option<Seq<char>> {
    match o {
        Some(s) => Some(s@),
        None => None,
    }
}

impl View for SetPlan {
    type V = SetPlanView;

    open spec fn view(&self) -> SetPlanView {
        match self {
            SetPlan::Pou { slug, language } => SetPlanView::Pou {
                slug: slug@,
                language: opt_text(*language),
            },
            SetPlan::Doc { kind, name } => SetPlanView::Doc { kind: kind@, name: name@ },
            SetPlan::Config { kind } => SetPlanView::Config { kind: kind@ },
            SetPlan::Folder { kind, path } => SetPlanView::Folder { kind: kind@, path: path@ },
        }
    }
}

/// The quartet verb a path was given to (`ls`, `get`, `set`, `rm`).
#[derive(Clone, Copy, PartialEq, Eq, Debug, Structural)]
pub enum Verb {
    List,
    Read,
    Write,
    Remove,
}

/// Why a path does not resolve (a usage error: the caller can fix the
/// invocation).
pub enum ResourceError {
    /// The first segment names no known kind.
    UnknownKind { verb: Verb, path: String },
    /// A single-document kind was given sub-segments (or listed).
    SingleDocument { verb: Verb, kind: Kind },
    /// `project/<other>` with an unknown sub-read.
    ProjectSubread { other: String },
    /// `runtime/<other>` with an unknown sub-read.
    RuntimeSubread { other: String },
    /// A collection kind without the resource's name.
    Unnamed { verb: Verb, kind: Kind },
    /// `get` on a kind that can only be listed.
    NotGettable { path: String, kind: Kind },
    /// HMI screens have no folders.
    HmiFolder,
    /// `set` on a read-only kind.
    NotWritable { kind: Kind },
    /// `rm` on a kind that cannot be removed.
    NotRemovable { kind: Kind },
}

/// A [`ResourceError`] with its texts as character sequences.
pub enum ResourceErrorView {
    UnknownKind { verb: Verb, path: Seq<char> },
    SingleDocument { verb: Verb, kind: Kind },
    ProjectSubread { other: Seq<char> },
    RuntimeSubread { other: Seq<char> },
    Unnamed { verb: Verb, kind: Kind },
    NotGettable { path: Seq<char>, kind: Kind },
    HmiFolder,
    NotWritable { kind: Kind },
    NotRemovable { kind: Kind },
}

impl View for ResourceError {
    type V = ResourceErrorView;

    open spec fn view(&self) -> ResourceErrorView {
        match self {
            ResourceError::UnknownKind { verb, path } => ResourceErrorView::UnknownKind {
                verb: *verb,
                path: path@,
            },
            ResourceError::SingleDocument { verb, kind } => ResourceErrorView::SingleDocument {
                verb: *verb,
                kind: *kind,
            },
            ResourceError::ProjectSubread { other } => ResourceErrorView::ProjectSubread {
                other: other@,
            },
            ResourceError::RuntimeSubread { other } => ResourceErrorView::RuntimeSubread {
                other: other@,
            },
            ResourceError::Unnamed { verb, kind } => ResourceErrorView::Unnamed {
                verb: *verb,
                kind: *kind,
            },
            ResourceError::NotGettable { path, kind } => ResourceErrorView::NotGettable {
                path: path@,
                kind: *kind,
            },
            ResourceError::HmiFolder => ResourceErrorView::HmiFolder,
            ResourceError::NotWritable { kind } => ResourceErrorView::NotWritable { kind: *kind },
            ResourceError::NotRemovable { kind } => ResourceErrorView::NotRemovable {
                kind: *kind,
            },
        }
    }
}

pub open spec fn verb_text(v: Verb) -> Seq<char> {
    match v {
        Verb::List => "ls"@,
        Verb::Read => "get"@,
        Verb::Write => "set"@,
        Verb::Remove => "rm"@,
    }
}

impl ResourceErrorView {
    /// The message shown to the user.
    pub open spec fn text(self) -> Seq<char> {
        match self {
            ResourceErrorView::UnknownKind { verb, path } => "`cs "@ + verb_text(verb) + " "@
                + path + "`: unknown resource kind — "@ + kinds_hint(),
            ResourceErrorView::SingleDocument { verb, kind } => match verb {
                Verb::List => "`"@ + kind.text() + "` is a single document — use `cs get "@
                    + kind.text() + "`"@,
                Verb::Read => "`"@ + kind.text() + "` is a single document — `cs get "@
                    + kind.text() + "`"@,
                _ => "`"@ + kind.text() + "` is a single document — `cs set "@ + kind.text()
                    + " --from <file>`"@,
            },
            ResourceErrorView::ProjectSubread { other } => "`cs get project/"@ + other
                + "`: expected project, project/variables or project/pous"@,
            ResourceErrorView::RuntimeSubread { other } => "`cs get runtime/"@ + other
                + "`: expected runtime/status, snapshot, forces, history, alarms or alarms-journal"@,
            ResourceErrorView::Unnamed { verb, kind } => if verb == Verb::Read && kind
                == Kind::Pous {
                "`cs get pous` lists nothing — use `cs ls pous`, or name one: `cs get pous/<path>`"@
            } else if verb == Verb::Read && kind == Kind::Devices {
                "name a device: `cs get devices/<name>` (list with `cs ls devices`)"@
            } else if verb == Verb::Read && kind == Kind::Edges {
                "name an edge: `cs get edges/<name>` (list with `cs ls edges`)"@
            } else if verb == Verb::Read && kind == Kind::Hmi {
                "name a screen: `cs get hmi/<slug>` (list with `cs ls hmi`)"@
            } else if verb == Verb::Write && kind == Kind::Pous {
                "name a POU: `cs set pous/<path>.st --from <file>`"@
            } else if verb == Verb::Write {
                "name the resource: `cs set "@ + kind.text() + "/<name> …`"@
            } else {
                "name what to remove: `cs rm "@ + kind.text() + "/<name>`"@
            },
            ResourceErrorView::NotGettable { path, kind } => "`cs get "@ + path + "`: use `cs ls "@
                + kind.text() + "` to enumerate; `cs rm library/<name>` to remove an import"@,
            ResourceErrorView::HmiFolder => "HMI screens don't have folders — slugs may contain slashes directly"@,
            ResourceErrorView::NotWritable { kind } => "`cs set "@ + kind.text()
                + "/...` isn't writable — "@ + kinds_hint(),
            ResourceErrorView::NotRemovable { kind } => "`cs rm "@ + kind.text()
                + "/...` isn't removable — "@ + kinds_hint(),
        }
    }
}

fn verb_str(v: Verb) -> (r: &'static str)
    ensures
        r@ == verb_text(v),
{
    match v {
        Verb::List => "ls",
        Verb::Read => "get",
        Verb::Write => "set",
        Verb::Remove => "rm",
    }
}

impl ResourceError {
    /// The message shown to the user.
    pub fn message(&self) -> (r: String)
        ensures
            r@ == self@.text(),
    {
        let mut m: Vec<char> = Vec::new();
        match self {
            ResourceError::UnknownKind { verb, path } => {
                extend_str(&mut m, "`cs ");
                extend_str(&mut m, verb_str(*verb));
                extend_str(&mut m, " ");
                extend_str(&mut m, path.as_str());
                extend_str(&mut m, "`: unknown resource kind — ");
                let hint = known_kinds_hint();
                extend_str(&mut m, hint.as_str());
            },
            ResourceError::SingleDocument { verb, kind } => {
                extend_str(&mut m, "`");
                extend_str(&mut m, kind.as_str());
                match verb {
                    Verb::List => {
                        extend_str(&mut m, "` is a single document — use `cs get ");
                        extend_str(&mut m, kind.as_str());
                        extend_str(&mut m, "`");
                    },
                    Verb::Read => {
                        extend_str(&mut m, "` is a single document — `cs get ");
                        extend_str(&mut m, kind.as_str());
                        extend_str(&mut m, "`");
                    },
                    _ => {
                        extend_str(&mut m, "` is a single document — `cs set ");
                        extend_str(&mut m, kind.as_str());
                        extend_str(&mut m, " --from <file>`");
                    },
                }
            },
            ResourceError::ProjectSubread { other } => {
                extend_str(&mut m, "`cs get project/");
                extend_str(&mut m, other.as_str());
                extend_str(&mut m, "`: expected project, project/variables or project/pous");
            },
            ResourceError::RuntimeSubread { other } => {
                extend_str(&mut m, "`cs get runtime/");
                extend_str(&mut m, other.as_str());
                extend_str(
                    &mut m,
                    "`: expected runtime/status, snapshot, forces, history, alarms or alarms-journal",
                );
            },
            ResourceError::Unnamed { verb, kind } => {
                if *verb == Verb::Read && *kind == Kind::Pous {
                    extend_str(
                        &mut m,
                        "`cs get pous` lists nothing — use `cs ls pous`, or name one: `cs get pous/<path>`",
                    );
                } else if *verb == Verb::Read && *kind == Kind::Devices {
                    extend_str(
                        &mut m,
                        "name a device: `cs get devices/<name>` (list with `cs ls devices`)",
                    );
                } else if *verb == Verb::Read && *kind == Kind::Edges {
                    extend_str(
                        &mut m,
                        "name an edge: `cs get edges/<name>` (list with `cs ls edges`)",
                    );
                } else if *verb == Verb::Read && *kind == Kind::Hmi {
                    extend_str(&mut m, "name a screen: `cs get hmi/<slug>` (list with `cs ls hmi`)");
                } else if *verb == Verb::Write && *kind == Kind::Pous {
                    extend_str(&mut m, "name a POU: `cs set pous/<path>.st --from <file>`");
                } else if *verb == Verb::Write {
                    extend_str(&mut m, "name the resource: `cs set ");
                    extend_str(&mut m, kind.as_str());
                    extend_str(&mut m, "/<name> …`");
                } else {
                    extend_str(&mut m, "name what to remove: `cs rm ");
                    extend_str(&mut m, kind.as_str());
                    extend_str(&mut m, "/<name>`");
                }
            },
            ResourceError::NotGettable { path, kind } => {
                extend_str(&mut m, "`cs get ");
                extend_str(&mut m, path.as_str());
                extend_str(&mut m, "`: use `cs ls ");
                extend_str(&mut m, kind.as_str());
                extend_str(&mut m, "` to enumerate; `cs rm library/<name>` to remove an import");
            },
            ResourceError::HmiFolder => {
                extend_str(
                    &mut m,
                    "HMI screens don't have folders — slugs may contain slashes directly",
                );
            },
            ResourceError::NotWritable { kind } => {
                extend_str(&mut m, "`cs set ");
                extend_str(&mut m, kind.as_str());
                extend_str(&mut m, "/...` isn't writable — ");
                let hint = known_kinds_hint();
                extend_str(&mut m, hint.as_str());
            },
            ResourceError::NotRemovable { kind } => {
                extend_str(&mut m, "`cs rm ");
                extend_str(&mut m, kind.as_str());
                extend_str(&mut m, "/...` isn't removable — ");
                let hint = known_kinds_hint();
                extend_str(&mut m, hint.as_str());
            },
        }
        string_of(&m)
    }
}

// ------------------------------------------------------------ resolution
pub open spec fn plan_result(r: Result<Plan, ResourceError>) -> Result<PlanView, ResourceErrorView> {
    match r {
        Ok(p) => Ok(p@),
        Err(e) => Err(e@),
    }
}

pub open spec fn ls_result(r: Result<Option<Plan>, ResourceError>) -> Result<
    Option<PlanView>,
    ResourceErrorView,
> {
    match r {
        Ok(Some(p)) => Ok(Some(p@)),
        Ok(None) => Ok(None),
        Err(e) => Err(e@),
    }
}

pub open spec fn set_result(r: Result<SetPlan, ResourceError>) -> Result<
    SetPlanView,
    ResourceErrorView,
> {
    match r {
        Ok(p) => Ok(p@),
        Err(e) => Err(e@),
    }
}

/// The runtime sub-reads `cs get runtime/<x>` accepts.
pub open spec fn is_runtime_subread(j: Seq<char>) -> bool {
    j == "status"@ || j == "snapshot"@ || j == "forces"@ || j == "history"@ || j == "alarms"@ || j
        == "alarms-journal"@
}

/// Reserved last segments of `edges/<name>/<sub>`.
pub open spec fn is_edge_subread(l: Seq<char>) -> bool {
    l == "probe"@ || l == "status"@ || l == "logs"@ || l == "scan"@ || l == "system"@
}

/// The API route of an edge sub-read: `scan` reads the discovery endpoint.
pub open spec fn edge_route(l: Seq<char>) -> Seq<char> {
    if l == "scan"@ {
        "discover"@
    } else {
        l
    }
}

/// The human renderer of an edge sub-read.
pub open spec fn edge_render(l: Seq<char>) -> Render {
    if l == "scan"@ {
        Render::EdgeScan
    } else if l == "logs"@ {
        Render::EdgeLogs
    } else if l == "system"@ {
        Render::EdgeSystem
    } else {
        Render::Json
    }
}

/// Kinds that are one document each.
pub open spec fn is_single_doc_get(k: Kind) -> bool {
    k == Kind::Iomap || k == Kind::Tasks || k == Kind::Northbound || k == Kind::Alarms || k
        == Kind::HmiSymbols
}

/// What `cs get <path>` resolves to.
pub open spec fn spec_resolve_get(path: Seq<char>) -> Result<PlanView, ResourceErrorView> {
    let rest = path_rest(path);
    let joined = path_joined(path);
    match parse_kind(path_kind(path)) {
        None => Err(ResourceErrorView::UnknownKind { verb: Verb::Read, path }),
        Some(k) => if is_single_doc_get(k) {
            if rest.len() > 0 {
                Err(ResourceErrorView::SingleDocument { verb: Verb::Read, kind: k })
            } else {
                Ok(PlanView::Get { path: "/api/"@ + k.text(), render: Render::Json })
            }
        } else if k == Kind::Project {
            if joined.len() == 0 {
                Ok(PlanView::Get { path: "/api/project"@, render: Render::Json })
            } else if joined == "variables"@ || joined == "pous"@ {
                Ok(PlanView::Get { path: "/api/project/"@ + joined, render: Render::Json })
            } else {
                Err(ResourceErrorView::ProjectSubread { other: joined })
            }
        } else if k == Kind::Runtime {
            if is_runtime_subread(joined) {
                Ok(PlanView::Get { path: "/api/runtime/"@ + joined, render: Render::Json })
            } else {
                Err(ResourceErrorView::RuntimeSubread { other: joined })
            }
        } else if k == Kind::Pous {
            if rest.len() == 0 {
                Err(ResourceErrorView::Unnamed { verb: Verb::Read, kind: k })
            } else if rest.last() == "variables"@ && rest.len() > 1 {
                let name = join_with(rest.drop_last(), seq!['/']);
                Ok(
                    PlanView::Get {
                        path: "/api/pous/"@ + url_encoded(pou_slug_of(name).0) + "/variables"@,
                        render: Render::Json,
                    },
                )
            } else {
                Ok(PlanView::GetPou { slug: pou_slug_of(joined).0 })
            }
        } else if k == Kind::Devices || k == Kind::Hmi {
            if rest.len() == 0 {
                Err(ResourceErrorView::Unnamed { verb: Verb::Read, kind: k })
            } else {
                Ok(
                    PlanView::Get {
                        path: "/api/"@ + k.text() + "/"@ + url_encoded(joined),
                        render: Render::Json,
                    },
                )
            }
        } else if k == Kind::Edges {
            if rest.len() == 0 {
                Err(ResourceErrorView::Unnamed { verb: Verb::Read, kind: k })
            } else if rest.len() > 1 && is_edge_subread(rest.last()) {
                let name = join_with(rest.drop_last(), seq!['/']);
                Ok(
                    PlanView::Get {
                        path: "/api/edges/"@ + url_encoded(name) + "/"@ + edge_route(rest.last()),
                        render: edge_render(rest.last()),
                    },
                )
            } else {
                Ok(
                    PlanView::Get {
                        path: "/api/"@ + k.text() + "/"@ + url_encoded(joined),
                        render: Render::Json,
                    },
                )
            }
        } else {
            Err(ResourceErrorView::NotGettable { path, kind: k })
        },
    }
}

/// Segments of `path` together with the facts the resolvers share.
fn segments_of(path: &str) -> (r: (Vec<Vec<char>>, Vec<char>))
    ensures
        texts(r.0@) == path_segments(path@),
        r.0@.len() >= 1,
        texts(r.0@).drop_first() == path_rest(path@),
        r.1@ == path_joined(path@),
{
    let p = chars_of(path);
    let segs = split(&p);
    let sep = vec!['/'];
    let joined = join_range(&segs, 1, segs.len(), &sep);
    assert(sep@ == seq!['/']);
    assert(texts(segs@).subrange(1, segs@.len() as int) == texts(segs@).drop_first());
    (segs, joined)
}

/// `parts[1..n-1]` joined with `/` (the name before a reserved last segment).
fn name_before_last(segs: &Vec<Vec<char>>) -> (r: Vec<char>)
    requires
        segs@.len() >= 2,
    ensures
        r@ == join_with(texts(segs@).drop_first().drop_last(), seq!['/']),
{
    let sep = vec!['/'];
    let r = join_range(segs, 1, segs.len() - 1, &sep);
    assert(sep@ == seq!['/']);
    assert(texts(segs@).subrange(1, segs@.len() - 1) == texts(segs@).drop_first().drop_last());
    r
}

fn api_path(kind: Kind, name: &[char]) -> (r: String)
    ensures
        r@ == "/api/"@ + kind.text() + "/"@ + url_encoded(name@),
{
    let mut u = chars_of("/api/");
    extend_str(&mut u, kind.as_str());
    extend_str(&mut u, "/");
    let enc = url_encode_chars(name);
    extend_chars(&mut u, &enc);
    string_of(&u)
}

/// Resolve `cs get <path>`.
pub fn resolve_get(path: &str) -> (r: Result<Plan, ResourceError>)
    ensures
        plan_result(r) == spec_resolve_get(path@),
{
    let (segs, joined) = segments_of(path);
    let n = segs.len();
    let ghost rest = path_rest(path@);
    assert(rest.len() == n - 1);
    assert(texts(segs@)[0] == segs@[0]@);
    let kind = match kind_static(&segs[0]) {
        Some(k) => k,
        None => {
            return Err(ResourceError::UnknownKind { verb: Verb::Read, path: String::from_str(path) });
        },
    };
    if kind == Kind::Iomap || kind == Kind::Tasks || kind == Kind::Northbound || kind == Kind::Alarms
        || kind == Kind::HmiSymbols {
        if n > 1 {
            return Err(ResourceError::SingleDocument { verb: Verb::Read, kind });
        }
        let mut u = chars_of("/api/");
        extend_str(&mut u, kind.as_str());
        assert(u@ =~= "/api/"@ + kind.text());
        Ok(Plan::Get { path: string_of(&u), render: Render::Json })
    } else if kind == Kind::Project {
        if joined.len() == 0 {
            Ok(Plan::Get { path: String::from_str("/api/project"), render: Render::Json })
        } else if eq_str(&joined, "variables") || eq_str(&joined, "pous") {
            let mut u = chars_of("/api/project/");
            extend_chars(&mut u, &joined);
            assert(u@ =~= "/api/project/"@ + joined@);
            Ok(Plan::Get { path: string_of(&u), render: Render::Json })
        } else {
            Err(ResourceError::ProjectSubread { other: string_of(&joined) })
        }
    } else if kind == Kind::Runtime {
        if eq_str(&joined, "status") || eq_str(&joined, "snapshot") || eq_str(&joined, "forces")
            || eq_str(&joined, "history") || eq_str(&joined, "alarms") || eq_str(
            &joined,
            "alarms-journal",
        ) {
            let mut u = chars_of("/api/runtime/");
            extend_chars(&mut u, &joined);
            assert(u@ =~= "/api/runtime/"@ + joined@);
            Ok(Plan::Get { path: string_of(&u), render: Render::Json })
        } else {
            Err(ResourceError::RuntimeSubread { other: string_of(&joined) })
        }
    } else if kind == Kind::Pous {
        if n == 1 {
            return Err(ResourceError::Unnamed { verb: Verb::Read, kind });
        }
        assert(rest.last() == segs@[n - 1]@);
        if eq_str(&segs[n - 1], "variables") && n > 2 {
            let name = name_before_last(&segs);
            let (slug, _) = pou_slug_chars(&name);
            let mut u = chars_of("/api/pous/");
            let enc = url_encode_chars(&slug);
            extend_chars(&mut u, &enc);
            extend_str(&mut u, "/variables");
            assert(u@ =~= "/api/pous/"@ + url_encoded(slug@) + "/variables"@);
            Ok(Plan::Get { path: string_of(&u), render: Render::Json })
        } else {
            let (slug, _) = pou_slug_chars(&joined);
            Ok(Plan::GetPou { slug: string_of(&slug) })
        }
    } else if kind == Kind::Devices || kind == Kind::Hmi {
        if n == 1 {
            return Err(ResourceError::Unnamed { verb: Verb::Read, kind });
        }
        Ok(Plan::Get { path: api_path(kind, &joined), render: Render::Json })
    } else if kind == Kind::Edges {
        if n == 1 {
            return Err(ResourceError::Unnamed { verb: Verb::Read, kind });
        }
        assert(rest.last() == segs@[n - 1]@);
        let last = &segs[n - 1];
        if n > 2 && (eq_str(last, "probe") || eq_str(last, "status") || eq_str(last, "logs")
            || eq_str(last, "scan") || eq_str(last, "system")) {
            let name = name_before_last(&segs);
            let mut u = chars_of("/api/edges/");
            let enc = url_encode_chars(&name);
            extend_chars(&mut u, &enc);
            extend_str(&mut u, "/");
            let render = if eq_str(last, "scan") {
                extend_str(&mut u, "discover");
                Render::EdgeScan
            } else if eq_str(last, "logs") {
                extend_chars(&mut u, last);
                Render::EdgeLogs
            } else if eq_str(last, "system") {
                extend_chars(&mut u, last);
                Render::EdgeSystem
            } else {
                extend_chars(&mut u, last);
                Render::Json
            };
            assert(u@ =~= "/api/edges/"@ + url_encoded(name@) + "/"@ + edge_route(last@));
            Ok(Plan::Get { path: string_of(&u), render })
        } else {
            Ok(Plan::Get { path: api_path(kind, &joined), render: Render::Json })
        }
    } else {
        Err(ResourceError::NotGettable { path: String::from_str(path), kind })
    }
}

/// Kinds `cs ls` enumerates.
pub open spec fn is_listable(k: Kind) -> bool {
    k == Kind::Projects || k == Kind::Pous || k == Kind::Devices || k == Kind::Edges || k
        == Kind::Hmi || k == Kind::Library || k == Kind::DeviceCatalog
}

/// What `cs ls [path]` resolves to (`None`: the root overview).
pub open spec fn spec_resolve_ls(path: Option<Seq<char>>) -> Result<
    Option<PlanView>,
    ResourceErrorView,
> {
    match path {
        None => Ok(None),
        Some(p) => match parse_kind(path_kind(p)) {
            None => Err(ResourceErrorView::UnknownKind { verb: Verb::List, path: p }),
            Some(k) => if is_listable(k) {
                Ok(Some(PlanView::Ls { kind: k.text(), prefix: path_joined(p) }))
            } else {
                Err(ResourceErrorView::SingleDocument { verb: Verb::List, kind: k })
            },
        },
    }
}

pub open spec fn opt_str(p: Option<&str>) -> Option<Seq<char>> {
    match p {
        Some(s) => Some(s@),
        None => None,
    }
}

/// Resolve `cs ls [path]`.
pub fn resolve_ls(path: Option<&str>) -> (r: Result<Option<Plan>, ResourceError>)
    ensures
        ls_result(r) == spec_resolve_ls(opt_str(path)),
{
    let path = match path {
        None => return Ok(None),
        Some(p) => p,
    };
    let (segs, joined) = segments_of(path);
    assert(texts(segs@)[0] == segs@[0]@);
    let kind = match kind_static(&segs[0]) {
        Some(k) => k,
        None => {
            return Err(ResourceError::UnknownKind { verb: Verb::List, path: String::from_str(path) });
        },
    };
    if kind == Kind::Projects || kind == Kind::Pous || kind == Kind::Devices || kind == Kind::Edges
        || kind == Kind::Hmi || kind == Kind::Library || kind == Kind::DeviceCatalog {
        Ok(Some(Plan::Ls { kind: kind.as_str(), prefix: string_of(&joined) }))
    } else {
        Err(ResourceError::SingleDocument { verb: Verb::List, kind })
    }
}

/// The raw path names a folder (ends with `/`).
pub open spec fn names_folder(path: Seq<char>) -> bool {
    path.len() > 0 && path.last() == '/'
}

/// Single-document configs `cs set` writes.
pub open spec fn is_config_kind(k: Kind) -> bool {
    k == Kind::Iomap || k == Kind::Tasks || k == Kind::Northbound || k == Kind::Alarms
}

/// What `cs set <path>` resolves to.
pub open spec fn spec_resolve_set(path: Seq<char>) -> Result<SetPlanView, ResourceErrorView> {
    let rest = path_rest(path);
    let joined = path_joined(path);
    let folder = names_folder(path);
    match parse_kind(path_kind(path)) {
        None => Err(ResourceErrorView::UnknownKind { verb: Verb::Write, path }),
        Some(k) => if is_config_kind(k) {
            if rest.len() > 0 {
                Err(ResourceErrorView::SingleDocument { verb: Verb::Write, kind: k })
            } else {
                Ok(SetPlanView::Config { kind: k.text() })
            }
        } else if k == Kind::Pous {
            if joined.len() == 0 {
                Err(ResourceErrorView::Unnamed { verb: Verb::Write, kind: k })
            } else if folder {
                Ok(SetPlanView::Folder { kind: k.text(), path: joined })
            } else {
                Ok(SetPlanView::Pou { slug: pou_slug_of(joined).0, language: pou_slug_of(joined).1 })
            }
        } else if k == Kind::Devices || k == Kind::Edges || k == Kind::Hmi {
            if joined.len() == 0 {
                Err(ResourceErrorView::Unnamed { verb: Verb::Write, kind: k })
            } else if folder {
                if k == Kind::Hmi {
                    Err(ResourceErrorView::HmiFolder)
                } else {
                    Ok(SetPlanView::Folder { kind: k.text(), path: joined })
                }
            } else {
                Ok(SetPlanView::Doc { kind: k.text(), name: joined })
            }
        } else {
            Err(ResourceErrorView::NotWritable { kind: k })
        },
    }
}

fn ends_with_slash(path: &str) -> (r: bool)
    ensures
        r == names_folder(path@),
{
    let p = chars_of(path);
    p.len() > 0 && p[p.len() - 1] == '/'
}

/// Resolve `cs set <path>`.
pub fn resolve_set(path: &str) -> (r: Result<SetPlan, ResourceError>)
    ensures
        set_result(r) == spec_resolve_set(path@),
{
    let (segs, joined) = segments_of(path);
    let folder = ends_with_slash(path);
    assert(texts(segs@)[0] == segs@[0]@);
    let kind = match kind_static(&segs[0]) {
        Some(k) => k,
        None => {
            return Err(ResourceError::UnknownKind { verb: Verb::Write, path: String::from_str(path) });
        },
    };
    if kind == Kind::Iomap || kind == Kind::Tasks || kind == Kind::Northbound || kind == Kind::Alarms {
        if segs.len() > 1 {
            Err(ResourceError::SingleDocument { verb: Verb::Write, kind })
        } else {
            Ok(SetPlan::Config { kind: kind.as_str() })
        }
    } else if kind == Kind::Pous {
        if joined.len() == 0 {
            Err(ResourceError::Unnamed { verb: Verb::Write, kind })
        } else if folder {
            Ok(SetPlan::Folder { kind: kind.as_str(), path: string_of(&joined) })
        } else {
            let (slug, lang) = pou_slug_chars(&joined);
            let language = match lang {
                Some(l) => Some(String::from_str(l)),
                None => None,
            };
            Ok(SetPlan::Pou { slug: string_of(&slug), language })
        }
    } else if kind == Kind::Devices || kind == Kind::Edges || kind == Kind::Hmi {
        if joined.len() == 0 {
            Err(ResourceError::Unnamed { verb: Verb::Write, kind })
        } else if folder {
            if kind == Kind::Hmi {
                Err(ResourceError::HmiFolder)
            } else {
                Ok(SetPlan::Folder { kind: kind.as_str(), path: string_of(&joined) })
            }
        } else {
            Ok(SetPlan::Doc { kind: kind.as_str(), name: string_of(&joined) })
        }
    } else {
        Err(ResourceError::NotWritable { kind })
    }
}

/// The DELETE route of `cs rm <path>` for a known kind and a non-empty name.
pub open spec fn rm_route(k: Kind, joined: Seq<char>, folder: bool) -> Option<Seq<char>> {
    if folder && (k == Kind::Pous || k == Kind::Devices || k == Kind::Edges) {
        Some("/api/"@ + k.text() + "/folders/"@ + url_encoded(joined))
    } else if k == Kind::Pous {
        Some("/api/"@ + k.text() + "/"@ + url_encoded(pou_slug_of(joined).0))
    } else if k == Kind::Devices || k == Kind::Edges || k == Kind::Hmi || k == Kind::Library {
        Some("/api/"@ + k.text() + "/"@ + url_encoded(joined))
    } else {
        None
    }
}

/// What `cs rm <path>` resolves to: the DELETE URL and a human label.
pub open spec fn spec_resolve_rm(path: Seq<char>) -> Result<PlanView, ResourceErrorView> {
    let joined = path_joined(path);
    match parse_kind(path_kind(path)) {
        None => Err(ResourceErrorView::UnknownKind { verb: Verb::Remove, path }),
        Some(k) => if joined.len() == 0 {
            Err(ResourceErrorView::Unnamed { verb: Verb::Remove, kind: k })
        } else {
            match rm_route(k, joined, names_folder(path)) {
                Some(url) => Ok(PlanView::Rm { path: url, label: k.text() + "/"@ + joined }),
                None => Err(ResourceErrorView::NotRemovable { kind: k }),
            }
        },
    }
}

/// Resolve `cs rm <path>` to a DELETE URL + a human label.
pub fn resolve_rm(path: &str) -> (r: Result<Plan, ResourceError>)
    ensures
        plan_result(r) == spec_resolve_rm(path@),
{
    let (segs, joined) = segments_of(path);
    let folder = ends_with_slash(path);
    assert(texts(segs@)[0] == segs@[0]@);
    let kind = match kind_static(&segs[0]) {
        Some(k) => k,
        None => {
            return Err(ResourceError::UnknownKind { verb: Verb::Remove, path: String::from_str(path) });
        },
    };
    if joined.len() == 0 {
        return Err(ResourceError::Unnamed { verb: Verb::Remove, kind });
    }
    let mut url = chars_of("/api/");
    extend_str(&mut url, kind.as_str());
    if folder && (kind == Kind::Pous || kind == Kind::Devices || kind == Kind::Edges) {
        extend_str(&mut url, "/folders/");
        let enc = url_encode_chars(&joined);
        extend_chars(&mut url, &enc);
        assert(url@ =~= "/api/"@ + kind.text() + "/folders/"@ + url_encoded(joined@));
    } else if kind == Kind::Pous {
        extend_str(&mut url, "/");
        let (slug, _) = pou_slug_chars(&joined);
        let enc = url_encode_chars(&slug);
        extend_chars(&mut url, &enc);
        assert(url@ =~= "/api/"@ + kind.text() + "/"@ + url_encoded(pou_slug_of(joined@).0));
    } else if kind == Kind::Devices || kind == Kind::Edges || kind == Kind::Hmi || kind
        == Kind::Library {
        extend_str(&mut url, "/");
        let enc = url_encode_chars(&joined);
        extend_chars(&mut url, &enc);
        assert(url@ =~= "/api/"@ + kind.text() + "/"@ + url_encoded(joined@));
    } else {
        return Err(ResourceError::NotRemovable { kind });
    }
    let mut label = chars_of(kind.as_str());
    extend_str(&mut label, "/");
    extend_chars(&mut label, &joined);
    assert(label@ =~= kind.text() + "/"@ + joined@);
    Ok(Plan::Rm { path: string_of(&url), label: string_of(&label) })
}


// ------------------------------------------------------------ laws
/// The on-disk extension that names a POU language.
pub open spec fn language_extension(language: Seq<char>) -> Seq<char> {
    if language == "ld"@ {
        ".ld.json"@
    } else if language == "fbd"@ {
        ".fbd.json"@
    } else if language == "sfc"@ {
        ".sfc.json"@
    } else {
        ".st"@
    }
}

/// A POU path is its slug plus the extension of the language it names;
/// a path without a known extension is its own slug.
pub proof fn law_pou_slug_round_trip(p: Seq<char>)
    ensures
        pou_slug_of(p).1 matches Some(l) ==> pou_slug_of(p).0 + language_extension(l) == p,
        pou_slug_of(p).1 is None ==> pou_slug_of(p).0 == p,
{
    reveal_strlit("ld");
    reveal_strlit("fbd");
    reveal_strlit("sfc");
    reveal_strlit("st");
    assert("ld"@.len() == 2 && "st"@.len() == 2 && "fbd"@.len() == 3 && "sfc"@.len() == 3);
    assert("ld"@[0] == 'l' && "st"@[0] == 's' && "fbd"@[0] == 'f' && "sfc"@[0] == 's');
    let e = if has_suffix(p, ".ld.json"@) {
        ".ld.json"@
    } else if has_suffix(p, ".fbd.json"@) {
        ".fbd.json"@
    } else if has_suffix(p, ".sfc.json"@) {
        ".sfc.json"@
    } else {
        ".st"@
    };
    if pou_slug_of(p).1 is Some {
        assert(language_extension(pou_slug_of(p).1.unwrap()) == e);
        assert(has_suffix(p, e));
        assert(p.skip(p.len() - e.len()) == e);
        assert(pou_slug_of(p).0 + e =~= p);
    }
}

proof fn lemma_joined_names_rest(path: Seq<char>)
    ensures
        path_joined(path).len() > 0 ==> path_rest(path).len() > 0,
{
}

/// The URL of a named document of kind `k`.
pub open spec fn doc_url(k: Kind, name: Seq<char>) -> Seq<char> {
    "/api/"@ + k.text() + "/"@ + url_encoded(name)
}

/// One path, one resource: a named device, edge (other than an edge
/// sub-read) or HMI screen is read, written and removed at the same API
/// URL — `get` and `rm` address `/api/<kind>/<name>` and `set` writes the
/// same document.
pub proof fn law_doc_paths_agree(path: Seq<char>, k: Kind)
    requires
        parse_kind(path_kind(path)) == Some(k),
        k == Kind::Devices || k == Kind::Hmi || k == Kind::Edges,
        k == Kind::Edges ==> !(path_rest(path).len() > 1 && is_edge_subread(path_rest(path).last())),
        path_joined(path).len() > 0,
        !names_folder(path),
    ensures
        spec_resolve_get(path) == Ok::<PlanView, ResourceErrorView>(
            PlanView::Get { path: doc_url(k, path_joined(path)), render: Render::Json },
        ),
        spec_resolve_rm(path) matches Ok(PlanView::Rm { path: u, .. }) && u == doc_url(k, path_joined(path)),
        spec_resolve_set(path) == Ok::<SetPlanView, ResourceErrorView>(
            SetPlanView::Doc { kind: k.text(), name: path_joined(path) },
        ),
{
    lemma_joined_names_rest(path);
}

/// A POU path (other than a `…/variables` read) names the same slug for
/// `get`, `set` and `rm`: `get` reads `/api/pous/<slug>`, `rm` deletes it,
/// `set` writes it (creating it in the language of the extension).
pub proof fn law_pou_paths_agree(path: Seq<char>)
    requires
        parse_kind(path_kind(path)) == Some(Kind::Pous),
        path_joined(path).len() > 0,
        !names_folder(path),
        !(path_rest(path).len() > 1 && path_rest(path).last() == "variables"@),
    ensures
        spec_resolve_get(path) == Ok::<PlanView, ResourceErrorView>(
            PlanView::GetPou { slug: pou_slug_of(path_joined(path)).0 },
        ),
        spec_resolve_rm(path) matches Ok(PlanView::Rm { path: u, .. }) && u == doc_url(
            Kind::Pous,
            pou_slug_of(path_joined(path)).0,
        ),
        spec_resolve_set(path) == Ok::<SetPlanView, ResourceErrorView>(
            SetPlanView::Pou {
                slug: pou_slug_of(path_joined(path)).0,
                language: pou_slug_of(path_joined(path)).1,
            },
        ),
{
    lemma_joined_names_rest(path);
}

/// `cs get runtime/<x>` reads `/api/runtime/<x>` as JSON for exactly the
/// six runtime sub-reads `status`, `snapshot`, `forces`, `history`,
/// `alarms` and `alarms-journal`; any other `<x>` is refused as an unknown
/// runtime sub-read, naming it.
pub proof fn law_runtime_subreads(path: Seq<char>)
    requires
        parse_kind(path_kind(path)) == Some(Kind::Runtime),
    ensures
        ({
            let j = path_joined(path);
            j == "status"@ || j == "snapshot"@ || j == "forces"@ || j == "history"@ || j == "alarms"@
                || j == "alarms-journal"@
        }) ==> spec_resolve_get(path) == Ok::<PlanView, ResourceErrorView>(
            PlanView::Get { path: "/api/runtime/"@ + path_joined(path), render: Render::Json },
        ),
        !({
            let j = path_joined(path);
            j == "status"@ || j == "snapshot"@ || j == "forces"@ || j == "history"@ || j == "alarms"@
                || j == "alarms-journal"@
        }) ==> spec_resolve_get(path) == Err::<PlanView, ResourceErrorView>(
            ResourceErrorView::RuntimeSubread { other: path_joined(path) },
        ),
{
}

/// `cs get project` reads `/api/project`, `project/variables` and
/// `project/pous` read `/api/project/variables` and `/api/project/pous`,
/// and any other sub-read is refused, naming it.
pub proof fn law_project_reads(path: Seq<char>)
    requires
        parse_kind(path_kind(path)) == Some(Kind::Project),
    ensures
        path_joined(path).len() == 0 ==> spec_resolve_get(path) == Ok::<PlanView, ResourceErrorView>(
            PlanView::Get { path: "/api/project"@, render: Render::Json },
        ),
        (path_joined(path) == "variables"@ || path_joined(path) == "pous"@) ==> spec_resolve_get(path)
            == Ok::<PlanView, ResourceErrorView>(
            PlanView::Get { path: "/api/project/"@ + path_joined(path), render: Render::Json },
        ),
        (path_joined(path).len() > 0 && path_joined(path) != "variables"@ && path_joined(path) != "pous"@)
            ==> spec_resolve_get(path) == Err::<PlanView, ResourceErrorView>(
            ResourceErrorView::ProjectSubread { other: path_joined(path) },
        ),
{
    reveal_strlit("variables");
    reveal_strlit("pous");
    assert("variables"@.len() > 0 && "pous"@.len() > 0);
}

/// `cs get edges/<name>/<sub>` for the reserved sub-reads: `probe` and
/// `status` read `/api/edges/<name>/probe` and `…/status` as JSON, `logs`
/// and `system` read `…/logs` and `…/system` with their own renderers,
/// and `scan` reads `…/discover` rendered as a scan.
pub proof fn law_edge_subreads(path: Seq<char>)
    requires
        parse_kind(path_kind(path)) == Some(Kind::Edges),
        path_rest(path).len() > 1,
    ensures
        ({
            let l = path_rest(path).last();
            let pre = "/api/edges/"@ + url_encoded(join_with(path_rest(path).drop_last(), seq!['/'])) + "/"@;
            &&& l == "probe"@ ==> spec_resolve_get(path) == Ok::<PlanView, ResourceErrorView>(
                PlanView::Get { path: pre + "probe"@, render: Render::Json },
            )
            &&& l == "status"@ ==> spec_resolve_get(path) == Ok::<PlanView, ResourceErrorView>(
                PlanView::Get { path: pre + "status"@, render: Render::Json },
            )
            &&& l == "logs"@ ==> spec_resolve_get(path) == Ok::<PlanView, ResourceErrorView>(
                PlanView::Get { path: pre + "logs"@, render: Render::EdgeLogs },
            )
            &&& l == "system"@ ==> spec_resolve_get(path) == Ok::<PlanView, ResourceErrorView>(
                PlanView::Get { path: pre + "system"@, render: Render::EdgeSystem },
            )
            &&& l == "scan"@ ==> spec_resolve_get(path) == Ok::<PlanView, ResourceErrorView>(
                PlanView::Get { path: pre + "discover"@, render: Render::EdgeScan },
            )
        }),
{
    reveal_strlit("probe");
    reveal_strlit("status");
    reveal_strlit("logs");
    reveal_strlit("system");
    reveal_strlit("scan");
    assert("probe"@.len() == 5 && "status"@.len() == 6 && "logs"@.len() == 4 && "system"@.len() == 6
        && "scan"@.len() == 4);
    assert("logs"@[0] == 'l' && "scan"@[0] == 's' && "status"@[1] == 't' && "system"@[1] == 'y');
}

} // verus!
