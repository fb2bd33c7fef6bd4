//! The shared runtime-monitor core: the wire shapes both the IDE server
//! and the edge runtime serve, the debug-state operations (pause / resume
//! / step / force / unforce), and the typed decoding of a variable's raw
//! 64-bit slot.
use vstd::prelude::*;
use crate::text::{
    chars_of, eq_chars, eq_str, extend_str, lemma_lex_total,
    lemma_lex_transitive, lex_less, lex_lt, string_of,
};

verus! {

/// One pinned (forced) variable in the runtime's debug state.
pub struct ForceEntry {
    pub name: String,
    pub value: i32,
}

impl View for ForceEntry {
    type V = (Seq<char>, i32);

    open spec fn view(&self) -> (Seq<char>, i32) {
        (self.name@, self.value)
    }
}

/// The views of a sequence of entries.
pub open spec fn entry_views(es: Seq<ForceEntry>) -> Seq<(Seq<char>, i32)> {
    Seq::new(es.len(), |i: int| es[i]@)
}

/// No name occurs twice.
pub open spec fn distinct_names(es: Seq<(Seq<char>, i32)>) -> bool {
    forall|i: int, j: int| 0 <= i < j < es.len() ==> es[i].0 != es[j].0
}

/// Names strictly increase (sorted by name, no duplicates).
pub open spec fn sorted_by_name(es: Seq<(Seq<char>, i32)>) -> bool {
    forall|i: int, j: int| 0 <= i < j < es.len() ==> lex_lt(es[i].0, es[j].0)
}

/// The position of `name` in `es`, if present.
pub open spec fn position_of(es: Seq<(Seq<char>, i32)>, name: Seq<char>) -> Option<int> {
    if exists|i: int| 0 <= i < es.len() && es[i].0 == name {
        Some(choose|i: int| 0 <= i < es.len() && es[i].0 == name)
    } else {
        None
    }
}

/// The force table after pinning `name` to `value`: an existing entry
/// keeps its place and takes the new value, a new one goes last.
pub open spec fn forced(es: Seq<(Seq<char>, i32)>, name: Seq<char>, value: i32) -> Seq<
    (Seq<char>, i32),
> {
    match position_of(es, name) {
        Some(i) => es.update(i, (name, value)),
        None => es.push((name, value)),
    }
}

/// The force table after releasing `name` (unchanged when not forced).
pub open spec fn unforced(es: Seq<(Seq<char>, i32)>, name: Seq<char>) -> Seq<(Seq<char>, i32)> {
    match position_of(es, name) {
        Some(i) => es.remove(i),
        None => es,
    }
}

fn copy_entry(e: &ForceEntry) -> (r: ForceEntry)
    ensures
        r@ == e@,
{
    ForceEntry { name: e.name.clone(), value: e.value }
}

/// Scan-loop mode of a live program.
#[derive(Clone, Copy, PartialEq, Eq, Debug, Structural)]
pub enum RuntimeMode {
    /// Scanning continuously.
    Running,
    /// Halted (IO frozen; writes and forces still apply).
    Paused,
    /// Running `remaining` more cycles, then auto-pausing.
    Step { remaining: u32 },
}

/// Response of every mode-changing op (pause / resume / step).
pub struct ModeResponse {
    pub mode: RuntimeMode,
}

/// Body of a step request. Defaults to 1 cycle — "step" without a count
/// is the common case.
pub struct StepRequest {
    pub cycles: u32,
}

/// Default cycle count of a step request.
pub fn default_step_cycles() -> (r: u32)
    ensures
        r == 1,
{
    1
}

impl StepRequest {
    /// A step request with the default cycle count.
    pub fn with_default_cycles() -> (r: StepRequest)
        ensures
            r.cycles == 1,
    {
        StepRequest { cycles: default_step_cycles() }
    }
}

/// The debug state of a live program: the variables it declares, its
/// scan-loop mode and the table of forced variables (one value per name).
pub struct ProgramHandle {
    variables: Vec<String>,
    mode: RuntimeMode,
    forces: Vec<ForceEntry>,
}

/// A force named a variable the program does not declare.
pub struct UnknownVariable {
    pub name: String,
}

impl UnknownVariable {
    /// The message shown for the error.
    pub open spec fn text(self) -> Seq<char> {
        "unknown variable `"@ + self.name@ + "`"@
    }

    /// The message shown for the error.
    pub fn message(&self) -> (r: String)
        ensures
            r@ == self.text(),
    {
        let mut m = chars_of("unknown variable `");
        extend_str(&mut m, self.name.as_str());
        extend_str(&mut m, "`");
        string_of(&m)
    }
}

impl ProgramHandle {
    #[verifier::type_invariant]
    spec fn forces_unique(self) -> bool {
        distinct_names(entry_views(self.forces@))
    }

    /// Current scan-loop mode.
    pub closed spec fn spec_mode(self) -> RuntimeMode {
        self.mode
    }

    /// The forced variables, in the order they were first forced.
    pub closed spec fn force_list(self) -> Seq<(Seq<char>, i32)> {
        entry_views(self.forces@)
    }

    /// The names of the variables the program declares.
    pub closed spec fn variables(self) -> Seq<Seq<char>> {
        Seq::new(self.variables@.len(), |i: int| self.variables@[i]@)
    }

    /// A freshly started program declaring `variables`: running, nothing
    /// forced.
    pub fn new(variables: Vec<String>) -> (r: ProgramHandle)
        ensures
            r.spec_mode() == RuntimeMode::Running,
            r.force_list() == Seq::<(Seq<char>, i32)>::empty(),
            r.variables() == Seq::new(variables@.len(), |i: int| variables@[i]@),
    {
        let r = ProgramHandle { variables, mode: RuntimeMode::Running, forces: Vec::new() };
        assert(entry_views(r.forces@) =~= Seq::<(Seq<char>, i32)>::empty());
        r
    }

    /// Whether the program declares a variable called `name`.
    pub fn declares(&self, name: &str) -> (r: bool)
        ensures
            r == self.variables().contains(name@),
    {
        let nm = chars_of(name);
        let mut i: usize = 0;
        while i < self.variables.len()
            invariant
                i <= self.variables@.len(),
                nm@ == name@,
                forall|j: int| 0 <= j < i ==> self.variables@[j]@ != name@,
            decreases self.variables@.len() - i,
        {
            let vn = chars_of(self.variables[i].as_str());
            if eq_chars(&vn, &nm) {
                assert(self.variables()[i as int] == name@);
                return true;
            }
            i = i + 1;
        }
        assert(!self.variables().contains(name@)) by {
            if self.variables().contains(name@) {
                let k = choose|k: int| 0 <= k < self.variables().len() && self.variables()[k] == name@;
                assert(self.variables@[k]@ == name@);
            }
        }
        false
    }

    /// Current scan-loop mode.
    pub fn mode(&self) -> (r: RuntimeMode)
        ensures
            r == self.spec_mode(),
    {
        self.mode
    }

    /// Halt the scan loop.
    pub fn pause(&mut self)
        ensures
            final(self).variables() == old(self).variables(),
            final(self).spec_mode() == RuntimeMode::Paused,
            final(self).force_list() == old(self).force_list(),
    {
        proof {
            use_type_invariant(&*self);
        }
        self.mode = RuntimeMode::Paused;
    }

    /// Resume continuous scanning.
    pub fn resume(&mut self)
        ensures
            final(self).variables() == old(self).variables(),
            final(self).spec_mode() == RuntimeMode::Running,
            final(self).force_list() == old(self).force_list(),
    {
        proof {
            use_type_invariant(&*self);
        }
        self.mode = RuntimeMode::Running;
    }

    /// Run `cycles` scan cycles, then auto-pause.
    pub fn step(&mut self, cycles: u32)
        ensures
            final(self).variables() == old(self).variables(),
            final(self).spec_mode() == (RuntimeMode::Step { remaining: cycles }),
            final(self).force_list() == old(self).force_list(),
    {
        proof {
            use_type_invariant(&*self);
        }
        self.mode = RuntimeMode::Step { remaining: cycles };
    }

    /// One scan cycle finished: a step run counts down and pauses after
    /// its last cycle; other modes are unchanged.
    pub fn scan_completed(&mut self)
        ensures
            final(self).variables() == old(self).variables(),
            final(self).spec_mode() == next_mode_after_scan(old(self).spec_mode()),
            final(self).force_list() == old(self).force_list(),
    {
        proof {
            use_type_invariant(&*self);
        }
        self.mode = match self.mode {
            RuntimeMode::Step { remaining } => if remaining <= 1 {
                RuntimeMode::Paused
            } else {
                RuntimeMode::Step { remaining: remaining - 1 }
            },
            m => m,
        };
    }

    fn find_force(&self, name: &[char]) -> (r: Option<usize>)
        ensures
            r matches Some(i) ==> i < self.force_list().len() && self.force_list()[i as int].0
                == name@,
            r is None ==> position_of(self.force_list(), name@) is None,
    {
        let mut i: usize = 0;
        while i < self.forces.len()
            invariant
                i <= self.forces@.len(),
                forall|j: int| 0 <= j < i ==> self.forces@[j].name@ != name@,
            decreases self.forces@.len() - i,
        {
            let nm = chars_of(self.forces[i].name.as_str());
            if eq_chars(&nm, name) {
                return Some(i);
            }
            i = i + 1;
        }
        assert(!exists|j: int|
            0 <= j < self.force_list().len() && #[trigger] self.force_list()[j].0 == name@);
        None
    }

    /// Pin `name` to `value` every scan until unforced; returns the value.
    /// A name the program does not declare is refused and nothing changes.
    pub fn force_variable(&mut self, name: &str, value: i32) -> (r: Result<i32, UnknownVariable>)
        ensures
            old(self).variables().contains(name@) ==> r == Ok::<i32, UnknownVariable>(value)
                && final(self).force_list() == forced(old(self).force_list(), name@, value),
            !old(self).variables().contains(name@) ==> (r matches Err(e) && e.name@ == name@)
                && final(self).force_list() == old(self).force_list(),
            final(self).spec_mode() == old(self).spec_mode(),
            final(self).variables() == old(self).variables(),
    {
        proof {
            use_type_invariant(&*self);
        }
        if !self.declares(name) {
            return Err(UnknownVariable { name: String::from_str(name) });
        }
        let nm = chars_of(name);
        let ghost before = self.force_list();
        match self.find_force(&nm) {
            Some(i) => {
                proof {
                    assert(position_of(before, name@) == Some(i as int)) by {
                        let k = choose|k: int| 0 <= k < before.len() && before[k].0 == name@;
                        assert(k == i as int);
                    }
                }
                let entry = ForceEntry { name: String::from_str(name), value };
                let mut forces: Vec<ForceEntry> = Vec::new();
                std::mem::swap(&mut forces, &mut self.forces);
                forces.set(i, entry);
                assert(entry_views(forces@) =~= before.update(i as int, (name@, value)));
                self.forces = forces;
            },
            None => {
                let entry = ForceEntry { name: String::from_str(name), value };
                let mut forces: Vec<ForceEntry> = Vec::new();
                std::mem::swap(&mut forces, &mut self.forces);
                forces.push(entry);
                assert(entry_views(forces@) =~= before.push((name@, value)));
                self.forces = forces;
            },
        }
        Ok(value)
    }

    /// Release a forced variable; a no-op when it was not forced.
    pub fn unforce_variable(&mut self, name: &str)
        ensures
            final(self).variables() == old(self).variables(),
            final(self).spec_mode() == old(self).spec_mode(),
            final(self).force_list() == unforced(old(self).force_list(), name@),
    {
        proof {
            use_type_invariant(&*self);
        }
        let nm = chars_of(name);
        let ghost before = self.force_list();
        if let Some(i) = self.find_force(&nm) {
            proof {
                assert(position_of(before, name@) == Some(i as int)) by {
                    let k = choose|k: int| 0 <= k < before.len() && before[k].0 == name@;
                    assert(k == i as int);
                }
            }
            let mut forces: Vec<ForceEntry> = Vec::new();
                std::mem::swap(&mut forces, &mut self.forces);
            forces.remove(i);
            assert(entry_views(forces@) =~= before.remove(i as int));
            self.forces = forces;
        }
    }

    /// A copy of the force table, in table order.
    pub fn forces(&self) -> (r: Vec<ForceEntry>)
        ensures
            entry_views(r@) == self.force_list(),
    {
        let mut r: Vec<ForceEntry> = Vec::new();
        for i in 0..self.forces.len()
            invariant
                entry_views(r@) == entry_views(self.forces@).take(i as int),
        {
            let ghost old_r = r@;
            let e = copy_entry(&self.forces[i]);
            r.push(e);
            assert(r@ == old_r.push(e));
            assert(entry_views(old_r).len() == old_r.len());
            assert forall|j: int| 0 <= j < i + 1 implies entry_views(r@)[j] == entry_views(
                self.forces@,
            ).take(i + 1)[j] by {
                if j < i {
                    assert(entry_views(old_r)[j] == entry_views(self.forces@).take(i as int)[j]);
                }
            }
            assert(entry_views(r@) =~= entry_views(self.forces@).take(i + 1));
        }
        assert(entry_views(self.forces@).take(self.forces@.len() as int) =~= entry_views(
            self.forces@,
        ));
        r
    }
}

/// Mode after one completed scan cycle.
pub open spec fn next_mode_after_scan(m: RuntimeMode) -> RuntimeMode {
    match m {
        RuntimeMode::Step { remaining } => if remaining <= 1 {
            RuntimeMode::Paused
        } else {
            RuntimeMode::Step { remaining: (remaining - 1) as u32 }
        },
        _ => m,
    }
}

/// The mode after `k` completed scan cycles.
pub open spec fn after_scans(m: RuntimeMode, k: nat) -> RuntimeMode
    decreases k,
{
    if k == 0 {
        m
    } else {
        after_scans(next_mode_after_scan(m), (k - 1) as nat)
    }
}

proof fn lemma_paused_stays(k: nat)
    ensures
        after_scans(RuntimeMode::Paused, k) == RuntimeMode::Paused,
    decreases k,
{
    if k > 0 {
        lemma_paused_stays((k - 1) as nat);
    }
}

/// "Run N scan cycles then auto-pause": after a step of `n` cycles the
/// program counts down one cycle per scan and is paused once `n` scans
/// have completed (a step of 0 pauses after the next scan); a running or
/// paused program is left as it is by scanning.
pub proof fn law_step_runs_n_cycles(n: u32, k: nat)
    ensures
        1 <= k < n ==> after_scans(RuntimeMode::Step { remaining: n }, k) == (RuntimeMode::Step {
            remaining: (n - k) as u32,
        }),
        k >= n && k >= 1 ==> after_scans(RuntimeMode::Step { remaining: n }, k) == RuntimeMode::Paused,
        after_scans(RuntimeMode::Running, k) == RuntimeMode::Running,
        after_scans(RuntimeMode::Paused, k) == RuntimeMode::Paused,
    decreases k,
{
    lemma_paused_stays(k);
    if k > 0 {
        law_step_runs_n_cycles(n, (k - 1) as nat);
        if n <= 1 {
            lemma_paused_stays((k - 1) as nat);
        } else {
            law_step_runs_n_cycles((n - 1) as u32, (k - 1) as nat);
        }
    }
}

proof fn lemma_position_some(es: Seq<(Seq<char>, i32)>, i: int, name: Seq<char>)
    requires
        distinct_names(es),
        0 <= i < es.len(),
        es[i].0 == name,
    ensures
        position_of(es, name) == Some(i),
{
    assert(exists|j: int| 0 <= j < es.len() && es[j].0 == name);
    let j = choose|j: int| 0 <= j < es.len() && es[j].0 == name;
    if j != i {
        if j < i {
            assert(es[j].0 != es[i].0);
        } else {
            assert(es[i].0 != es[j].0);
        }
    }
}

proof fn lemma_position_none(es: Seq<(Seq<char>, i32)>, name: Seq<char>)
    requires
        forall|j: int| 0 <= j < es.len() ==> es[j].0 != name,
    ensures
        position_of(es, name) is None,
{
}

/// Forcing keeps one entry per name, and reading the table back gives the
/// value just forced.
pub proof fn law_force_reads_back(es: Seq<(Seq<char>, i32)>, name: Seq<char>, value: i32)
    requires
        distinct_names(es),
    ensures
        distinct_names(forced(es, name, value)),
        position_of(forced(es, name, value), name) matches Some(i) && forced(es, name, value)[i]
            == (name, value),
{
    let f = forced(es, name, value);
    match position_of(es, name) {
        Some(i) => {
            let j = choose|j: int| 0 <= j < es.len() && es[j].0 == name;
            assert(j == i);
            assert forall|a: int, b: int| 0 <= a < b < f.len() implies f[a].0 != f[b].0 by {
                assert(es[a].0 != es[b].0);
            }
            lemma_position_some(f, i, name);
        },
        None => {
            assert(!exists|j: int| 0 <= j < es.len() && es[j].0 == name);
            assert forall|a: int, b: int| 0 <= a < b < f.len() implies f[a].0 != f[b].0 by {
                if b < es.len() {
                    assert(es[a].0 != es[b].0);
                } else {
                    assert(!(0 <= a < es.len() && es[a].0 == name));
                }
            }
            lemma_position_some(f, es.len() as int, name);
        },
    }
}

/// Releasing a variable that was not forced before forcing it restores
/// the table: unforce undoes force.
pub proof fn law_unforce_undoes_force(es: Seq<(Seq<char>, i32)>, name: Seq<char>, value: i32)
    requires
        distinct_names(es),
        position_of(es, name) is None,
    ensures
        unforced(forced(es, name, value), name) == es,
{
    law_force_reads_back(es, name, value);
    let f = forced(es, name, value);
    assert(f == es.push((name, value)));
    lemma_position_some(f, es.len() as int, name);
    assert(f.remove(es.len() as int) =~= es);
}

/// Unforcing is idempotent (a second unforce of the same name is a
/// no-op), and afterwards the name is not forced.
pub proof fn law_unforce_idempotent(es: Seq<(Seq<char>, i32)>, name: Seq<char>)
    requires
        distinct_names(es),
    ensures
        position_of(unforced(es, name), name) is None,
        unforced(unforced(es, name), name) == unforced(es, name),
        distinct_names(unforced(es, name)),
{
    let u = unforced(es, name);
    match position_of(es, name) {
        Some(i) => {
            let j = choose|j: int| 0 <= j < es.len() && es[j].0 == name;
            assert(j == i);
            assert forall|k: int| 0 <= k < u.len() implies u[k].0 != name by {
                if k < i {
                    assert(es[k].0 != es[i].0);
                } else {
                    assert(es[i].0 != es[k + 1].0);
                }
            }
            assert forall|a: int, b: int| 0 <= a < b < u.len() implies u[a].0 != u[b].0 by {
                if b < i {
                    assert(es[a].0 != es[b].0);
                } else if a < i {
                    assert(es[a].0 != es[b + 1].0);
                } else {
                    assert(es[a + 1].0 != es[b + 1].0);
                }
            }
        },
        None => {
            assert(!exists|j: int| 0 <= j < es.len() && es[j].0 == name);
            assert forall|k: int| 0 <= k < u.len() implies u[k].0 != name by {
                assert(!(0 <= k < es.len() && es[k].0 == name));
            }
        },
    }
    lemma_position_none(u, name);
}

/// Sorts entries with distinct names by name.
fn sort_by_name(entries: Vec<ForceEntry>) -> (r: Vec<ForceEntry>)
    requires
        distinct_names(entry_views(entries@)),
    ensures
        sorted_by_name(entry_views(r@)),
        r@.len() == entries@.len(),
        forall|e: (Seq<char>, i32)| entry_views(r@).contains(e) <==> entry_views(entries@).contains(e),
{
    let ghost input = entry_views(entries@);
    let mut out: Vec<ForceEntry> = Vec::new();
    let mut i: usize = 0;
    while i < entries.len()
        invariant
            i <= entries@.len(),
            input == entry_views(entries@),
            distinct_names(input),
            sorted_by_name(entry_views(out@)),
            out@.len() == i,
            forall|e: (Seq<char>, i32)| entry_views(out@).contains(e) <==> input.take(i as int).contains(e),
        decreases entries@.len() - i,
    {
        let ghost outv = entry_views(out@);
        let x = copy_entry(&entries[i]);
        assert(x@ == input[i as int]);
        let xn = chars_of(x.name.as_str());
        let mut p: usize = 0;
        while p < out.len()
            invariant
                p <= out@.len(),
                outv == entry_views(out@),
                i < input.len(),
                x@ == input[i as int],
                xn@ == x.name@,
                forall|q: int| 0 <= q < p ==> !lex_lt(x.name@, outv[q].0),
            ensures
                p <= out@.len(),
                forall|q: int| 0 <= q < p ==> !lex_lt(x.name@, outv[q].0),
                p < out@.len() ==> lex_lt(x.name@, outv[p as int].0),
            decreases out@.len() - p,
        {
            let on = chars_of(out[p].name.as_str());
            if lex_less(&xn, &on) {
                break;
            }
            p = p + 1;
        }
        proof {
            // every earlier name differs from x's: distinct input names
            assert forall|q: int| 0 <= q < outv.len() implies outv[q].0 != x.name@ by {
                assert(outv.contains(outv[q]));
                assert(input.take(i as int).contains(outv[q]));
                let k = choose|k: int| 0 <= k < i && #[trigger] input.take(i as int)[k] == outv[q];
                assert(input[k] == outv[q]);
            }
            assert forall|q: int| 0 <= q < p implies lex_lt(outv[q].0, x.name@) by {
                lemma_lex_total(outv[q].0, x.name@);
            }
            if p < outv.len() {
                assert(lex_lt(x.name@, outv[p as int].0));
                assert forall|q: int| p <= q < outv.len() implies lex_lt(x.name@, outv[q].0) by {
                    if q > p {
                        lemma_lex_transitive(x.name@, outv[p as int].0, outv[q].0);
                    }
                }
            }
        }
        out.insert(p, x);
        proof {
            let nv = entry_views(out@);
            assert(nv =~= outv.insert(p as int, input[i as int]));
            assert forall|a: int, b: int| 0 <= a < b < nv.len() implies lex_lt(nv[a].0, nv[b].0) by {
                if b < p {
                } else if a < p && b == p {
                } else if a < p && b > p {
                    lemma_lex_transitive(outv[a].0, x.name@, outv[b - 1].0);
                } else if a == p {
                } else {
                }
            }
            assert(input.take(i + 1) =~= input.take(i as int).push(input[i as int]));
            assert forall|e: (Seq<char>, i32)| nv.contains(e) <==> input.take(i + 1).contains(e) by {
                if nv.contains(e) {
                    let k = choose|k: int| 0 <= k < nv.len() && nv[k] == e;
                    if k < p {
                        assert(outv.contains(outv[k]));
                    } else if k > p {
                        assert(outv.contains(outv[k - 1]));
                    }
                    if k != p {
                        assert(input.take(i as int).contains(e));
                        let m = choose|m: int| 0 <= m < i && #[trigger] input.take(i as int)[m] == e;
                        assert(input.take(i + 1)[m] == e);
                    } else {
                        assert(input.take(i + 1)[i as int] == e);
                    }
                }
                if input.take(i + 1).contains(e) {
                    let m = choose|m: int| 0 <= m < i + 1 && #[trigger] input.take(i + 1)[m] == e;
                    if m < i {
                        assert(input.take(i as int)[m] == e);
                        assert(input.take(i as int).contains(e));
                        assert(outv.contains(e));
                        let k = choose|k: int| 0 <= k < outv.len() && outv[k] == e;
                        if k < p {
                            assert(nv[k] == e);
                        } else {
                            assert(nv[k + 1] == e);
                        }
                    } else {
                        assert(nv[p as int] == e);
                    }
                }
            }
        }
        i = i + 1;
    }
    assert(input.take(entries@.len() as int) =~= input);
    out
}

/// Snapshot of the currently-forced variables, sorted by name.
pub fn force_entries(handle: &ProgramHandle) -> (r: Vec<ForceEntry>)
    ensures
        sorted_by_name(entry_views(r@)),
        r@.len() == handle.force_list().len(),
        forall|e: (Seq<char>, i32)| entry_views(r@).contains(e) <==> handle.force_list().contains(e),
{
    proof {
        use_type_invariant(handle);
    }
    let entries = handle.forces();
    sort_by_name(entries)
}

/// Pause / resume / step share one shape: mutate, then report the mode.
pub fn pause(handle: &mut ProgramHandle) -> (r: ModeResponse)
    ensures
        final(handle).variables() == old(handle).variables(),
        r.mode == RuntimeMode::Paused,
        final(handle).spec_mode() == RuntimeMode::Paused,
        final(handle).force_list() == old(handle).force_list(),
{
    handle.pause();
    ModeResponse { mode: handle.mode() }
}

/// Resume continuous scanning and report the mode.
pub fn resume(handle: &mut ProgramHandle) -> (r: ModeResponse)
    ensures
        final(handle).variables() == old(handle).variables(),
        r.mode == RuntimeMode::Running,
        final(handle).spec_mode() == RuntimeMode::Running,
        final(handle).force_list() == old(handle).force_list(),
{
    handle.resume();
    ModeResponse { mode: handle.mode() }
}

/// Run `cycles` scan cycles then auto-pause; report the mode.
pub fn step(handle: &mut ProgramHandle, cycles: u32) -> (r: ModeResponse)
    ensures
        final(handle).variables() == old(handle).variables(),
        r.mode == (RuntimeMode::Step { remaining: cycles }),
        final(handle).spec_mode() == (RuntimeMode::Step { remaining: cycles }),
        final(handle).force_list() == old(handle).force_list(),
{
    handle.step(cycles);
    ModeResponse { mode: handle.mode() }
}

// ------------------------------------------------------------ wall clock
/// The machine's wall clock, `std::time::SystemTime`.
#[verifier::external_type_specification]
#[verifier::external_body]
pub struct ExSystemTime(std::time::SystemTime);

/// `SystemTime::now()`: a reading of the machine's clock. Nothing is
/// claimed of it.
#[verifier::external_body]
fn system_now() -> std::time::SystemTime {
    std::time::SystemTime::now()
}

/// `SystemTime::duration_since(UNIX_EPOCH)`, `None` when the reading lies
/// before the epoch. Left unsaid: which duration comes back — it is a
/// function of the reading `t`, but both types are opaque to the proofs.
#[verifier::external_body]
fn since_epoch(t: &std::time::SystemTime) -> Option<std::time::Duration> {
    t.duration_since(std::time::UNIX_EPOCH).ok()
}

/// `Duration::as_micros`: the whole microseconds of a duration. Left
/// unsaid: the number itself — a duration is opaque to the proofs.
#[verifier::external_body]
fn duration_micros(d: &std::time::Duration) -> u128 {
    d.as_micros()
}

/// A clock reading in microseconds as the 64-bit time base: truncated to
/// its low 64 bits; 0 when the clock read before the epoch.
pub fn micros_to_u64(m: Option<u128>) -> (r: u64)
    ensures
        r == (match m {
            Some(v) => v % 0x1_0000_0000_0000_0000,
            None => 0,
        }),
{
    match m {
        Some(v) => (v % 0x1_0000_0000_0000_0000u128) as u64,
        None => 0,
    }
}

/// Wall-clock microseconds since the UNIX epoch — the human-facing time
/// base for alarm journals and ack stamps.
pub fn wall_now_us() -> (r: u64) {
    let now = system_now();
    let micros = match since_epoch(&now) {
        Some(d) => Some(duration_micros(&d)),
        None => None,
    };
    micros_to_u64(micros)
}

// ------------------------------------------------------------ typed values
/// A variable's value decoded by its IEC type: what the northbound
/// publisher and alarm evaluation consume. Floats travel as their IEEE-754
/// bit patterns and are always finite; `Text` is the display fallback.
#[derive(Debug, PartialEq)]
pub enum TypedValue {
    Bool(bool),
    Int(i64),
    UInt(u64),
    /// A finite REAL, by its 32-bit pattern.
    Float32(u32),
    /// A finite LREAL, by its 64-bit pattern.
    Float64(u64),
    Text(String),
}

/// A [`TypedValue`] with its text as a character sequence.
pub enum TypedValueView {
    Bool(bool),
    Int(int),
    UInt(nat),
    Float32(u32),
    Float64(u64),
    Text(Seq<char>),
}

impl View for TypedValue {
    type V = TypedValueView;

    open spec fn view(&self) -> TypedValueView {
        match self {
            TypedValue::Bool(b) => TypedValueView::Bool(*b),
            TypedValue::Int(i) => TypedValueView::Int(*i as int),
            TypedValue::UInt(u) => TypedValueView::UInt(*u as nat),
            TypedValue::Float32(b) => TypedValueView::Float32(*b),
            TypedValue::Float64(b) => TypedValueView::Float64(*b),
            TypedValue::Text(t) => TypedValueView::Text(t@),
        }
    }
}

/// ASCII upper-casing of one character.
pub open spec fn ascii_upper(c: char) -> char {
    if 'a' <= c <= 'z' {
        ((c as u32) - 32) as char
    } else {
        c
    }
}

/// ASCII upper-casing of a text (`to_ascii_uppercase`).
pub open spec fn ascii_upper_text(s: Seq<char>) -> Seq<char> {
    Seq::new(s.len(), |i: int| ascii_upper(s[i]))
}

/// The exponent field of an f32 pattern is not all ones: the value is
/// finite (neither infinite nor NaN).
pub open spec fn f32_bits_finite(b: u32) -> bool {
    (b / 0x80_0000) % 0x100 != 0xff
}

/// The exponent field of an f64 pattern is not all ones: the value is finite.
pub open spec fn f64_bits_finite(b: u64) -> bool {
    (b / 0x10_0000_0000_0000) % 0x800 != 0x7ff
}

/// The low 32 bits of a slot read as a two's-complement `i32`.
pub open spec fn low32_signed(bits: u64) -> int {
    let lo = bits % 0x1_0000_0000;
    if lo >= 0x8000_0000 {
        lo - 0x1_0000_0000
    } else {
        lo as int
    }
}

/// All 64 bits of a slot read as a two's-complement `i64`.
pub open spec fn slot_signed(bits: u64) -> int {
    if bits >= 0x8000_0000_0000_0000 {
        bits - 0x1_0000_0000_0000_0000
    } else {
        bits as int
    }
}

pub open spec fn is_one_of(u: Seq<char>, a: Seq<char>, b: Seq<char>, c: Seq<char>) -> bool {
    u == a || u == b || u == c
}

/// The decoding of a raw slot given its IEC type name (case-insensitive).
pub open spec fn spec_typed_value(iec_type: Seq<char>, bits: u64, display: Seq<char>) -> TypedValueView {
    let u = ascii_upper_text(iec_type);
    if u == "BOOL"@ {
        TypedValueView::Bool(bits != 0)
    } else if u == "REAL"@ {
        let lo = (bits % 0x1_0000_0000) as u32;
        if f32_bits_finite(lo) {
            TypedValueView::Float32(lo)
        } else {
            TypedValueView::Text(display)
        }
    } else if u == "LREAL"@ {
        if f64_bits_finite(bits) {
            TypedValueView::Float64(bits)
        } else {
            TypedValueView::Text(display)
        }
    } else if is_one_of(u, "SINT"@, "INT"@, "DINT"@) {
        TypedValueView::Int(low32_signed(bits))
    } else if u == "LINT"@ {
        TypedValueView::Int(slot_signed(bits))
    } else if u == "USINT"@ || u == "BYTE"@ {
        TypedValueView::UInt((bits % 0x100) as nat)
    } else if u == "UINT"@ || u == "WORD"@ {
        TypedValueView::UInt((bits % 0x1_0000) as nat)
    } else if u == "UDINT"@ || u == "DWORD"@ {
        TypedValueView::UInt((bits % 0x1_0000_0000) as nat)
    } else if u == "ULINT"@ || u == "LWORD"@ {
        TypedValueView::UInt(bits as nat)
    } else if u == "TIME"@ {
        TypedValueView::Int(low32_signed(bits))
    } else {
        TypedValueView::Text(display)
    }
}

proof fn lemma_ascii_upper_idempotent(s: Seq<char>)
    ensures
        ascii_upper_text(ascii_upper_text(s)) == ascii_upper_text(s),
{
    assert forall|i: int| 0 <= i < s.len() implies #[trigger] ascii_upper(ascii_upper(s[i]))
        == ascii_upper(s[i]) by {
        let c = s[i];
        if 'a' <= c <= 'z' {
            let u = ((c as u32) - 32) as char;
            assert((u as u32) == (c as u32) - 32);
        }
    }
    assert(ascii_upper_text(ascii_upper_text(s)) =~= ascii_upper_text(s));
}

/// The IEC type name is matched without regard to ASCII letter case:
/// `real`, `Real` and `REAL` decode a slot alike.
pub proof fn law_type_name_case_insensitive(iec_type: Seq<char>, bits: u64, display: Seq<char>)
    ensures
        spec_typed_value(iec_type, bits, display) == spec_typed_value(
            ascii_upper_text(iec_type),
            bits,
            display,
        ),
{
    lemma_ascii_upper_idempotent(iec_type);
}

/// Each integer IEC type decodes the slot at its own width, whatever the
/// letter case of its name: the unsigned and bit-string types keep the low
/// 8 (`USINT`, `BYTE`), 16 (`UINT`, `WORD`), 32 (`UDINT`, `DWORD`) or all
/// 64 bits (`ULINT`, `LWORD`); `SINT`, `INT`, `DINT` and `TIME` read the
/// low 32 bits as a signed number and `LINT` all 64; `BOOL` is true
/// exactly when the slot is not zero.
pub proof fn law_integer_widths(iec_type: Seq<char>, bits: u64, display: Seq<char>)
    ensures
        ({
            let u = ascii_upper_text(iec_type);
            u == "USINT"@ || u == "BYTE"@
        }) ==> spec_typed_value(iec_type, bits, display) == TypedValueView::UInt((bits % 0x100) as nat),
        ({
            let u = ascii_upper_text(iec_type);
            u == "UINT"@ || u == "WORD"@
        }) ==> spec_typed_value(iec_type, bits, display) == TypedValueView::UInt((bits % 0x1_0000) as nat),
        ({
            let u = ascii_upper_text(iec_type);
            u == "UDINT"@ || u == "DWORD"@
        }) ==> spec_typed_value(iec_type, bits, display) == TypedValueView::UInt(
            (bits % 0x1_0000_0000) as nat,
        ),
        ({
            let u = ascii_upper_text(iec_type);
            u == "ULINT"@ || u == "LWORD"@
        }) ==> spec_typed_value(iec_type, bits, display) == TypedValueView::UInt(bits as nat),
        ({
            let u = ascii_upper_text(iec_type);
            u == "SINT"@ || u == "INT"@ || u == "DINT"@ || u == "TIME"@
        }) ==> spec_typed_value(iec_type, bits, display) == TypedValueView::Int(
            if bits % 0x1_0000_0000 >= 0x8000_0000 {
                bits % 0x1_0000_0000 - 0x1_0000_0000
            } else {
                (bits % 0x1_0000_0000) as int
            },
        ),
        ascii_upper_text(iec_type) == "LINT"@ ==> spec_typed_value(iec_type, bits, display)
            == TypedValueView::Int(
            if bits >= 0x8000_0000_0000_0000 {
                bits - 0x1_0000_0000_0000_0000
            } else {
                bits as int
            },
        ),
        ascii_upper_text(iec_type) == "BOOL"@ ==> spec_typed_value(iec_type, bits, display)
            == TypedValueView::Bool(bits != 0),
{
    reveal_strlit("BOOL");
    reveal_strlit("REAL");
    reveal_strlit("LREAL");
    reveal_strlit("SINT");
    reveal_strlit("INT");
    reveal_strlit("DINT");
    reveal_strlit("LINT");
    reveal_strlit("USINT");
    reveal_strlit("BYTE");
    reveal_strlit("UINT");
    reveal_strlit("WORD");
    reveal_strlit("UDINT");
    reveal_strlit("DWORD");
    reveal_strlit("ULINT");
    reveal_strlit("LWORD");
    reveal_strlit("TIME");
    assert("BOOL"@.len() == 4 && "BOOL"@[0] == 'B' && "BOOL"@[1] == 'O');
    assert("REAL"@.len() == 4 && "REAL"@[0] == 'R' && "REAL"@[1] == 'E');
    assert("LREAL"@.len() == 5 && "LREAL"@[0] == 'L' && "LREAL"@[1] == 'R');
    assert("SINT"@.len() == 4 && "SINT"@[0] == 'S' && "SINT"@[1] == 'I');
    assert("INT"@.len() == 3 && "INT"@[0] == 'I' && "INT"@[1] == 'N');
    assert("DINT"@.len() == 4 && "DINT"@[0] == 'D' && "DINT"@[1] == 'I');
    assert("LINT"@.len() == 4 && "LINT"@[0] == 'L' && "LINT"@[1] == 'I');
    assert("USINT"@.len() == 5 && "USINT"@[0] == 'U' && "USINT"@[1] == 'S');
    assert("BYTE"@.len() == 4 && "BYTE"@[0] == 'B' && "BYTE"@[1] == 'Y');
    assert("UINT"@.len() == 4 && "UINT"@[0] == 'U' && "UINT"@[1] == 'I');
    assert("WORD"@.len() == 4 && "WORD"@[0] == 'W' && "WORD"@[1] == 'O');
    assert("UDINT"@.len() == 5 && "UDINT"@[0] == 'U' && "UDINT"@[1] == 'D');
    assert("DWORD"@.len() == 5 && "DWORD"@[0] == 'D' && "DWORD"@[1] == 'W');
    assert("ULINT"@.len() == 5 && "ULINT"@[0] == 'U' && "ULINT"@[1] == 'L');
    assert("LWORD"@.len() == 5 && "LWORD"@[0] == 'L' && "LWORD"@[1] == 'W');
    assert("TIME"@.len() == 4 && "TIME"@[0] == 'T' && "TIME"@[1] == 'I');
}

/// Floats and the rest: a `REAL` is the low 32 bits of the slot as an f32
/// pattern and an `LREAL` the whole slot as an f64 pattern, each shown as
/// the runtime's display text instead when it is infinite or NaN; a type
/// name outside the IEC types decoded here is shown as the display text.
pub proof fn law_float_and_other_types(iec_type: Seq<char>, bits: u64, display: Seq<char>)
    ensures
        ascii_upper_text(iec_type) == "REAL"@ ==> spec_typed_value(iec_type, bits, display) == (if f32_bits_finite(
            (bits % 0x1_0000_0000) as u32,
        ) {
            TypedValueView::Float32((bits % 0x1_0000_0000) as u32)
        } else {
            TypedValueView::Text(display)
        }),
        ascii_upper_text(iec_type) == "LREAL"@ ==> spec_typed_value(iec_type, bits, display) == (if f64_bits_finite(
            bits,
        ) {
            TypedValueView::Float64(bits)
        } else {
            TypedValueView::Text(display)
        }),
        ({
            let u = ascii_upper_text(iec_type);
            u != "BOOL"@ && u != "REAL"@ && u != "LREAL"@ && u != "SINT"@
                && u != "INT"@ && u != "DINT"@ && u != "LINT"@ && u != "USINT"@
                && u != "BYTE"@ && u != "UINT"@ && u != "WORD"@ && u != "UDINT"@
                && u != "DWORD"@ && u != "ULINT"@ && u != "LWORD"@ && u != "TIME"@
        }) ==> spec_typed_value(iec_type, bits, display) == TypedValueView::Text(display),
{
    reveal_strlit("BOOL");
    assert("BOOL"@.len() == 4 && "BOOL"@[0] == 'B' && "BOOL"@[1] == 'O');
    reveal_strlit("REAL");
    assert("REAL"@.len() == 4 && "REAL"@[0] == 'R' && "REAL"@[1] == 'E');
    reveal_strlit("LREAL");
    assert("LREAL"@.len() == 5 && "LREAL"@[0] == 'L' && "LREAL"@[1] == 'R');
    reveal_strlit("SINT");
    assert("SINT"@.len() == 4 && "SINT"@[0] == 'S' && "SINT"@[1] == 'I');
    reveal_strlit("INT");
    assert("INT"@.len() == 3 && "INT"@[0] == 'I' && "INT"@[1] == 'N');
    reveal_strlit("DINT");
    assert("DINT"@.len() == 4 && "DINT"@[0] == 'D' && "DINT"@[1] == 'I');
    reveal_strlit("LINT");
    assert("LINT"@.len() == 4 && "LINT"@[0] == 'L' && "LINT"@[1] == 'I');
    reveal_strlit("USINT");
    assert("USINT"@.len() == 5 && "USINT"@[0] == 'U' && "USINT"@[1] == 'S');
    reveal_strlit("BYTE");
    assert("BYTE"@.len() == 4 && "BYTE"@[0] == 'B' && "BYTE"@[1] == 'Y');
    reveal_strlit("UINT");
    assert("UINT"@.len() == 4 && "UINT"@[0] == 'U' && "UINT"@[1] == 'I');
    reveal_strlit("WORD");
    assert("WORD"@.len() == 4 && "WORD"@[0] == 'W' && "WORD"@[1] == 'O');
    reveal_strlit("UDINT");
    assert("UDINT"@.len() == 5 && "UDINT"@[0] == 'U' && "UDINT"@[1] == 'D');
    reveal_strlit("DWORD");
    assert("DWORD"@.len() == 5 && "DWORD"@[0] == 'D' && "DWORD"@[1] == 'W');
    reveal_strlit("ULINT");
    assert("ULINT"@.len() == 5 && "ULINT"@[0] == 'U' && "ULINT"@[1] == 'L');
    reveal_strlit("LWORD");
    assert("LWORD"@.len() == 5 && "LWORD"@[0] == 'L' && "LWORD"@[1] == 'W');
    reveal_strlit("TIME");
    assert("TIME"@.len() == 4 && "TIME"@[0] == 'T' && "TIME"@[1] == 'I');
}

fn upper_chars(s: &str) -> (r: Vec<char>)
    ensures
        r@ == ascii_upper_text(s@),
{
    let cs = chars_of(s);
    let mut r: Vec<char> = Vec::new();
    for i in 0..cs.len()
        invariant
            cs@ == s@,
            r@ == ascii_upper_text(s@).take(i as int),
    {
        let c = cs[i];
        let u = if 'a' <= c && c <= 'z' {
            ((c as u8) - 32) as char
        } else {
            c
        };
        r.push(u);
        assert(r@ =~= ascii_upper_text(s@).take(i + 1));
    }
    assert(ascii_upper_text(s@).take(cs@.len() as int) =~= ascii_upper_text(s@));
    r
}

fn low32_as_i64(bits: u64) -> (r: i64)
    ensures
        r as int == low32_signed(bits),
{
    let lo = bits % 0x1_0000_0000;
    if lo >= 0x8000_0000 {
        (lo as i64) - 0x1_0000_0000
    } else {
        lo as i64
    }
}

/// Decode a variable's raw 64-bit slot into a typed value, given its IEC
/// type name. `display` (the IDE-facing formatted string) is the fallback
/// for types without a numeric wire form and for non-finite floats.
pub fn typed_value(iec_type: &str, bits: u64, display: &str) -> (r: TypedValue)
    ensures
        r@ == spec_typed_value(iec_type@, bits, display@),
{
    let u = upper_chars(iec_type);
    if eq_str(&u, "BOOL") {
        TypedValue::Bool(bits != 0)
    } else if eq_str(&u, "REAL") {
        let lo = (bits % 0x1_0000_0000) as u32;
        if (lo / 0x80_0000) % 0x100 != 0xff {
            TypedValue::Float32(lo)
        } else {
            TypedValue::Text(String::from_str(display))
        }
    } else if eq_str(&u, "LREAL") {
        if (bits / 0x10_0000_0000_0000) % 0x800 != 0x7ff {
            TypedValue::Float64(bits)
        } else {
            TypedValue::Text(String::from_str(display))
        }
    } else if eq_str(&u, "SINT") || eq_str(&u, "INT") || eq_str(&u, "DINT") {
        TypedValue::Int(low32_as_i64(bits))
    } else if eq_str(&u, "LINT") {
        if bits >= 0x8000_0000_0000_0000 {
            TypedValue::Int(-((0xffff_ffff_ffff_ffffu64 - bits) as i64) - 1)
        } else {
            TypedValue::Int(bits as i64)
        }
    } else if eq_str(&u, "USINT") || eq_str(&u, "BYTE") {
        TypedValue::UInt(bits % 0x100)
    } else if eq_str(&u, "UINT") || eq_str(&u, "WORD") {
        TypedValue::UInt(bits % 0x1_0000)
    } else if eq_str(&u, "UDINT") || eq_str(&u, "DWORD") {
        TypedValue::UInt(bits % 0x1_0000_0000)
    } else if eq_str(&u, "ULINT") || eq_str(&u, "LWORD") {
        TypedValue::UInt(bits)
    } else if eq_str(&u, "TIME") {
        TypedValue::Int(low32_as_i64(bits))
    } else {
        TypedValue::Text(String::from_str(display))
    }
}

// ------------------------------------------------------------ pulses
/// The runtime's own reset of a momentary write: after `after_ms` it
/// writes `value` (always 0) back, bypassing write governance.
pub struct PulseReset {
    pub after_ms: u64,
    pub value: i32,
}

/// A write with `pulse_ms` schedules a reset to 0 after that delay; a
/// plain write schedules nothing. Overlapping pulses on one variable are
/// latest-write-wins.
pub fn pulse_reset(pulse_ms: Option<u32>) -> (r: Option<PulseReset>)
    ensures
        pulse_ms is None ==> r is None,
        pulse_ms matches Some(ms) ==> (r matches Some(p) && p.after_ms == ms && p.value == 0),
{
    match pulse_ms {
        Some(ms) => Some(PulseReset { after_ms: ms as u64, value: 0 }),
        None => None,
    }
}

/// What follows a one-shot variable write (`written`: the runtime's answer
/// to the governed write). A failed write is reported as is and schedules
/// nothing; a successful one reports the value written and, with
/// `pulse_ms`, schedules the runtime's reset to 0 after that delay — so a
/// closed operator tab cannot leave a momentary command latched.
pub fn write_with_pulse<E>(written: Result<i32, E>, pulse_ms: Option<u32>) -> (r: Result<
    (i32, Option<PulseReset>),
    E,
>)
    ensures
        written matches Err(e) ==> (r matches Err(x) && x == e),
        written matches Ok(v) ==> (r matches Ok(p) && p.0 == v && (pulse_ms is None ==> p.1 is None)
            && (pulse_ms matches Some(ms) ==> (p.1 matches Some(q) && q.after_ms == ms && q.value
            == 0))),
{
    match written {
        Ok(v) => Ok((v, pulse_reset(pulse_ms))),
        Err(e) => Err(e),
    }
}

} // verus!
