//! Embedded zero-config historian.
//!
//! Samples the live snapshot stream at a fixed cadence (default 1 Hz)
//! into per-variable rings (default 7200 samples ≈ 2 h). A query serves
//! min/max/last buckets so a trend over any window is one request.
//!
//! Sample values are held as ORDER KEYS: the IEEE-754 bit pattern of the
//! finite `f64` sample, mapped so that unsigned integer order on keys is
//! the numeric order on the floats ([`order_key`] / [`key_bits`]). The
//! historian compares keys only; turning floats into bit patterns and
//! back happens at the edge.
use vstd::prelude::*;
use crate::text::{
    chars_of, decimal_chars, decimal_text, eq_chars, extend_chars, extend_str, fixed_decimal,
    has_prefix, has_suffix, lemma_fixed_decimal_len, lemma_fixed_decimal_order,
    lemma_lex_common_prefix, lemma_lex_equal_length_extend, lemma_lex_irreflexive, lemma_lex_total,
    lemma_lex_transitive, lemma_padded_decimal_is_fixed, lex_less, lex_lt, pad_left, pad_left_chars,
    pow10, starts_with_chars, ends_with_chars, string_of,
};

verus! {

/// Default sampling cadence — one sample per second per variable.
pub const DEFAULT_SAMPLE_INTERVAL_US: u64 = 1_000_000;

/// Default per-variable ring capacity (2 h at 1 Hz).
pub const DEFAULT_CAPACITY: usize = 7200;

/// The fastest cadence a historian accepts.
pub const MIN_SAMPLE_INTERVAL_US: u64 = 100_000;

// ------------------------------------------------------------ order keys
/// Sign bit of a 64-bit float pattern.
pub open spec fn sign_set(bits: u64) -> bool {
    bits >= 0x8000_0000_0000_0000
}

/// The order key of a float pattern: negative patterns are complemented,
/// non-negative ones get the top bit set.
pub open spec fn spec_order_key(bits: u64) -> u64 {
    if sign_set(bits) {
        (0xffff_ffff_ffff_ffff - bits) as u64
    } else {
        (bits + 0x8000_0000_0000_0000) as u64
    }
}

/// The float pattern an order key stands for.
pub open spec fn spec_key_bits(key: u64) -> u64 {
    if key >= 0x8000_0000_0000_0000 {
        (key - 0x8000_0000_0000_0000) as u64
    } else {
        (0xffff_ffff_ffff_ffff - key) as u64
    }
}

/// The value a (non-NaN) float pattern encodes, as a signed magnitude:
/// `-m` for a negative pattern with magnitude bits `m`, `m` otherwise.
/// Float order on non-NaN values agrees with this number's order, with
/// `-0.0` and `+0.0` both at 0.
pub open spec fn signed_magnitude(bits: u64) -> int {
    if sign_set(bits) {
        -((bits - 0x8000_0000_0000_0000) as int)
    } else {
        bits as int
    }
}

/// Order key of a float pattern.
pub fn order_key(bits: u64) -> (r: u64)
    ensures
        r == spec_order_key(bits),
{
    if bits >= 0x8000_0000_0000_0000 {
        0xffff_ffff_ffff_ffff - bits
    } else {
        bits + 0x8000_0000_0000_0000
    }
}

/// Float pattern of an order key.
pub fn key_bits(key: u64) -> (r: u64)
    ensures
        r == spec_key_bits(key),
{
    if key >= 0x8000_0000_0000_0000 {
        key - 0x8000_0000_0000_0000
    } else {
        0xffff_ffff_ffff_ffff - key
    }
}

/// Keys and patterns convert into each other without loss, and the key
/// order is the numeric order of the encoded values: a smaller signed
/// magnitude gets a smaller key, and a smaller key never stands for a
/// larger value (the only tie is `-0.0` below `+0.0`).
pub proof fn law_order_keys(a: u64, b: u64)
    ensures
        spec_key_bits(spec_order_key(a)) == a,
        spec_order_key(spec_key_bits(a)) == a,
        signed_magnitude(a) < signed_magnitude(b) ==> spec_order_key(a) < spec_order_key(b),
        spec_order_key(a) < spec_order_key(b) ==> signed_magnitude(a) <= signed_magnitude(b),
{
}

// ------------------------------------------------------------ wire shapes
/// One downsampled bucket of a variable's history (values as order keys).
pub struct HistoryPoint {
    /// Bucket start, microseconds.
    pub t_us: u64,
    pub min: u64,
    pub max: u64,
    /// Last sample in the bucket — what a stepped trend line draws.
    pub v: u64,
}

/// The points of one variable.
pub struct HistorySeries {
    pub name: String,
    pub points: Vec<HistoryPoint>,
}

/// Full query response — series plus the window the data actually
/// covers, so clients can render "history starts here".
pub struct HistoryResponse {
    pub series: Vec<HistorySeries>,
    /// Oldest sample time held for any requested variable (0 = none).
    pub oldest_us: u64,
    pub sample_interval_us: u64,
}

/// A bucket as a tuple `(t_us, min, max, v)`.
pub open spec fn point_view(p: HistoryPoint) -> (u64, u64, u64, u64) {
    (p.t_us, p.min, p.max, p.v)
}

pub open spec fn points_view(ps: Seq<HistoryPoint>) -> Seq<(u64, u64, u64, u64)> {
    Seq::new(ps.len(), |i: int| point_view(ps[i]))
}

// ------------------------------------------------------------ ring model
/// The last `cap` samples of `s`.
pub open spec fn keep_last(s: Seq<(u64, u64)>, cap: nat) -> Seq<(u64, u64)> {
    if s.len() > cap {
        s.skip(s.len() - cap)
    } else {
        s
    }
}

/// The ring of `name`, empty when the variable was never recorded.
pub open spec fn ring_of(m: Map<Seq<char>, Seq<(u64, u64)>>, name: Seq<char>) -> Seq<(u64, u64)> {
    if m.dom().contains(name) {
        m[name]
    } else {
        Seq::empty()
    }
}

/// One sample appended to `name`'s ring, which then keeps its last `cap`.
pub open spec fn record(
    m: Map<Seq<char>, Seq<(u64, u64)>>,
    name: Seq<char>,
    sample: (u64, u64),
    cap: nat,
) -> Map<Seq<char>, Seq<(u64, u64)>> {
    m.insert(name, keep_last(ring_of(m, name).push(sample), cap))
}

/// Every value of one snapshot recorded at `t`, in snapshot order.
pub open spec fn record_all(
    m: Map<Seq<char>, Seq<(u64, u64)>>,
    t: u64,
    vals: Seq<(Seq<char>, u64)>,
    cap: nat,
) -> Map<Seq<char>, Seq<(u64, u64)>>
    decreases vals.len(),
{
    if vals.len() == 0 {
        m
    } else {
        record(record_all(m, t, vals.drop_last(), cap), vals.last().0, (t, vals.last().1), cap)
    }
}

/// A snapshot at `t` is dropped when it comes within the sample interval
/// of the last recorded one.
pub open spec fn throttled(t: u64, last: u64, interval: u64) -> bool {
    t < last + interval
}

struct Ring {
    name: String,
    samples: Vec<(u64, u64)>,
}

/// Per-variable rings with a sampling throttle.
pub struct Historian {
    rings: Vec<Ring>,
    last_sample_us: u64,
    capacity: usize,
    sample_interval_us: u64,
}

/// The recorded names list exactly the variables that have a ring, in
/// sorted order (so each name once).
pub open spec fn names_index_rings(h: Historian) -> bool {
    &&& names_sorted(h.names())
    &&& h.names().no_duplicates()
    &&& forall|k: Seq<char>| #[trigger] h.rings().dom().contains(k) <==> h.names().contains(k)
}

pub open spec fn names_sorted(names: Seq<Seq<char>>) -> bool {
    forall|i: int, j: int| 0 <= i < j < names.len() ==> lex_lt(names[i], names[j])
}

spec fn ring_names(rs: Seq<Ring>) -> Seq<Seq<char>> {
    Seq::new(rs.len(), |i: int| rs[i].name@)
}

spec fn rings_bounded(rs: Seq<Ring>, cap: nat) -> bool {
    forall|i: int| 0 <= i < rs.len() ==> #[trigger] rs[i].samples@.len() <= cap
}

spec fn ring_index(rs: Seq<Ring>, k: Seq<char>) -> int {
    choose|i: int| 0 <= i < rs.len() && rs[i].name@ == k
}

spec fn ring_map(rs: Seq<Ring>) -> Map<Seq<char>, Seq<(u64, u64)>> {
    Map::new(|k: Seq<char>| ring_names(rs).contains(k), |k: Seq<char>| rs[ring_index(rs, k)].samples@)
}

proof fn lemma_ring_map_at(rs: Seq<Ring>, j: int)
    requires
        names_sorted(ring_names(rs)),
        0 <= j < rs.len(),
    ensures
        ring_map(rs).dom().contains(rs[j].name@),
        ring_map(rs)[rs[j].name@] == rs[j].samples@,
{
    let k = rs[j].name@;
    assert(ring_names(rs)[j] == k);
    assert(0 <= j < rs.len() && rs[j].name@ == k);
    assert(ring_names(rs).contains(k));
    let i = ring_index(rs, k);
    assert(0 <= i < rs.len() && rs[i].name@ == k);
    if i != j {
        if i < j {
            assert(lex_lt(ring_names(rs)[i], ring_names(rs)[j]));
        } else {
            assert(lex_lt(ring_names(rs)[j], ring_names(rs)[i]));
        }
        lemma_lex_irreflexive(k);
    }
    assert(ring_map(rs)[k] == rs[i].samples@);
}

proof fn lemma_ring_map_absent(rs: Seq<Ring>, k: Seq<char>)
    requires
        forall|i: int| 0 <= i < rs.len() ==> rs[i].name@ != k,
    ensures
        !ring_map(rs).dom().contains(k),
{
    if ring_names(rs).contains(k) {
        let i = choose|i: int| 0 <= i < ring_names(rs).len() && ring_names(rs)[i] == k;
        assert(rs[i].name@ == k);
    }
}

impl Historian {
    #[verifier::type_invariant]
    spec fn well_formed(self) -> bool {
        &&& names_sorted(ring_names(self.rings@))
        &&& rings_bounded(self.rings@, self.capacity as nat)
        &&& self.sample_interval_us >= MIN_SAMPLE_INTERVAL_US
    }

    /// The rings, by variable name.
    pub closed spec fn rings(self) -> Map<Seq<char>, Seq<(u64, u64)>> {
        ring_map(self.rings@)
    }

    /// The recorded variable names, in sorted order.
    pub closed spec fn names(self) -> Seq<Seq<char>> {
        ring_names(self.rings@)
    }

    /// Time of the last recorded snapshot (0 before the first).
    pub closed spec fn last_sample(self) -> u64 {
        self.last_sample_us
    }

    /// Samples kept per variable.
    pub closed spec fn spec_capacity(self) -> nat {
        self.capacity as nat
    }

    /// The sampling cadence.
    pub closed spec fn interval(self) -> u64 {
        self.sample_interval_us
    }

    /// A memory-only historian; the cadence is at least
    /// [`MIN_SAMPLE_INTERVAL_US`].
    pub fn new(sample_interval_us: u64, capacity: usize) -> (r: Historian)
        ensures
            r.rings() == Map::<Seq<char>, Seq<(u64, u64)>>::empty(),
            r.names() == Seq::<Seq<char>>::empty(),
            r.last_sample() == 0,
            r.spec_capacity() == capacity,
            r.interval() == if sample_interval_us < MIN_SAMPLE_INTERVAL_US {
                MIN_SAMPLE_INTERVAL_US
            } else {
                sample_interval_us
            },
    {
        let interval = if sample_interval_us < MIN_SAMPLE_INTERVAL_US {
            MIN_SAMPLE_INTERVAL_US
        } else {
            sample_interval_us
        };
        let r = Historian {
            rings: Vec::new(),
            last_sample_us: 0,
            capacity,
            sample_interval_us: interval,
        };
        assert(r.rings() =~= Map::<Seq<char>, Seq<(u64, u64)>>::empty());
        assert(r.names() =~= Seq::<Seq<char>>::empty());
        r
    }

    /// Zero-config in-memory historian (IDE-side default).
    pub fn in_memory() -> (r: Historian)
        ensures
            r.rings() == Map::<Seq<char>, Seq<(u64, u64)>>::empty(),
            r.names() == Seq::<Seq<char>>::empty(),
            r.last_sample() == 0,
            r.spec_capacity() == DEFAULT_CAPACITY,
            r.interval() == DEFAULT_SAMPLE_INTERVAL_US,
    {
        Self::new(DEFAULT_SAMPLE_INTERVAL_US, DEFAULT_CAPACITY)
    }

    /// Sampling cadence in microseconds.
    pub fn sample_interval_us(&self) -> (r: u64)
        ensures
            r == self.interval(),
    {
        self.sample_interval_us
    }

    /// Samples kept per variable.
    pub fn capacity(&self) -> (r: usize)
        ensures
            r == self.spec_capacity(),
    {
        self.capacity
    }

    /// Drop every ring (project closed).
    pub fn clear(&mut self)
        ensures
            final(self).rings() == Map::<Seq<char>, Seq<(u64, u64)>>::empty(),
            final(self).names() == Seq::<Seq<char>>::empty(),
            final(self).last_sample() == 0,
            final(self).spec_capacity() == old(self).spec_capacity(),
            final(self).interval() == old(self).interval(),
    {
        proof {
            use_type_invariant(&*self);
        }
        self.rings = Vec::new();
        self.last_sample_us = 0;
        assert(self.rings() =~= Map::<Seq<char>, Seq<(u64, u64)>>::empty());
        assert(self.names() =~= Seq::<Seq<char>>::empty());
    }
}

/// Inserting `r` at `p` keeps names sorted when `r`'s name falls between
/// its neighbours.
proof fn lemma_insert_sorted(rs: Seq<Ring>, p: int, r: Ring)
    requires
        names_sorted(ring_names(rs)),
        0 <= p <= rs.len(),
        forall|q: int| 0 <= q < p ==> lex_lt(rs[q].name@, r.name@),
        forall|q: int| p <= q < rs.len() ==> lex_lt(r.name@, rs[q].name@),
    ensures
        names_sorted(ring_names(rs.insert(p, r))),
{
    let ns = ring_names(rs.insert(p, r));
    assert forall|a: int, b: int| 0 <= a < b < ns.len() implies lex_lt(ns[a], ns[b]) by {
        if b < p {
            assert(lex_lt(ring_names(rs)[a], ring_names(rs)[b]));
        } else if a > p {
            assert(lex_lt(ring_names(rs)[a - 1], ring_names(rs)[b - 1]));
        } else if a < p && b > p {
            lemma_lex_transitive(rs[a].name@, r.name@, rs[b - 1].name@);
        }
    }
}

impl Historian {
    fn ring_position(rings: &Vec<Ring>, name: &[char]) -> (p: usize)
        requires
            names_sorted(ring_names(rings@)),
        ensures
            p <= rings@.len(),
            forall|q: int| 0 <= q < p ==> lex_lt(rings@[q].name@, name@),
            p < rings@.len() ==> !lex_lt(rings@[p as int].name@, name@),
    {
        let mut p: usize = 0;
        while p < rings.len()
            invariant
                p <= rings@.len(),
                forall|q: int| 0 <= q < p ==> lex_lt(rings@[q].name@, name@),
            ensures
                p <= rings@.len(),
                forall|q: int| 0 <= q < p ==> lex_lt(rings@[q].name@, name@),
                p < rings@.len() ==> !lex_lt(rings@[p as int].name@, name@),
            decreases rings@.len() - p,
        {
            let nm = chars_of(rings[p].name.as_str());
            if !lex_less(&nm, name) {
                break;
            }
            p = p + 1;
        }
        p
    }

    /// Appends one sample to `name`'s ring (creating it), keeping the last
    /// `capacity` samples.
    fn record_sample(&mut self, name: &[char], sample: (u64, u64))
        ensures
            final(self).rings() == record(old(self).rings(), name@, sample, old(self).spec_capacity()),
            final(self).last_sample() == old(self).last_sample(),
            final(self).spec_capacity() == old(self).spec_capacity(),
            final(self).interval() == old(self).interval(),
    {
        proof {
            use_type_invariant(&*self);
        }
        let cap = self.capacity;
        let mut rings: Vec<Ring> = Vec::new();
        std::mem::swap(&mut rings, &mut self.rings);
        let ghost old_rs = rings@;
        let ghost old_map = ring_map(old_rs);
        let p = Self::ring_position(&rings, name);
        let found = if p < rings.len() {
            let nm = chars_of(rings[p].name.as_str());
            eq_chars(&nm, name)
        } else {
            false
        };
        if found {
            assert(old_rs[p as int].name@ == name@);
            let mut ring = rings.remove(p);
            let ghost old_samples = ring.samples@;
            proof {
                assert(old_rs[p as int] == ring);
                assert(old_samples.len() <= cap);
                lemma_ring_map_at(old_rs, p as int);
            }
            ring.samples.push(sample);
            if ring.samples.len() > cap {
                ring.samples.remove(0);
            }
            assert(ring.samples@ =~= keep_last(old_samples.push(sample), cap as nat));
            let ghost new_ring = ring;
            rings.insert(p, ring);
            proof {
                let new_rs = rings@;
                assert(new_rs =~= old_rs.update(p as int, new_ring));
                assert(ring_names(new_rs) =~= ring_names(old_rs));
                let expect = record(old_map, name@, sample, cap as nat);
                assert forall|i: int| 0 <= i < new_rs.len() implies #[trigger] new_rs[i].samples@.len() <= cap by {
                    if i != p {
                        assert(old_rs[i].samples@.len() <= cap);
                    }
                }
                assert forall|k: Seq<char>| ring_map(new_rs).dom().contains(k) <==> expect.dom().contains(k) by {
                    if ring_names(new_rs).contains(k) {
                        let i = choose|i: int| 0 <= i < ring_names(new_rs).len() && ring_names(new_rs)[i] == k;
                        lemma_ring_map_at(old_rs, i);
                    }
                    if old_map.dom().contains(k) {
                        assert(ring_names(old_rs).contains(k));
                    }
                }
                assert forall|k: Seq<char>| #[trigger] ring_map(new_rs).dom().contains(k) implies ring_map(new_rs)[k]
                    == expect[k] by {
                    let i = choose|i: int| 0 <= i < ring_names(new_rs).len() && ring_names(new_rs)[i] == k;
                    lemma_ring_map_at(new_rs, i);
                    lemma_ring_map_at(old_rs, i);
                    if i != p {
                        if i < p {
                            assert(lex_lt(ring_names(old_rs)[i], ring_names(old_rs)[p as int]));
                        } else {
                            assert(lex_lt(ring_names(old_rs)[p as int], ring_names(old_rs)[i]));
                        }
                        lemma_lex_irreflexive(k);
                        assert(k != name@);
                    }
                }
                assert(ring_map(new_rs) =~= expect);
            }
        } else {
            proof {
                assert forall|q: int| p <= q < old_rs.len() implies lex_lt(name@, old_rs[q].name@) by {
                    lemma_lex_total(old_rs[p as int].name@, name@);
                    if q > p {
                        assert(lex_lt(ring_names(old_rs)[p as int], ring_names(old_rs)[q]));
                        lemma_lex_transitive(name@, old_rs[p as int].name@, old_rs[q].name@);
                    }
                }
                assert forall|q: int| 0 <= q < old_rs.len() implies old_rs[q].name@ != name@ by {
                    if q < p {
                        lemma_lex_irreflexive(name@);
                    } else {
                        lemma_lex_irreflexive(name@);
                    }
                }
                lemma_ring_map_absent(old_rs, name@);
            }
            let mut samples: Vec<(u64, u64)> = Vec::new();
            samples.push(sample);
            if samples.len() > cap {
                samples.remove(0);
            }
            assert(samples@ =~= keep_last(Seq::<(u64, u64)>::empty().push(sample), cap as nat));
            let ring = Ring { name: crate::text::string_of(name), samples };
            let ghost new_ring = ring;
            rings.insert(p, ring);
            proof {
                let new_rs = rings@;
                assert(new_rs =~= old_rs.insert(p as int, new_ring));
                lemma_insert_sorted(old_rs, p as int, new_ring);
                let expect = record(old_map, name@, sample, cap as nat);
                assert forall|i: int| 0 <= i < new_rs.len() implies #[trigger] new_rs[i].samples@.len() <= cap by {
                    if i < p {
                        assert(old_rs[i].samples@.len() <= cap);
                    } else if i > p {
                        assert(old_rs[i - 1].samples@.len() <= cap);
                    }
                }
                assert forall|k: Seq<char>| ring_map(new_rs).dom().contains(k) <==> expect.dom().contains(k) by {
                    if ring_names(new_rs).contains(k) {
                        let i = choose|i: int| 0 <= i < ring_names(new_rs).len() && ring_names(new_rs)[i] == k;
                        if i < p {
                            lemma_ring_map_at(old_rs, i);
                        } else if i > p {
                            lemma_ring_map_at(old_rs, i - 1);
                        }
                    }
                    if old_map.dom().contains(k) {
                        assert(ring_names(old_rs).contains(k));
                        let j = choose|j: int| 0 <= j < ring_names(old_rs).len() && ring_names(old_rs)[j] == k;
                        if j < p {
                            assert(ring_names(new_rs)[j] == k);
                        } else {
                            assert(ring_names(new_rs)[j + 1] == k);
                        }
                    }
                    if k == name@ {
                        assert(ring_names(new_rs)[p as int] == k);
                    }
                }
                assert forall|k: Seq<char>| #[trigger] ring_map(new_rs).dom().contains(k) implies ring_map(new_rs)[k]
                    == expect[k] by {
                    let i = choose|i: int| 0 <= i < ring_names(new_rs).len() && ring_names(new_rs)[i] == k;
                    lemma_ring_map_at(new_rs, i);
                    if i < p {
                        lemma_ring_map_at(old_rs, i);
                    } else if i > p {
                        lemma_ring_map_at(old_rs, i - 1);
                    }
                }
                assert(ring_map(new_rs) =~= expect);
            }
        }
        self.rings = rings;
    }
}

/// The `(name, key)` views of a snapshot's values.
pub open spec fn value_views(vals: Seq<(String, u64)>) -> Seq<(Seq<char>, u64)> {
    Seq::new(vals.len(), |i: int| (vals[i].0@, vals[i].1))
}

impl Historian {
    /// Feed one snapshot's numeric values (already decoded to order keys),
    /// throttled to the sample cadence. Returns whether it was recorded.
    pub fn note_snapshot(&mut self, timestamp_us: u64, values: &Vec<(String, u64)>) -> (recorded: bool)
        ensures
            recorded == !throttled(timestamp_us, old(self).last_sample(), old(self).interval()),
            !recorded ==> final(self).rings() == old(self).rings() && final(self).last_sample()
                == old(self).last_sample(),
            recorded ==> final(self).last_sample() == timestamp_us && final(self).rings()
                == record_all(
                old(self).rings(),
                timestamp_us,
                value_views(values@),
                old(self).spec_capacity(),
            ),
            final(self).spec_capacity() == old(self).spec_capacity(),
            final(self).interval() == old(self).interval(),
            names_index_rings(*final(self)),
    {
        proof {
            use_type_invariant(&*self);
        }
        if timestamp_us < self.last_sample_us || timestamp_us - self.last_sample_us
            < self.sample_interval_us {
            self.index_rings();
            return false;
        }
        self.last_sample_us = timestamp_us;
        let ghost start = self.rings();
        let ghost vv = value_views(values@);
        for i in 0..values.len()
            invariant
                vv == value_views(values@),
                self.rings() == record_all(start, timestamp_us, vv.take(i as int), self.spec_capacity()),
                self.last_sample() == timestamp_us,
                self.spec_capacity() == old(self).spec_capacity(),
                self.interval() == old(self).interval(),
        {
            let name = chars_of(values[i].0.as_str());
            let key = values[i].1;
            self.record_sample(&name, (timestamp_us, key));
            assert(vv.take(i + 1).drop_last() =~= vv.take(i as int));
        }
        assert(vv.take(values@.len() as int) =~= vv);
        self.index_rings();
        true
    }

    /// Load one persisted sample into its ring (no throttle), keeping the
    /// last `capacity` samples.
    pub fn preload_sample(&mut self, name: &str, t_us: u64, key: u64)
        ensures
            final(self).rings() == record(old(self).rings(), name@, (t_us, key), old(self).spec_capacity()),
            final(self).last_sample() == old(self).last_sample(),
            final(self).spec_capacity() == old(self).spec_capacity(),
            final(self).interval() == old(self).interval(),
            names_index_rings(*final(self)),
    {
        let nm = chars_of(name);
        self.record_sample(&nm, (t_us, key));
        self.index_rings();
    }

    /// The names and the rings agree (from the type invariant).
    fn index_rings(&self)
        ensures
            names_index_rings(*self),
    {
        proof {
            use_type_invariant(self);
            let ns = self.names();
            assert forall|i: int, j: int| 0 <= i < ns.len() && 0 <= j < ns.len() && i != j implies ns[i] != ns[j] by {
                lemma_lex_irreflexive(ns[i]);
                if i < j {
                    assert(lex_lt(ns[i], ns[j]));
                } else {
                    assert(lex_lt(ns[j], ns[i]));
                }
            }
        }
    }
}

// ------------------------------------------------------------ query
/// Start of the `step`-wide bucket (aligned to `from`) that holds `t`.
pub open spec fn bucket_start(t: u64, from: u64, step: u64) -> u64 {
    (t - (t - from) % (step as int)) as u64
}

/// `t` falls inside the query window (`to == 0`: no upper bound).
pub open spec fn in_window(t: u64, from: u64, to: u64) -> bool {
    from <= t && (to == 0 || t <= to)
}

pub open spec fn min_key(a: u64, b: u64) -> u64 {
    if b < a {
        b
    } else {
        a
    }
}

pub open spec fn max_key(a: u64, b: u64) -> u64 {
    if b > a {
        b
    } else {
        a
    }
}

/// The min/max/last buckets of a ring's samples inside the window, in
/// sample order: a sample joins the last bucket when it shares its start,
/// and opens a new bucket otherwise.
pub open spec fn buckets(samples: Seq<(u64, u64)>, from: u64, to: u64, step: u64) -> Seq<
    (u64, u64, u64, u64),
>
    decreases samples.len(),
{
    if samples.len() == 0 {
        Seq::empty()
    } else {
        let pts = buckets(samples.drop_last(), from, to, step);
        let t = samples.last().0;
        let v = samples.last().1;
        if !in_window(t, from, to) {
            pts
        } else {
            let b = bucket_start(t, from, step);
            if pts.len() > 0 && pts.last().0 == b {
                pts.update(
                    pts.len() - 1,
                    (b, min_key(pts.last().1, v), max_key(pts.last().2, v), v),
                )
            } else {
                pts.push((b, v, v, v))
            }
        }
    }
}

/// The earliest first-sample time over the named rings (`None`: all empty).
pub open spec fn earliest_first(m: Map<Seq<char>, Seq<(u64, u64)>>, names: Seq<Seq<char>>) -> Option<u64>
    decreases names.len(),
{
    if names.len() == 0 {
        None
    } else {
        let rest = earliest_first(m, names.drop_last());
        let ring = ring_of(m, names.last());
        if ring.len() == 0 {
            rest
        } else {
            match rest {
                Some(o) => Some(min_key(o, ring[0].0)),
                None => Some(ring[0].0),
            }
        }
    }
}

/// `oldest_us` of a response: the earliest first-sample time, 0 when no
/// requested ring holds a sample (the value `u64::MAX` also reads as 0).
pub open spec fn oldest_us_of(m: Map<Seq<char>, Seq<(u64, u64)>>, names: Seq<Seq<char>>) -> u64 {
    match earliest_first(m, names) {
        Some(o) => if o == 0xffff_ffff_ffff_ffff {
            0
        } else {
            o
        },
        None => 0,
    }
}

/// Bucket width of a query in microseconds (`step_ms` of 0 counts as 1).
pub open spec fn step_us_of(step_ms: u64) -> u64 {
    if step_ms == 0 {
        1000
    } else {
        (step_ms * 1000) as u64
    }
}

pub open spec fn string_views(v: Seq<String>) -> Seq<Seq<char>> {
    Seq::new(v.len(), |i: int| v[i]@)
}

/// The variables a query reports: those asked for, or every recorded one
/// in sorted order when none is named.
pub open spec fn query_names(h: Historian, vars: Seq<Seq<char>>) -> Seq<Seq<char>> {
    if vars.len() == 0 {
        h.names()
    } else {
        vars
    }
}

fn bucketize(samples: &Vec<(u64, u64)>, from_us: u64, to_us: u64, step_us: u64) -> (r: Vec<HistoryPoint>)
    requires
        step_us > 0,
    ensures
        points_view(r@) == buckets(samples@, from_us, to_us, step_us),
{
    let mut pts: Vec<HistoryPoint> = Vec::new();
    for j in 0..samples.len()
        invariant
            step_us > 0,
            points_view(pts@) == buckets(samples@.take(j as int), from_us, to_us, step_us),
    {
        let (t, v) = samples[j];
        let ghost prev = samples@.take(j as int);
        assert(samples@.take(j + 1).drop_last() =~= prev);
        assert(samples@.take(j + 1).last() == (t, v));
        if t < from_us || (to_us > 0 && t > to_us) {
        } else {
            assert(((t - from_us) as u64) % step_us <= t - from_us) by (nonlinear_arith)
                requires
                    step_us > 0,
                    t >= from_us,
            ;
            let bucket = t - (t - from_us) % step_us;
            let n = pts.len();
            let ghost pv = points_view(pts@);
            if n > 0 && pts[n - 1].t_us == bucket {
                let last = pts.pop().unwrap();
                let mn = if v < last.min { v } else { last.min };
                let mx = if v > last.max { v } else { last.max };
                pts.push(HistoryPoint { t_us: bucket, min: mn, max: mx, v });
                assert(points_view(pts@) =~= pv.update(
                    pv.len() - 1,
                    (bucket, min_key(pv.last().1, v), max_key(pv.last().2, v), v),
                ));
            } else {
                pts.push(HistoryPoint { t_us: bucket, min: v, max: v, v });
                assert(points_view(pts@) =~= pv.push((bucket, v, v, v)));
            }
        }
    }
    assert(samples@.take(samples@.len() as int) =~= samples@);
    pts
}

impl Historian {
    fn find_ring(&self, name: &[char]) -> (r: Option<usize>)
        ensures
            r matches Some(i) ==> i < self.rings@.len() && self.rings().dom().contains(name@)
                && self.rings()[name@] == self.rings@[i as int].samples@,
            r is None ==> !self.rings().dom().contains(name@),
    {
        proof {
            use_type_invariant(self);
        }
        let p = Self::ring_position(&self.rings, name);
        if p < self.rings.len() {
            let nm = chars_of(self.rings[p].name.as_str());
            if eq_chars(&nm, name) {
                proof {
                    lemma_ring_map_at(self.rings@, p as int);
                }
                return Some(p);
            }
        }
        proof {
            let rs = self.rings@;
            assert forall|q: int| 0 <= q < rs.len() implies rs[q].name@ != name@ by {
                lemma_lex_irreflexive(name@);
                if q > p {
                    lemma_lex_total(rs[p as int].name@, name@);
                    assert(lex_lt(ring_names(rs)[p as int], ring_names(rs)[q]));
                    lemma_lex_transitive(name@, rs[p as int].name@, rs[q].name@);
                }
            }
            lemma_ring_map_absent(rs, name@);
        }
        None
    }

    /// Every recorded variable name, sorted.
    pub fn recorded_names(&self) -> (r: Vec<String>)
        ensures
            string_views(r@) == self.names(),
    {
        let mut r: Vec<String> = Vec::new();
        for i in 0..self.rings.len()
            invariant
                string_views(r@) == ring_names(self.rings@).take(i as int),
        {
            let ghost old_r = r@;
            let c = self.rings[i].name.clone();
            r.push(c);
            assert(r@ == old_r.push(c));
            assert(string_views(old_r).len() == old_r.len());
            assert(ring_names(self.rings@).take(i as int).len() == i);
            assert forall|j: int| 0 <= j < i + 1 implies string_views(r@)[j] == ring_names(self.rings@).take(i + 1)[j] by {
                if j < i {
                    assert(string_views(old_r)[j] == ring_names(self.rings@).take(i as int)[j]);
                }
            }
            assert(string_views(r@) =~= ring_names(self.rings@).take(i + 1));
        }
        assert(ring_names(self.rings@).take(self.rings@.len() as int) =~= ring_names(self.rings@));
        r
    }

    /// Bucketed query. `vars` empty = every recorded variable.
    pub fn query(&self, vars: &[String], from_us: u64, to_us: u64, step_ms: u64) -> (r: HistoryResponse)
        requires
            step_ms <= u64::MAX / 1000,
        ensures
            r.series@.len() == query_names(*self, string_views(vars@)).len(),
            forall|i: int| 0 <= i < r.series@.len() ==> #[trigger] r.series@[i].name@ == query_names(*self, string_views(vars@))[i],
            forall|i: int|
                0 <= i < r.series@.len() ==> points_view(#[trigger] r.series@[i].points@) == buckets(
                    ring_of(self.rings(), query_names(*self, string_views(vars@))[i]),
                    from_us,
                    to_us,
                    step_us_of(step_ms),
                ),
            r.oldest_us == oldest_us_of(self.rings(), query_names(*self, string_views(vars@))),
            r.sample_interval_us == self.interval(),
            names_index_rings(*self),
    {
        self.index_rings();
        let step_us: u64 = if step_ms == 0 { 1000 } else { step_ms * 1000 };
        let names: Vec<String> = if vars.len() == 0 {
            self.recorded_names()
        } else {
            let mut v: Vec<String> = Vec::new();
            for i in 0..vars.len()
                invariant
                    string_views(v@) == string_views(vars@).take(i as int),
            {
                let ghost old_v = v@;
                let c = vars[i].clone();
                v.push(c);
                assert(v@ == old_v.push(c));
                assert(string_views(old_v).len() == old_v.len());
                assert(string_views(vars@).take(i as int).len() == i);
                assert forall|j: int| 0 <= j < i + 1 implies string_views(v@)[j] == string_views(vars@).take(i + 1)[j] by {
                    if j < i {
                        assert(string_views(old_v)[j] == string_views(vars@).take(i as int)[j]);
                    }
                }
                assert(string_views(v@) =~= string_views(vars@).take(i + 1));
            }
            assert(string_views(vars@).take(vars@.len() as int) =~= string_views(vars@));
            v
        };
        let ghost qn = query_names(*self, string_views(vars@));
        assert(string_views(names@) == qn);
        let mut series: Vec<HistorySeries> = Vec::new();
        let mut oldest: Option<u64> = None;
        for i in 0..names.len()
            invariant
                string_views(names@) == qn,
                step_us == step_us_of(step_ms),
                step_us > 0,
                series@.len() == i,
                forall|k: int| 0 <= k < i ==> #[trigger] series@[k].name@ == qn[k],
                forall|k: int|
                    0 <= k < i ==> points_view(#[trigger] series@[k].points@) == buckets(
                        ring_of(self.rings(), qn[k]),
                        from_us,
                        to_us,
                        step_us,
                    ),
                oldest == earliest_first(self.rings(), qn.take(i as int)),
        {
            let nm = chars_of(names[i].as_str());
            assert(nm@ == qn[i as int]);
            let ghost ring = ring_of(self.rings(), qn[i as int]);
            let points = match self.find_ring(&nm) {
                Some(p) => {
                    let samples = &self.rings[p].samples;
                    if samples.len() > 0 {
                        let first = samples[0].0;
                        oldest = match oldest {
                            Some(o) => Some(if first < o { first } else { o }),
                            None => Some(first),
                        };
                    }
                    bucketize(samples, from_us, to_us, step_us)
                },
                None => {
                    let empty: Vec<(u64, u64)> = Vec::new();
                    assert(empty@ =~= ring);
                    bucketize(&empty, from_us, to_us, step_us)
                },
            };
            assert(qn.take(i + 1).drop_last() =~= qn.take(i as int));
            assert(qn.take(i + 1).last() == qn[i as int]);
            series.push(HistorySeries { name: names[i].clone(), points });
        }
        assert(qn.take(names@.len() as int) =~= qn);
        let oldest_us = match oldest {
            Some(o) => if o == 0xffff_ffff_ffff_ffff { 0 } else { o },
            None => 0,
        };
        HistoryResponse { series, oldest_us, sample_interval_us: self.sample_interval_us }
    }
}

// ------------------------------------------------------------ laws
/// Every bucket of a query is well formed: it starts inside the window on
/// the step grid anchored at `from`, its last value lies between its min
/// and max, and there are never more buckets than samples.
pub proof fn law_buckets_well_formed(samples: Seq<(u64, u64)>, from: u64, to: u64, step: u64)
    requires
        step > 0,
    ensures
        buckets(samples, from, to, step).len() <= samples.len(),
        forall|i: int|
            0 <= i < buckets(samples, from, to, step).len() ==> {
                let p = #[trigger] buckets(samples, from, to, step)[i];
                &&& p.1 <= p.3 <= p.2
                &&& from <= p.0
                &&& (to == 0 || p.0 <= to)
                &&& (p.0 - from) % (step as int) == 0
            },
    decreases samples.len(),
{
    if samples.len() > 0 {
        law_buckets_well_formed(samples.drop_last(), from, to, step);
        let t = samples.last().0;
        if in_window(t, from, to) {
            let d = (t - from) as int;
            assert(d % (step as int) <= d && (d - d % (step as int)) % (step as int) == 0) by (nonlinear_arith)
                requires
                    step > 0,
                    d >= 0,
            {
                vstd::arithmetic::div_mod::lemma_fundamental_div_mod(d, step as int);
                vstd::arithmetic::div_mod::lemma_mod_multiples_basic(d / (step as int), step as int);
            }
        }
    }
}

/// The value of the latest sample inside the window, if any.
pub open spec fn last_in_window(samples: Seq<(u64, u64)>, from: u64, to: u64) -> Option<u64>
    decreases samples.len(),
{
    if samples.len() == 0 {
        None
    } else if in_window(samples.last().0, from, to) {
        Some(samples.last().1)
    } else {
        last_in_window(samples.drop_last(), from, to)
    }
}

/// Buckets carry min / max / last: every sample inside the window lies
/// between the min and the max of a bucket that starts where the sample's
/// bucket starts, there is a bucket exactly when some sample falls in the
/// window, and the last bucket's value is the latest such sample.
pub proof fn law_buckets_carry_min_max_last(samples: Seq<(u64, u64)>, from: u64, to: u64, step: u64)
    requires
        step > 0,
    ensures
        forall|j: int|
            0 <= j < samples.len() && in_window(#[trigger] samples[j].0, from, to) ==> exists|i: int|
                0 <= i < buckets(samples, from, to, step).len() && buckets(samples, from, to, step)[i].0
                    == bucket_start(samples[j].0, from, step) && buckets(samples, from, to, step)[i].1
                    <= samples[j].1 <= buckets(samples, from, to, step)[i].2,
        (buckets(samples, from, to, step).len() > 0) == last_in_window(samples, from, to).is_some(),
        last_in_window(samples, from, to) matches Some(v) ==> buckets(samples, from, to, step).last().3 == v,
    decreases samples.len(),
{
    if samples.len() > 0 {
        let front = samples.drop_last();
        law_buckets_carry_min_max_last(front, from, to, step);
        let pts = buckets(front, from, to, step);
        let all = buckets(samples, from, to, step);
        let n = samples.len() - 1;
        let (t, v) = samples.last();
        assert forall|j: int|
            0 <= j < samples.len() && in_window(#[trigger] samples[j].0, from, to) implies exists|i: int|
                0 <= i < all.len() && all[i].0 == bucket_start(samples[j].0, from, step) && all[i].1
                    <= samples[j].1 <= all[i].2 by {
            if j < n {
                assert(samples[j] == front[j]);
                let i = choose|i: int|
                    0 <= i < pts.len() && pts[i].0 == bucket_start(front[j].0, from, step) && pts[i].1
                        <= front[j].1 <= pts[i].2;
                assert(0 <= i < all.len() && all[i].0 == bucket_start(samples[j].0, from, step) && all[i].1
                    <= samples[j].1 <= all[i].2);
            } else {
                let i = all.len() - 1;
                assert(0 <= i < all.len() && all[i].0 == bucket_start(samples[j].0, from, step) && all[i].1
                    <= samples[j].1 <= all[i].2);
            }
        }
    }
}

/// The sample falls in the window and in the bucket that starts at `b`.
pub open spec fn in_bucket(s: (u64, u64), from: u64, to: u64, step: u64, b: u64) -> bool {
    in_window(s.0, from, to) && bucket_start(s.0, from, step) == b
}

/// Sample times never decrease.
pub open spec fn times_ordered(samples: Seq<(u64, u64)>) -> bool {
    forall|i: int, j: int| 0 <= i < j < samples.len() ==> samples[i].0 <= samples[j].0
}

/// A bucket `p` is exactly the summary of the samples in its bucket: it has
/// at least one, `p.1` / `p.2` are the least / greatest of their values,
/// and `p.3` is the value of the latest of them.
pub open spec fn summarises(samples: Seq<(u64, u64)>, from: u64, to: u64, step: u64, p: (u64, u64, u64, u64)) -> bool {
    &&& exists|j: int| 0 <= j < samples.len() && in_bucket(samples[j], from, to, step, p.0) && samples[j].1 == p.1
    &&& exists|j: int| 0 <= j < samples.len() && in_bucket(samples[j], from, to, step, p.0) && samples[j].1 == p.2
    &&& exists|j: int|
        0 <= j < samples.len() && in_bucket(samples[j], from, to, step, p.0) && samples[j].1 == p.3 && forall|k: int|
            j < k < samples.len() ==> !in_bucket(#[trigger] samples[k], from, to, step, p.0)
    &&& forall|j: int|
        0 <= j < samples.len() && in_bucket(#[trigger] samples[j], from, to, step, p.0) ==> p.1 <= samples[j].1 <= p.2
}

proof fn lemma_bucket_start_monotone(t1: u64, t2: u64, from: u64, step: u64)
    requires
        step > 0,
        from <= t1 <= t2,
    ensures
        bucket_start(t1, from, step) <= bucket_start(t2, from, step),
{
    let d1 = (t1 - from) as int;
    let d2 = (t2 - from) as int;
    let st = step as int;
    vstd::arithmetic::div_mod::lemma_fundamental_div_mod(d1, st);
    vstd::arithmetic::div_mod::lemma_fundamental_div_mod(d2, st);
    vstd::arithmetic::div_mod::lemma_div_is_ordered(d1, d2, st);
    vstd::arithmetic::mul::lemma_mul_inequality(d1 / st, d2 / st, st);
    vstd::arithmetic::mul::lemma_mul_is_commutative(st, d1 / st);
    vstd::arithmetic::mul::lemma_mul_is_commutative(st, d2 / st);
    assert(d1 % st <= d1 && d2 % st <= d2) by {
        vstd::arithmetic::div_mod::lemma_mod_bound(d1, st);
        vstd::arithmetic::div_mod::lemma_mod_bound(d2, st);
        assert(0 <= d1 / st) by {
            vstd::arithmetic::div_mod::lemma_div_pos_is_pos(d1, st);
        }
        assert(0 <= d2 / st) by {
            vstd::arithmetic::div_mod::lemma_div_pos_is_pos(d2, st);
        }
        vstd::arithmetic::mul::lemma_mul_nonnegative(st, d1 / st);
        vstd::arithmetic::mul::lemma_mul_nonnegative(st, d2 / st);
    }
}

/// A bucket that the newest sample misses keeps summarising its samples.
proof fn lemma_summary_kept(samples: Seq<(u64, u64)>, from: u64, to: u64, step: u64, p: (u64, u64, u64, u64))
    requires
        samples.len() > 0,
        summarises(samples.drop_last(), from, to, step, p),
        !in_bucket(samples.last(), from, to, step, p.0),
    ensures
        summarises(samples, from, to, step, p),
{
    let front = samples.drop_last();
    let n = samples.len() - 1;
    let j1 = choose|j: int| 0 <= j < front.len() && in_bucket(front[j], from, to, step, p.0) && front[j].1 == p.1;
    let j2 = choose|j: int| 0 <= j < front.len() && in_bucket(front[j], from, to, step, p.0) && front[j].1 == p.2;
    let j3 = choose|j: int|
        0 <= j < front.len() && in_bucket(front[j], from, to, step, p.0) && front[j].1 == p.3 && forall|k: int|
            j < k < front.len() ==> !in_bucket(#[trigger] front[k], from, to, step, p.0);
    assert(samples[j1] == front[j1] && samples[j2] == front[j2] && samples[j3] == front[j3]);
    assert forall|k: int| j3 < k < samples.len() implies !in_bucket(#[trigger] samples[k], from, to, step, p.0) by {
        if k < n {
            assert(samples[k] == front[k]);
        }
    }
    assert forall|j: int| 0 <= j < samples.len() && in_bucket(#[trigger] samples[j], from, to, step, p.0) implies p.1
        <= samples[j].1 <= p.2 by {
        if j < n {
            assert(samples[j] == front[j]);
        }
    }
}

/// The newest sample joins the bucket `p` that summarised the older ones.
proof fn lemma_summary_merged(samples: Seq<(u64, u64)>, from: u64, to: u64, step: u64, p: (u64, u64, u64, u64))
    requires
        samples.len() > 0,
        summarises(samples.drop_last(), from, to, step, p),
        in_bucket(samples.last(), from, to, step, p.0),
    ensures
        summarises(
            samples,
            from,
            to,
            step,
            (p.0, min_key(p.1, samples.last().1), max_key(p.2, samples.last().1), samples.last().1),
        ),
{
    let front = samples.drop_last();
    let n = samples.len() - 1;
    let v = samples.last().1;
    let np = (p.0, min_key(p.1, v), max_key(p.2, v), v);
    let j1 = choose|j: int| 0 <= j < front.len() && in_bucket(front[j], from, to, step, p.0) && front[j].1 == p.1;
    let j2 = choose|j: int| 0 <= j < front.len() && in_bucket(front[j], from, to, step, p.0) && front[j].1 == p.2;
    assert(samples[j1] == front[j1] && samples[j2] == front[j2]);
    assert(samples[n] == samples.last());
    if v < p.1 {
        assert(samples[n].1 == np.1);
    } else {
        assert(samples[j1].1 == np.1);
    }
    if v > p.2 {
        assert(samples[n].1 == np.2);
    } else {
        assert(samples[j2].1 == np.2);
    }
    assert forall|k: int| n < k < samples.len() implies !in_bucket(#[trigger] samples[k], from, to, step, np.0) by {}
    assert forall|j: int| 0 <= j < samples.len() && in_bucket(#[trigger] samples[j], from, to, step, np.0) implies np.1
        <= samples[j].1 <= np.2 by {
        if j < n {
            assert(samples[j] == front[j]);
        }
    }
}

/// The newest sample opens bucket `b`, which no older sample falls in.
proof fn lemma_summary_opened(samples: Seq<(u64, u64)>, from: u64, to: u64, step: u64, b: u64)
    requires
        samples.len() > 0,
        in_bucket(samples.last(), from, to, step, b),
        forall|j: int| 0 <= j < samples.len() - 1 ==> !in_bucket(#[trigger] samples[j], from, to, step, b),
    ensures
        summarises(samples, from, to, step, (b, samples.last().1, samples.last().1, samples.last().1)),
{
    let n = samples.len() - 1;
    assert(samples[n] == samples.last());
    assert forall|k: int| n < k < samples.len() implies !in_bucket(#[trigger] samples[k], from, to, step, b) by {}
}

/// The buckets' starts strictly increase and each summarises its samples.
pub open spec fn buckets_exact(samples: Seq<(u64, u64)>, from: u64, to: u64, step: u64) -> bool {
    let pts = buckets(samples, from, to, step);
    &&& forall|i: int, k: int| 0 <= i < k < pts.len() ==> pts[i].0 < pts[k].0
    &&& forall|i: int| 0 <= i < pts.len() ==> summarises(samples, from, to, step, #[trigger] pts[i])
}

/// One induction step of [`law_buckets_are_exact`].
#[verifier::rlimit(40)]
proof fn lemma_buckets_exact_step(samples: Seq<(u64, u64)>, from: u64, to: u64, step: u64)
    requires
        step > 0,
        samples.len() > 0,
        times_ordered(samples),
        buckets_exact(samples.drop_last(), from, to, step),
    ensures
        buckets_exact(samples, from, to, step),
{
    let n = samples.len() - 1;
    let front = samples.drop_last();
    law_buckets_carry_min_max_last(front, from, to, step);
    let pts = buckets(front, from, to, step);
    let all = buckets(samples, from, to, step);
    let t = samples.last().0;
    let v = samples.last().1;
    assert(samples[n] == samples.last());
    if !in_window(t, from, to) {
        assert(all == pts);
        assert forall|i: int| 0 <= i < all.len() implies summarises(samples, from, to, step, #[trigger] all[i]) by {
            lemma_summary_kept(samples, from, to, step, pts[i]);
        }
    } else {
        let b = bucket_start(t, from, step);
        if pts.len() > 0 {
            // The newest bucket starts no later than the new sample's.
            let pl = pts.last();
            assert(summarises(front, from, to, step, pl));
            let w = choose|j: int| 0 <= j < front.len() && in_bucket(front[j], from, to, step, pl.0) && front[j].1 == pl.1;
            assert(front[w] == samples[w]);
            assert(samples[w].0 <= samples[n].0);
            lemma_bucket_start_monotone(front[w].0, t, from, step);
            assert(pl.0 <= b);
        }
        if pts.len() > 0 && pts.last().0 == b {
            let last = pts.len() - 1;
            let pl = pts[last];
            let np = (b, min_key(pl.1, v), max_key(pl.2, v), v);
            assert(all == pts.update(last, np));
            lemma_summary_merged(samples, from, to, step, pl);
            assert forall|i: int| 0 <= i < all.len() implies summarises(samples, from, to, step, #[trigger] all[i]) by {
                if i < last {
                    assert(pts[i].0 < pts[last].0);
                    assert(all[i] == pts[i]);
                    lemma_summary_kept(samples, from, to, step, pts[i]);
                }
            }
        } else {
            assert forall|i: int| 0 <= i < pts.len() implies pts[i].0 < b by {
                if i < pts.len() - 1 {
                    assert(pts[i].0 < pts[pts.len() - 1].0);
                }
            }
            let np = (b, v, v, v);
            assert(all == pts.push(np));
            assert forall|j: int| 0 <= j < samples.len() - 1 implies !in_bucket(#[trigger] samples[j], from, to, step, b) by {
                assert(samples[j] == front[j]);
                if in_bucket(front[j], from, to, step, b) {
                    let i = choose|i: int|
                        0 <= i < pts.len() && pts[i].0 == bucket_start(front[j].0, from, step) && pts[i].1
                            <= front[j].1 <= pts[i].2;
                    assert(pts[i].0 < b);
                }
            }
            lemma_summary_opened(samples, from, to, step, b);
            assert forall|i: int| 0 <= i < all.len() implies summarises(samples, from, to, step, #[trigger] all[i]) by {
                if i < pts.len() {
                    assert(all[i] == pts[i]);
                    lemma_summary_kept(samples, from, to, step, pts[i]);
                }
            }
        }
    }
}

/// When a ring's sample times never decrease, its query buckets are exact:
/// their start times strictly increase, and each bucket summarises
/// exactly the samples of its bucket — it holds at least one, its min and
/// max are the least and greatest of their values and its value is the
/// latest one's (a bucket without samples has no point).
pub proof fn law_buckets_are_exact(samples: Seq<(u64, u64)>, from: u64, to: u64, step: u64)
    requires
        step > 0,
        times_ordered(samples),
    ensures
        forall|i: int, k: int|
            0 <= i < k < buckets(samples, from, to, step).len() ==> buckets(samples, from, to, step)[i].0
                < buckets(samples, from, to, step)[k].0,
        forall|i: int|
            0 <= i < buckets(samples, from, to, step).len() ==> summarises(
                samples,
                from,
                to,
                step,
                #[trigger] buckets(samples, from, to, step)[i],
            ),
    decreases samples.len(),
{
    if samples.len() > 0 {
        let front = samples.drop_last();
        assert(times_ordered(front)) by {
            assert forall|i: int, j: int| 0 <= i < j < front.len() implies front[i].0 <= front[j].0 by {
                assert(front[i] == samples[i] && front[j] == samples[j]);
            }
        }
        law_buckets_are_exact(front, from, to, step);
        lemma_buckets_exact_step(samples, from, to, step);
    }
}

/// The earliest first-sample time over `names` is the first sample time
/// of one of their non-empty rings, and no later than any of them.
proof fn lemma_earliest_first_is_min(m: Map<Seq<char>, Seq<(u64, u64)>>, names: Seq<Seq<char>>)
    ensures
        earliest_first(m, names) is None <==> forall|i: int|
            0 <= i < names.len() ==> #[trigger] ring_of(m, names[i]).len() == 0,
        earliest_first(m, names) matches Some(o) ==> exists|i: int|
            0 <= i < names.len() && #[trigger] ring_of(m, names[i]).len() > 0 && ring_of(m, names[i])[0].0
                == o,
        earliest_first(m, names) matches Some(o) ==> forall|i: int|
            0 <= i < names.len() && #[trigger] ring_of(m, names[i]).len() > 0 ==> o <= ring_of(
                m,
                names[i],
            )[0].0,
    decreases names.len(),
{
    if names.len() > 0 {
        let front = names.drop_last();
        lemma_earliest_first_is_min(m, front);
        let n = names.len() - 1;
        assert forall|i: int| 0 <= i < n implies #[trigger] names[i] == front[i] by {}
        assert(names[n] == names.last());
        if earliest_first(m, names) is None {
            assert forall|i: int| 0 <= i < names.len() implies #[trigger] ring_of(m, names[i]).len() == 0 by {
                if i < n {
                    assert(ring_of(m, front[i]).len() == 0);
                }
            }
        }
        if forall|i: int| 0 <= i < names.len() ==> #[trigger] ring_of(m, names[i]).len() == 0 {
            assert(ring_of(m, names[n]).len() == 0);
            assert forall|i: int| 0 <= i < front.len() implies #[trigger] ring_of(m, front[i]).len() == 0 by {
                assert(ring_of(m, names[i]).len() == 0);
            }
        }
        if let Some(o) = earliest_first(m, names) {
            let rest = earliest_first(m, front);
            if let Some(r) = rest {
                let k = choose|i: int|
                    0 <= i < front.len() && #[trigger] ring_of(m, front[i]).len() > 0 && ring_of(m, front[i])[0].0
                        == r;
                assert(ring_of(m, names[k]).len() > 0);
                if ring_of(m, names[n]).len() > 0 && ring_of(m, names[n])[0].0 < r {
                    assert(ring_of(m, names[n])[0].0 == o);
                } else {
                    assert(ring_of(m, names[k])[0].0 == o);
                }
            } else {
                assert(ring_of(m, names[n]).len() > 0 && ring_of(m, names[n])[0].0 == o);
            }
            assert forall|i: int|
                0 <= i < names.len() && #[trigger] ring_of(m, names[i]).len() > 0 implies o <= ring_of(
                m,
                names[i],
            )[0].0 by {
                if i < n {
                    assert(ring_of(m, front[i]).len() > 0);
                }
            }
        }
    }
}

/// A response's `oldest_us` is the earliest first sample over the requested
/// rings: it is no later than the first sample of every requested ring
/// that holds one, and (unless every such time is the sentinel
/// `u64::MAX`, or no requested ring holds a sample, both reported as 0) it
/// is the first sample time of one of them.
pub proof fn law_oldest_is_the_earliest(m: Map<Seq<char>, Seq<(u64, u64)>>, names: Seq<Seq<char>>)
    ensures
        forall|i: int|
            0 <= i < names.len() && #[trigger] ring_of(m, names[i]).len() > 0 ==> oldest_us_of(m, names)
                <= ring_of(m, names[i])[0].0,
        (exists|i: int|
            0 <= i < names.len() && #[trigger] ring_of(m, names[i]).len() > 0 && ring_of(m, names[i])[0].0
                != 0xffff_ffff_ffff_ffffu64) ==> exists|i: int|
            0 <= i < names.len() && #[trigger] ring_of(m, names[i]).len() > 0 && ring_of(m, names[i])[0].0
                == oldest_us_of(m, names),
        (forall|i: int| 0 <= i < names.len() ==> #[trigger] ring_of(m, names[i]).len() == 0) ==> oldest_us_of(
            m,
            names,
        ) == 0,
{
    lemma_earliest_first_is_min(m, names);
}

/// Recording never lets a ring outgrow the capacity.
pub proof fn law_record_bounded(
    m: Map<Seq<char>, Seq<(u64, u64)>>,
    name: Seq<char>,
    sample: (u64, u64),
    cap: nat,
)
    requires
        forall|k: Seq<char>| #[trigger] m.dom().contains(k) ==> m[k].len() <= cap,
    ensures
        forall|k: Seq<char>| #[trigger] record(m, name, sample, cap).dom().contains(k) ==> record(
            m,
            name,
            sample,
            cap,
        )[k].len() <= cap,
        record(m, name, sample, cap)[name].last() == sample || cap == 0,
{
    let s = ring_of(m, name).push(sample);
    if s.len() > cap {
        assert(keep_last(s, cap).len() == cap);
        if cap > 0 {
            assert(keep_last(s, cap).last() == s.last());
        }
    }
}

/// A ring always holds exactly the latest `cap` samples of everything ever
/// recorded for its variable: trimming after each append is the same as
/// trimming once at the end. Recording one variable leaves every other
/// ring alone.
pub proof fn law_ring_keeps_latest(
    m: Map<Seq<char>, Seq<(u64, u64)>>,
    name: Seq<char>,
    all: Seq<(u64, u64)>,
    sample: (u64, u64),
    cap: nat,
)
    requires
        ring_of(m, name) == keep_last(all, cap),
    ensures
        ring_of(record(m, name, sample, cap), name) == keep_last(all.push(sample), cap),
        forall|k: Seq<char>| k != name ==> #[trigger] ring_of(record(m, name, sample, cap), k) == ring_of(m, k),
{
    let t = keep_last(all, cap);
    let lhs = keep_last(t.push(sample), cap);
    let rhs = keep_last(all.push(sample), cap);
    if all.len() > cap {
        assert(t.len() == cap);
        assert(lhs =~= rhs);
    } else {
        assert(t == all);
    }
    assert(ring_of(record(m, name, sample, cap), name) == lhs);
}

/// A whole snapshot keeps every ring within the capacity.
pub proof fn law_record_all_bounded(
    m: Map<Seq<char>, Seq<(u64, u64)>>,
    t: u64,
    vals: Seq<(Seq<char>, u64)>,
    cap: nat,
)
    requires
        forall|k: Seq<char>| #[trigger] m.dom().contains(k) ==> m[k].len() <= cap,
    ensures
        forall|k: Seq<char>| #[trigger] record_all(m, t, vals, cap).dom().contains(k) ==> record_all(
            m,
            t,
            vals,
            cap,
        )[k].len() <= cap,
    decreases vals.len(),
{
    if vals.len() > 0 {
        law_record_all_bounded(m, t, vals.drop_last(), cap);
        law_record_bounded(record_all(m, t, vals.drop_last(), cap), vals.last().0, (t, vals.last().1), cap);
    }
}

// ------------------------------------------------------------ persistence
/// Rotate the JSONL segment once it has grown past this many bytes.
pub const SEGMENT_MAX_BYTES: u64 = 8 * 1024 * 1024;

/// Old segments kept on disk (the newest ones).
pub const SEGMENTS_KEPT: usize = 3;

/// The name of the segment opened at `now_us`.
pub open spec fn segment_name(now_us: nat) -> Seq<char> {
    "history-"@ + pad_left(decimal_text(now_us), 20, '0') + ".jsonl"@
}

/// `history-<micros, zero-padded to 20 digits>.jsonl`: segment names sort
/// in time order.
pub fn segment_file_name(now_us: u128) -> (r: String)
    ensures
        r@ == segment_name(now_us as nat),
{
    let mut m = chars_of("history-");
    let digits = decimal_chars(now_us);
    let padded = pad_left_chars(&digits, 20, '0');
    extend_chars(&mut m, &padded);
    extend_str(&mut m, ".jsonl");
    string_of(&m)
}

/// Segment files sort in the order they were opened: for clock readings
/// below 10^20 µs, an earlier reading gives a name that sorts first, so
/// no two readings share a name and pruning the first names in sorted
/// order removes the oldest segments.
pub proof fn law_segment_names_sort_in_time(a: nat, b: nat)
    requires
        a < b < 100_000_000_000_000_000_000,
    ensures
        lex_lt(segment_name(a), segment_name(b)),
        segment_name(a) != segment_name(b),
{
    reveal_with_fuel(pow10, 21);
    assert(pow10(20) == 100_000_000_000_000_000_000);
    lemma_padded_decimal_is_fixed(a, 20);
    lemma_padded_decimal_is_fixed(b, 20);
    lemma_fixed_decimal_order(a, b, 20);
    let x = fixed_decimal(a, 20);
    let y = fixed_decimal(b, 20);
    let pre = "history-"@;
    let suf = ".jsonl"@;
    lemma_fixed_decimal_len(a, 20);
    lemma_fixed_decimal_len(b, 20);
    lemma_lex_equal_length_extend(x, y, suf, suf);
    lemma_lex_common_prefix(pre, x + suf, y + suf);
    assert(segment_name(a) =~= pre + (x + suf));
    assert(segment_name(b) =~= pre + (y + suf));
    lemma_lex_irreflexive(segment_name(a));
}

/// A directory entry is a history segment: `history-*.jsonl`.
pub fn is_segment_file_name(name: &str) -> (r: bool)
    ensures
        r == (has_prefix(name@, "history-"@) && has_suffix(name@, ".jsonl"@)),
{
    let n = chars_of(name);
    starts_with_chars(&n, &chars_of("history-")) && ends_with_chars(&n, &chars_of(".jsonl"))
}

/// How many of `n` sorted segments to delete so that the newest
/// [`SEGMENTS_KEPT`] remain (the oldest go first).
pub fn segments_to_prune(n: usize) -> (r: usize)
    ensures
        r == (if n > SEGMENTS_KEPT { n - SEGMENTS_KEPT } else { 0 }),
{
    if n > SEGMENTS_KEPT {
        n - SEGMENTS_KEPT
    } else {
        0
    }
}

/// A new segment is opened when none is open or the open one is full.
pub fn needs_rotation(has_file: bool, written: u64) -> (r: bool)
    ensures
        r == (!has_file || written > SEGMENT_MAX_BYTES),
{
    !has_file || written > SEGMENT_MAX_BYTES
}

} // verus!
