use ia2::history::{
    is_segment_file_name, key_bits, order_key, segment_file_name, segments_to_prune, Historian,
};

fn key(v: f32) -> u64 {
    order_key((v as f64).to_bits())
}

fn snap(h: &mut Historian, t_us: u64, v: f32) {
    h.note_snapshot(t_us, &vec![("flow".to_string(), key(v))]);
}

#[test]
fn samples_throttle_and_buckets_carry_min_max() {
    let mut h = Historian::new(1_000_000, 100);
    snap(&mut h, 1_000_000, 1.0);
    snap(&mut h, 1_200_000, 99.0); // inside throttle window — dropped
    snap(&mut h, 2_000_000, 2.0);
    snap(&mut h, 3_000_000, 8.0);
    snap(&mut h, 4_000_000, 4.0);

    // One 10s bucket: min/max/last across the KEPT samples.
    let resp = h.query(&["flow".into()], 0, 0, 10_000);
    assert_eq!(resp.series.len(), 1);
    let pts = &resp.series[0].points;
    assert_eq!(pts.len(), 1);
    assert_eq!(pts[0].min, key(1.0));
    assert_eq!(pts[0].max, key(8.0), "throttled 99.0 must NOT appear");
    assert_eq!(pts[0].v, key(4.0));
    assert_eq!(resp.oldest_us, 1_000_000);

    // 1s buckets: one point per sample.
    let resp = h.query(&["flow".into()], 0, 0, 1_000);
    assert_eq!(resp.series[0].points.len(), 4);
}

#[test]
fn ring_capacity_bounds_memory() {
    let mut h = Historian::new(100_000, 10);
    for i in 0..50u64 {
        snap(&mut h, i * 1_000_000, i as f32);
    }
    let resp = h.query(&[], 0, 0, 1_000);
    assert_eq!(resp.series[0].points.len(), 10, "ring trimmed to capacity");
    assert_eq!(resp.oldest_us, 40 * 1_000_000);
}

#[test]
fn order_keys_sort_like_the_floats() {
    let vals = [-1e300f64, -2.5, -0.0, 0.0, 1e-300, 3.0, f64::INFINITY];
    for w in vals.windows(2) {
        assert!(order_key(w[0].to_bits()) < order_key(w[1].to_bits()));
    }
    for v in vals {
        assert_eq!(key_bits(order_key(v.to_bits())), v.to_bits());
    }
}

#[test]
fn empty_query_lists_every_variable_sorted() {
    let mut h = Historian::new(0, 5);
    assert_eq!(h.sample_interval_us(), 100_000);
    h.note_snapshot(
        1_000_000,
        &vec![("zeta".to_string(), key(1.0)), ("alpha".to_string(), key(2.0))],
    );
    let resp = h.query(&[], 0, 0, 1_000);
    let names: Vec<&str> = resp.series.iter().map(|s| s.name.as_str()).collect();
    assert_eq!(names, vec!["alpha", "zeta"]);
    // unknown variables yield an empty series; oldest covers only what is held
    let resp = h.query(&["nope".into()], 0, 0, 1_000);
    assert_eq!(resp.series[0].points.len(), 0);
    assert_eq!(resp.oldest_us, 0);
    h.clear();
    assert_eq!(h.query(&[], 0, 0, 1_000).series.len(), 0);
}

#[test]
fn window_and_bucket_alignment() {
    let mut h = Historian::new(100_000, 100);
    for (t, v) in [(1_000_000u64, 5.0f32), (1_600_000, 3.0), (2_100_000, 9.0), (5_000_000, 1.0)] {
        snap(&mut h, t, v);
    }
    // from 1.1 s, to 4 s, 1 s buckets anchored at `from`
    let resp = h.query(&["flow".into()], 1_100_000, 4_000_000, 1_000);
    let pts = &resp.series[0].points;
    assert_eq!(pts.len(), 2);
    assert_eq!(pts[0].t_us, 1_100_000);
    assert_eq!(pts[0].v, key(3.0));
    assert_eq!(pts[1].t_us, 2_100_000);
    assert_eq!(pts[1].min, key(9.0));
    // 2 s buckets: 1.6 s and 2.1 s share the bucket opened at 1.1 s
    let resp = h.query(&["flow".into()], 1_100_000, 4_000_000, 2_000);
    let pts = &resp.series[0].points;
    assert_eq!(pts.len(), 1);
    assert_eq!(pts[0].min, key(3.0));
    assert_eq!(pts[0].max, key(9.0));
    assert_eq!(pts[0].v, key(9.0));
}

#[test]
fn segment_names_sort_and_prune() {
    assert_eq!(
        segment_file_name(1_700_000_000_000_000),
        "history-00001700000000000000.jsonl"
    );
    assert!(is_segment_file_name("history-00001700000000000000.jsonl"));
    assert!(!is_segment_file_name("history-1.json"));
    assert!(!is_segment_file_name("other-1.jsonl"));
    assert_eq!(segments_to_prune(5), 2);
    assert_eq!(segments_to_prune(3), 0);
}

#[test]
fn rings_hold_the_latest_samples_in_order() {
    let mut h = Historian::new(100_000, 3);
    for i in 1..=5u64 {
        h.note_snapshot(i * 1_000_000, &vec![("a".to_string(), i), ("b".to_string(), 100 + i)]);
    }
    let r = h.query(&["a".into(), "b".into()], 0, 0, 1);
    let a: Vec<u64> = r.series[0].points.iter().map(|p| p.v).collect();
    let b: Vec<u64> = r.series[1].points.iter().map(|p| p.v).collect();
    assert_eq!(a, vec![3, 4, 5]);
    assert_eq!(b, vec![103, 104, 105]);
    assert_eq!(r.oldest_us, 3_000_000);
}

#[test]
fn persistence_survives_restart() {
    // Only the ring side of a restart: the points a first historian holds
    // are fed to a fresh one through `preload_sample`, oldest first, as the
    // segment reader does with the lines it reads back. Nothing here touches
    // disk; reading and writing segment files is left to the application.
    let mut h = Historian::new(1_000_000, 100);
    snap(&mut h, 1_000_000, 1.5);
    snap(&mut h, 2_000_000, 2.5);
    let written = h.query(&["flow".into()], 0, 0, 1_000);
    // "Restart": a fresh historian preloads the samples.
    let mut h2 = Historian::new(1_000_000, 100);
    for p in &written.series[0].points {
        h2.preload_sample("flow", p.t_us, p.v);
    }
    let resp = h2.query(&["flow".into()], 0, 0, 1_000);
    let pts = &resp.series[0].points;
    assert_eq!(pts.len(), 2, "history survived the restart");
    assert_eq!(f64::from_bits(key_bits(pts[1].v)), 2.5);
}

#[test]
fn preloading_keeps_the_ring_bounded() {
    let mut h = Historian::new(1_000_000, 2);
    for t in 1..=4u64 {
        h.preload_sample("x", t * 1_000_000, t);
    }
    let r = h.query(&[], 0, 0, 1_000);
    let vs: Vec<u64> = r.series[0].points.iter().map(|p| p.v).collect();
    assert_eq!(vs, vec![3, 4]);
    assert_eq!(r.oldest_us, 3_000_000);
}

#[test]
fn defaults_and_rotation_rule() {
    let h = Historian::in_memory();
    assert_eq!(h.sample_interval_us(), 1_000_000);
    assert_eq!(h.capacity(), 7200);
    assert!(ia2::history::needs_rotation(false, 0));
    assert!(!ia2::history::needs_rotation(true, 8 * 1024 * 1024));
    assert!(ia2::history::needs_rotation(true, 8 * 1024 * 1024 + 1));
}

#[test]
fn every_windowed_sample_lies_within_its_bucket() {
    let mut h = Historian::new(100_000, 100);
    let vals = [(1_000_000u64, 4.0f32), (1_300_000, -2.0), (1_700_000, 9.5), (2_200_000, 0.5)];
    for (t, v) in vals {
        snap(&mut h, t, v);
    }
    let resp = h.query(&["flow".into()], 1_000_000, 0, 1_000);
    let pts = &resp.series[0].points;
    for (t, v) in vals {
        let b = t - (t - 1_000_000) % 1_000_000;
        let p = pts.iter().find(|p| p.t_us == b).unwrap();
        assert!(p.min <= key(v) && key(v) <= p.max);
    }
    assert_eq!(pts.last().unwrap().v, key(0.5));
    let empty = h.query(&["flow".into()], 9_000_000, 0, 1_000);
    assert!(empty.series[0].points.is_empty());
}

#[test]
fn segment_names_sort_in_time() {
    let times = [0u128, 9, 10, 99, 100, 1_700_000_000_000_000, 99_999_999_999_999_999_999];
    let names: Vec<String> = times.iter().map(|t| segment_file_name(*t)).collect();
    let mut sorted = names.clone();
    sorted.sort();
    assert_eq!(names, sorted);
    for w in names.windows(2) {
        assert!(w[0] < w[1]);
    }
}

#[test]
fn buckets_are_exact_on_ordered_samples() {
    // 2 s buckets anchored at 1 s; samples at 1, 1.5, 2.5, 3, 5.5 s.
    let mut h = Historian::new(100_000, 100);
    let samples: [(u64, u64); 5] = [
        (1_000_000, 7),
        (1_500_000, 3),
        (2_500_000, 9),
        (3_000_000, 4),
        (5_500_000, 6),
    ];
    for (t, k) in samples.iter() {
        h.preload_sample("x", *t, *k);
    }
    let r = h.query(&[], 1_000_000, 0, 2_000);
    let pts = &r.series[0].points;
    let got: Vec<(u64, u64, u64, u64)> = pts.iter().map(|p| (p.t_us, p.min, p.max, p.v)).collect();
    assert_eq!(
        got,
        vec![
            (1_000_000, 3, 9, 9),
            (3_000_000, 4, 4, 4),
            (5_000_000, 6, 6, 6),
        ]
    );
    for w in pts.windows(2) {
        assert!(w[0].t_us < w[1].t_us);
    }
}
