use sensordash::bounds::chart_bounds;
use sensordash::snapshot::Snapshot;
use sensordash::store::TelemetryStore;

const PADDING: i64 = 200;
const FLOOR: i64 = 2500;
const CEILING: i64 = 9000;

fn snapshot_of(entries: &[(&str, i64)]) -> Snapshot {
    let mut s = Snapshot::new();
    for (name, value) in entries {
        s.push(name.to_string(), *value);
    }
    s
}

fn names_of(names: &[&str]) -> Vec<String> {
    names.iter().map(|n| n.to_string()).collect()
}

#[test]
fn all_sentinel_series_fall_back_to_full_range() {
    // Two series reporting the sentinel 0.0 at every position.
    let snap = snapshot_of(&[("a", 0), ("b", 0)]);
    let mut store = TelemetryStore::initialize(names_of(&["a", "b"]), 1000, 4000, &snap).unwrap();
    store.tick(&snap);
    store.tick(&snap);
    let bounds = chart_bounds(&store, &vec![0, 1], PADDING, FLOOR, CEILING);
    assert_eq!(bounds, (FLOOR, CEILING));
}

#[test]
fn peak_is_clamped_to_ceiling() {
    // Series a peaks at 95.0, series b at 30.0, padding 2.0, ceiling
    // 90.0: high = min(95.0 + 2.0, 90.0) = 90.0.
    let snap = snapshot_of(&[("a", 9500), ("b", 3000)]);
    let store = TelemetryStore::initialize(names_of(&["a", "b"]), 1000, 1000, &snap).unwrap();
    let (low, high) = chart_bounds(&store, &vec![0, 1], PADDING, FLOOR, CEILING);
    assert_eq!(high, CEILING);
    assert_eq!(low, 2800);
}

#[test]
fn low_is_clamped_to_floor() {
    let snap = snapshot_of(&[("a", 2600), ("b", 2700)]);
    let store = TelemetryStore::initialize(names_of(&["a", "b"]), 1000, 1000, &snap).unwrap();
    let (low, high) = chart_bounds(&store, &vec![0, 1], PADDING, FLOOR, CEILING);
    // min - padding = 24.0 would fall below the floor of 25.0.
    assert_eq!(low, FLOOR);
    assert_eq!(high, 2900);
}

#[test]
fn padding_is_applied_inside_the_clamp_band() {
    let snap = snapshot_of(&[("a", 4000), ("b", 6000)]);
    let store = TelemetryStore::initialize(names_of(&["a", "b"]), 1000, 1000, &snap).unwrap();
    let (low, high) = chart_bounds(&store, &vec![0, 1], PADDING, FLOOR, CEILING);
    assert_eq!(low, 3800);
    assert_eq!(high, 6200);
}

#[test]
fn placeholder_positions_are_filtered_out() {
    // Capacity 3: two placeholder positions at 0.0 must not drag the
    // lower bound toward zero.
    let snap = snapshot_of(&[("a", 4000)]);
    let store = TelemetryStore::initialize(names_of(&["a"]), 1000, 3000, &snap).unwrap();
    let (low, high) = chart_bounds(&store, &vec![0], PADDING, FLOOR, CEILING);
    assert_eq!(low, 3800);
    assert_eq!(high, 4200);
}

#[test]
fn mins_and_maxes_filter_independently() {
    // Series a never reports; series b does. Every cross-series minimum
    // is the sentinel, so the low falls back to the floor, while the
    // maxes still come from b.
    let snap = snapshot_of(&[("a", 0), ("b", 5000)]);
    let store = TelemetryStore::initialize(names_of(&["a", "b"]), 1000, 1000, &snap).unwrap();
    let (low, high) = chart_bounds(&store, &vec![0, 1], PADDING, FLOOR, CEILING);
    assert_eq!(low, FLOOR);
    assert_eq!(high, 5200);
}

#[test]
fn bounds_use_current_window_contents_only() {
    // A peak that has scrolled out of the window no longer widens the
    // chart bounds, though it stays in the table extrema.
    let snap = snapshot_of(&[("a", 8000)]);
    let mut store = TelemetryStore::initialize(names_of(&["a"]), 1000, 2000, &snap).unwrap();
    store.tick(&snapshot_of(&[("a", 4000)]));
    store.tick(&snapshot_of(&[("a", 4100)]));
    let (low, high) = chart_bounds(&store, &vec![0], PADDING, FLOOR, CEILING);
    assert_eq!(low, 3800);
    assert_eq!(high, 4300);
    let series = store.view_series(&"a".to_string()).unwrap();
    assert_eq!(series.range(), (4000, 8000));
}

#[test]
fn low_is_clamped_only_from_below() {
    // The policy clamps the low bound at the floor and the high bound
    // at the ceiling, each on one side only: a reading far above the
    // ceiling still pushes the padded low past it.
    let snap = snapshot_of(&[("a", 20000)]);
    let store = TelemetryStore::initialize(names_of(&["a"]), 1000, 1000, &snap).unwrap();
    let (low, high) = chart_bounds(&store, &vec![0], PADDING, FLOOR, CEILING);
    assert_eq!(low, 19800);
    assert_eq!(high, CEILING);
}

#[test]
fn designated_subset_ignores_other_series() {
    let snap = snapshot_of(&[("a", 4000), ("hot", 9900)]);
    let store = TelemetryStore::initialize(names_of(&["a", "hot"]), 1000, 1000, &snap).unwrap();
    let (low, high) = chart_bounds(&store, &vec![0], PADDING, FLOOR, CEILING);
    assert_eq!(low, 3800);
    assert_eq!(high, 4200);
}
