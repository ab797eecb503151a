use sensordash::snapshot::Snapshot;
use sensordash::store::TelemetryStore;
use sensordash::ConfigError;

fn snapshot_of(entries: &[(&str, i64)]) -> Snapshot {
    let mut s = Snapshot::new();
    for (name, value) in entries {
        s.push(name.to_string(), *value);
    }
    s
}

fn names_of(names: &[&str]) -> Vec<String> {
    names.iter().map(|n| n.to_string()).collect()
}

#[test]
fn initialize_derives_capacity_from_timing() {
    let snap = snapshot_of(&[("tctl", 4000)]);
    // 2 s poll interval, 5 min retained window: 150 samples.
    let store = TelemetryStore::initialize(names_of(&["tctl"]), 2000, 300_000, &snap).unwrap();
    assert_eq!(store.capacity(), 150);
    assert_eq!(store.window(), (0, 149));
    let series = store.view_series(&"tctl".to_string()).unwrap();
    assert_eq!(series.samples().len(), 150);
    assert_eq!(series.latest(), 4000);
    assert_eq!(series.range(), (4000, 4000));
}

#[test]
fn initialize_clamps_capacity_to_one() {
    let snap = snapshot_of(&[("tctl", 4000)]);
    let store = TelemetryStore::initialize(names_of(&["tctl"]), 2000, 1000, &snap).unwrap();
    assert_eq!(store.capacity(), 1);
    assert_eq!(store.window(), (0, 0));
}

#[test]
fn initialize_rejects_zero_interval() {
    let snap = snapshot_of(&[]);
    let r = TelemetryStore::initialize(names_of(&["tctl"]), 0, 300_000, &snap);
    assert!(matches!(r, Err(ConfigError::ZeroInterval)));
}

#[test]
fn missing_metric_reads_sentinel() {
    let snap = snapshot_of(&[("tctl", 4000)]);
    let store =
        TelemetryStore::initialize(names_of(&["tctl", "coolant"]), 1000, 3000, &snap).unwrap();
    let series = store.view_series(&"coolant".to_string()).unwrap();
    assert_eq!(series.latest(), 0);
    assert_eq!(series.range(), (0, 0));
}

#[test]
fn unknown_metric_has_no_view() {
    let snap = snapshot_of(&[("tctl", 4000)]);
    let store = TelemetryStore::initialize(names_of(&["tctl"]), 1000, 3000, &snap).unwrap();
    assert!(store.view_series(&"gpu".to_string()).is_none());
}

#[test]
fn tick_advances_window_and_every_series() {
    let snap = snapshot_of(&[("tctl", 4000)]);
    let mut store = TelemetryStore::initialize(names_of(&["tctl"]), 1000, 5000, &snap).unwrap();
    assert_eq!(store.window(), (0, 4));

    let next = snapshot_of(&[("tctl", 4200)]);
    store.tick(&next);
    assert_eq!(store.window(), (1, 5));

    let series = store.view_series(&"tctl".to_string()).unwrap();
    assert_eq!(series.latest(), 4200);
    assert_eq!(series.range(), (4000, 4200));
    let samples = series.samples();
    assert_eq!(samples.len(), 5);
    assert_eq!(samples[3].tick, 4);
    assert_eq!(samples[3].value, 4000);
    assert_eq!(samples[4].tick, 5);
    assert_eq!(samples[4].value, 4200);
}

#[test]
fn series_stay_synchronized_across_ticks() {
    let snap = snapshot_of(&[("a", 3000), ("b", 6000)]);
    let mut store = TelemetryStore::initialize(names_of(&["a", "b"]), 1000, 3000, &snap).unwrap();
    for round in 0..4 {
        let next = snapshot_of(&[("a", 3000 + round), ("b", 6000 - round)]);
        store.tick(&next);
        let (start, end) = store.window();
        assert_eq!(end - start, store.capacity() as u64 - 1);
        for i in 0..store.metric_count() {
            let samples = store.series_at(i).samples();
            // Newest sample sits at the window's right edge, oldest at
            // its left edge.
            assert_eq!(samples[samples.len() - 1].tick, end);
            assert_eq!(samples[0].tick, start);
        }
    }
}

#[test]
fn window_edges_increase_by_one_per_tick() {
    let snap = snapshot_of(&[("a", 3000)]);
    let mut store = TelemetryStore::initialize(names_of(&["a"]), 1000, 4000, &snap).unwrap();
    let mut previous = store.window();
    for _ in 0..3 {
        store.tick(&snap);
        let current = store.window();
        assert_eq!(current.0, previous.0 + 1);
        assert_eq!(current.1, previous.1 + 1);
        previous = current;
    }
}
