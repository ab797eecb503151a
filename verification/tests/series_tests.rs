use sensordash::series::MetricSeries;
use sensordash::series::Sample;
use sensordash::ConfigError;

#[test]
fn initialize_prefills_and_sets_extrema() {
    let s = MetricSeries::initialize(5, 4000).unwrap();
    let expected = vec![
        Sample { tick: 0, value: 0 },
        Sample { tick: 1, value: 0 },
        Sample { tick: 2, value: 0 },
        Sample { tick: 3, value: 0 },
        Sample { tick: 4, value: 4000 },
    ];
    assert_eq!(s.samples(), &expected);
    assert_eq!(s.capacity(), 5);
    assert_eq!(s.range(), (4000, 4000));
    assert_eq!(s.latest(), 4000);
}

#[test]
fn advance_evicts_oldest_and_appends_next_tick() {
    let mut s = MetricSeries::initialize(5, 4000).unwrap();
    s.advance(4200);
    let expected = vec![
        Sample { tick: 1, value: 0 },
        Sample { tick: 2, value: 0 },
        Sample { tick: 3, value: 0 },
        Sample { tick: 4, value: 4000 },
        Sample { tick: 5, value: 4200 },
    ];
    assert_eq!(s.samples(), &expected);
    assert_eq!(s.range(), (4000, 4200));
    assert_eq!(s.latest(), 4200);
    assert_eq!(s.capacity(), 5);
}

#[test]
fn initialize_rejects_zero_capacity() {
    let r = MetricSeries::initialize(0, 4000);
    assert!(matches!(r, Err(ConfigError::InvalidCapacity)));
}

#[test]
fn extrema_are_all_time_not_windowed() {
    let mut s = MetricSeries::initialize(2, 5000).unwrap();
    s.advance(9000);
    s.advance(1000);
    s.advance(2000);
    // 9000 and 5000 have scrolled out of the window but stay in the extrema.
    let expected = vec![Sample { tick: 3, value: 1000 }, Sample { tick: 4, value: 2000 }];
    assert_eq!(s.samples(), &expected);
    assert_eq!(s.range(), (1000, 9000));
}

#[test]
fn sentinel_reading_counts_toward_raw_extrema() {
    let mut s = MetricSeries::initialize(3, 4000).unwrap();
    s.advance(0);
    // The raw table extrema reflect the sentinel dip; only the chart
    // bounds filter it out.
    assert_eq!(s.range(), (0, 4000));
    assert_eq!(s.latest(), 0);
}

#[test]
fn window_length_is_constant() {
    let mut s = MetricSeries::initialize(4, 100).unwrap();
    for v in [200, 300, 400, 500, 600] {
        s.advance(v);
        assert_eq!(s.samples().len(), 4);
    }
}
