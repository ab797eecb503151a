//! The chart-bounds calculator: derives a y-axis `[low, high]` across a
//! designated subset of series so every plotted line fits legibly, with
//! sentinel filtering, padding, and clamping.

use crate::max_i64;
use crate::min_i64;
use crate::series::MetricSeries;
use crate::series::SENTINEL_VALUE;
use crate::store::TelemetryStore;
use vstd::prelude::*;

verus! {

/// Values below this (in hundredths of a unit) are treated as "not a
/// real reading yet": pre-fill placeholders and sentinel readings.
pub const SENTINEL_THRESHOLD: i64 = 1;

/// The designated series of a store, in designation order.
pub open spec fn chosen_series(store: TelemetryStore, designated: Seq<usize>) -> Seq<MetricSeries> {
    Seq::new(designated.len(), |j: int| store.series_seq()[designated[j] as int])
}

/// The minimum, across the series `ss[k..]`, of the value at window
/// position `p`.
pub open spec fn cross_min_from(ss: Seq<MetricSeries>, p: int, k: int) -> i64
    decreases ss.len() - k,
{
    if k < 0 || k >= ss.len() {
        SENTINEL_VALUE
    } else if k == ss.len() - 1 {
        ss[k].samples_seq()[p].value
    } else {
        min_i64(ss[k].samples_seq()[p].value, cross_min_from(ss, p, k + 1))
    }
}

/// The minimum across all of `ss` of the value at window position `p`.
pub open spec fn cross_min(ss: Seq<MetricSeries>, p: int) -> i64 {
    cross_min_from(ss, p, 0)
}

/// The maximum, across the series `ss[k..]`, of the value at window
/// position `p`.
pub open spec fn cross_max_from(ss: Seq<MetricSeries>, p: int, k: int) -> i64
    decreases ss.len() - k,
{
    if k < 0 || k >= ss.len() {
        SENTINEL_VALUE
    } else if k == ss.len() - 1 {
        ss[k].samples_seq()[p].value
    } else {
        max_i64(ss[k].samples_seq()[p].value, cross_max_from(ss, p, k + 1))
    }
}

/// The maximum across all of `ss` of the value at window position `p`.
pub open spec fn cross_max(ss: Seq<MetricSeries>, p: int) -> i64 {
    cross_max_from(ss, p, 0)
}

/// The least cross-series minimum among window positions before `p`
/// that passes the sentinel filter, or `None` if none passes.
pub open spec fn filtered_low_upto(ss: Seq<MetricSeries>, p: int) -> Option<i64>
    decreases p,
{
    if p <= 0 {
        None
    } else {
        let prev = filtered_low_upto(ss, p - 1);
        let m = cross_min(ss, p - 1);
        if m >= SENTINEL_THRESHOLD {
            match prev {
                None => Some(m),
                Some(x) => Some(min_i64(x, m)),
            }
        } else {
            prev
        }
    }
}

/// The greatest cross-series maximum among window positions before `p`
/// that passes the sentinel filter, or `None` if none passes.
pub open spec fn filtered_high_upto(ss: Seq<MetricSeries>, p: int) -> Option<i64>
    decreases p,
{
    if p <= 0 {
        None
    } else {
        let prev = filtered_high_upto(ss, p - 1);
        let m = cross_max(ss, p - 1);
        if m >= SENTINEL_THRESHOLD {
            match prev {
                None => Some(m),
                Some(x) => Some(max_i64(x, m)),
            }
        } else {
            prev
        }
    }
}

/// The lower chart bound over `cap` window positions: the least
/// surviving cross-series minimum, less the padding, clamped to not go
/// below `floor`; `floor` itself when nothing survives the filter.
pub open spec fn spec_chart_low(ss: Seq<MetricSeries>, cap: int, padding: i64, floor: i64) -> int {
    match filtered_low_upto(ss, cap) {
        None => floor as int,
        Some(m) => if m - padding >= floor {
            m - padding
        } else {
            floor as int
        },
    }
}

/// The upper chart bound over `cap` window positions: the greatest
/// surviving cross-series maximum, plus the padding, clamped to not
/// exceed `ceiling`; `ceiling` itself when nothing survives the filter.
pub open spec fn spec_chart_high(
    ss: Seq<MetricSeries>,
    cap: int,
    padding: i64,
    ceiling: i64,
) -> int {
    match filtered_high_upto(ss, cap) {
        None => ceiling as int,
        Some(m) => if m + padding <= ceiling {
            m + padding
        } else {
            ceiling as int
        },
    }
}

/// Every value the designated series hold keeps `value - padding` and
/// `value + padding` within `i64`.
pub open spec fn values_fit(ss: Seq<MetricSeries>, cap: int, padding: i64) -> bool {
    forall|j: int, p: int|
        0 <= j < ss.len() && 0 <= p < cap ==> i64::MIN <= (
        #[trigger] ss[j].samples_seq()[p]).value - padding && ss[j].samples_seq()[p].value + padding
            <= i64::MAX
}

/// Computes the chart's y-axis `[low, high]` across the designated
/// series of a store, from the current window contents alone.
///
/// For each window position the cross-series minimum and maximum are
/// taken; minima and maxima below the sentinel threshold are filtered
/// out; the surviving extremes are padded and clamped to `floor` and
/// `ceiling`; and each side falls back to its clamp bound when nothing
/// survives its filter.
pub fn chart_bounds(
    store: &TelemetryStore,
    designated: &Vec<usize>,
    padding: i64,
    floor: i64,
    ceiling: i64,
) -> (b: (i64, i64))
    requires
        store.wf(),
        designated@.len() >= 1,
        forall|j: int|
            0 <= j < designated@.len() ==> (#[trigger] designated@[j]) < store.series_seq().len(),
        0 <= padding,
        values_fit(chosen_series(*store, designated@), store.cap() as int, padding),
    ensures
        b.0 == spec_chart_low(chosen_series(*store, designated@), store.cap() as int, padding, floor),
        b.1 == spec_chart_high(
            chosen_series(*store, designated@),
            store.cap() as int,
            padding,
            ceiling,
        ),
        floor <= b.0,
        b.1 <= ceiling,
    {
        let ghost ch = chosen_series(*store, designated@);
        let cap = store.capacity();
        let m = designated.len();
        let mut has_lo = false;
        let mut lo: i64 = 0;
        let mut has_hi = false;
        let mut hi: i64 = 0;
        let mut p: usize = 0;
        while p < cap
            invariant
                store.wf(),
                ch == chosen_series(*store, designated@),
                m == designated@.len(),
                m >= 1,
                cap == store.cap(),
                forall|j: int|
                    0 <= j < designated@.len() ==> (#[trigger] designated@[j])
                        < store.series_seq().len(),
                0 <= padding,
                values_fit(ch, cap as int, padding),
                p <= cap,
                filtered_low_upto(ch, p as int) == (if has_lo {
                    Some(lo)
                } else {
                    None::<i64>
                }),
                filtered_high_upto(ch, p as int) == (if has_hi {
                    Some(hi)
                } else {
                    None::<i64>
                }),
                has_lo ==> i64::MIN <= lo - padding,
                has_hi ==> hi + padding <= i64::MAX,
            decreases cap - p,
        {
            let mut k: usize = m - 1;
            proof {
                assert(ch[k as int] == store.series_seq()[designated@[k as int] as int]);
                assert(store.series_seq()[designated@[k as int] as int].wf());
            }
            let s = store.series_at(designated[k]);
            let first = s.samples()[p].value;
            let mut mn: i64 = first;
            let mut mx: i64 = first;
            while k > 0
                invariant
                    store.wf(),
                    ch == chosen_series(*store, designated@),
                    m == designated@.len(),
                    m >= 1,
                    k < m,
                    cap == store.cap(),
                    p < cap,
                    forall|j: int|
                        0 <= j < designated@.len() ==> (#[trigger] designated@[j])
                            < store.series_seq().len(),
                    0 <= padding,
                    values_fit(ch, cap as int, padding),
                    mn == cross_min_from(ch, p as int, k as int),
                    mx == cross_max_from(ch, p as int, k as int),
                    i64::MIN <= mn - padding,
                    mx + padding <= i64::MAX,
                decreases k,
            {
                k = k - 1;
                proof {
                    assert(ch[k as int] == store.series_seq()[designated@[k as int] as int]);
                    assert(store.series_seq()[designated@[k as int] as int].wf());
                }
                let s = store.series_at(designated[k]);
                let v = s.samples()[p].value;
                if v < mn {
                    mn = v;
                }
                if v > mx {
                    mx = v;
                }
            }
            if mn >= SENTINEL_THRESHOLD {
                if !has_lo || mn < lo {
                    lo = mn;
                }
                has_lo = true;
            }
            if mx >= SENTINEL_THRESHOLD {
                if !has_hi || mx > hi {
                    hi = mx;
                }
                has_hi = true;
            }
            p = p + 1;
        }
        let low: i64 = if has_lo {
            let padded = lo - padding;
            if padded >= floor {
                padded
            } else {
                floor
            }
        } else {
            floor
        };
        let high: i64 = if has_hi {
            let padded = hi + padding;
            if padded <= ceiling {
                padded
            } else {
                ceiling
            }
        } else {
            ceiling
        };
        (low, high)
    }

/// The cross-series minimum at a position is the value of one of the
/// series at that position.
proof fn lemma_cross_min_from_is_value(ss: Seq<MetricSeries>, p: int, k: int)
    requires
        0 <= k < ss.len(),
    ensures
        exists|j: int|
            k <= j < ss.len() && cross_min_from(ss, p, k) == (
            #[trigger] ss[j].samples_seq()[p]).value,
    decreases ss.len() - k,
{
    if k == ss.len() - 1 {
        assert(cross_min_from(ss, p, k) == ss[k].samples_seq()[p].value);
    } else {
        lemma_cross_min_from_is_value(ss, p, k + 1);
        if ss[k].samples_seq()[p].value <= cross_min_from(ss, p, k + 1) {
            assert(cross_min_from(ss, p, k) == ss[k].samples_seq()[p].value);
        } else {
            let j = choose|j: int|
                k + 1 <= j < ss.len() && cross_min_from(ss, p, k + 1) == (
                #[trigger] ss[j].samples_seq()[p]).value;
            assert(cross_min_from(ss, p, k) == ss[j].samples_seq()[p].value);
        }
    }
}

/// The cross-series maximum at a position is the value of one of the
/// series at that position.
proof fn lemma_cross_max_from_is_value(ss: Seq<MetricSeries>, p: int, k: int)
    requires
        0 <= k < ss.len(),
    ensures
        exists|j: int|
            k <= j < ss.len() && cross_max_from(ss, p, k) == (
            #[trigger] ss[j].samples_seq()[p]).value,
    decreases ss.len() - k,
{
    if k == ss.len() - 1 {
        assert(cross_max_from(ss, p, k) == ss[k].samples_seq()[p].value);
    } else {
        lemma_cross_max_from_is_value(ss, p, k + 1);
        if ss[k].samples_seq()[p].value >= cross_max_from(ss, p, k + 1) {
            assert(cross_max_from(ss, p, k) == ss[k].samples_seq()[p].value);
        } else {
            let j = choose|j: int|
                k + 1 <= j < ss.len() && cross_max_from(ss, p, k + 1) == (
                #[trigger] ss[j].samples_seq()[p]).value;
            assert(cross_max_from(ss, p, k) == ss[j].samples_seq()[p].value);
        }
    }
}

/// A surviving filtered low is the cross-series minimum of some window
/// position before `p`, and passes the sentinel filter.
proof fn lemma_filtered_low_member(ss: Seq<MetricSeries>, p: int)
    ensures
        filtered_low_upto(ss, p) matches Some(m) ==> exists|q: int|
            0 <= q < p && m == #[trigger] cross_min(ss, q) && cross_min(ss, q)
                >= SENTINEL_THRESHOLD,
    decreases p,
{
    if p > 0 {
        lemma_filtered_low_member(ss, p - 1);
        let prev = filtered_low_upto(ss, p - 1);
        let m0 = cross_min(ss, p - 1);
        if m0 >= SENTINEL_THRESHOLD {
            match prev {
                Option::None => {
                    assert(filtered_low_upto(ss, p) == Some(m0));
                },
                Option::Some(x) => {
                    if x <= m0 {
                        let q = choose|q: int|
                            0 <= q < p - 1 && x == #[trigger] cross_min(ss, q) && cross_min(ss, q)
                                >= SENTINEL_THRESHOLD;
                        assert(filtered_low_upto(ss, p) == Some(cross_min(ss, q)));
                    } else {
                        assert(filtered_low_upto(ss, p) == Some(m0));
                    }
                },
            }
        }
    }
}

/// A surviving filtered high is the cross-series maximum of some window
/// position before `p`, and passes the sentinel filter.
proof fn lemma_filtered_high_member(ss: Seq<MetricSeries>, p: int)
    ensures
        filtered_high_upto(ss, p) matches Some(m) ==> exists|q: int|
            0 <= q < p && m == #[trigger] cross_max(ss, q) && cross_max(ss, q)
                >= SENTINEL_THRESHOLD,
    decreases p,
{
    if p > 0 {
        lemma_filtered_high_member(ss, p - 1);
        let prev = filtered_high_upto(ss, p - 1);
        let m0 = cross_max(ss, p - 1);
        if m0 >= SENTINEL_THRESHOLD {
            match prev {
                Option::None => {
                    assert(filtered_high_upto(ss, p) == Some(m0));
                },
                Option::Some(x) => {
                    if x >= m0 {
                        let q = choose|q: int|
                            0 <= q < p - 1 && x == #[trigger] cross_max(ss, q) && cross_max(ss, q)
                                >= SENTINEL_THRESHOLD;
                        assert(filtered_high_upto(ss, p) == Some(cross_max(ss, q)));
                    } else {
                        assert(filtered_high_upto(ss, p) == Some(m0));
                    }
                },
            }
        }
    }
}

/// Sentinel-filtering law: when every designated series reads below the
/// sentinel threshold at every window position, nothing survives the
/// filter and the calculator falls back to the full `[floor, ceiling]`
/// range.
pub proof fn lemma_sentinel_fallback(
    ss: Seq<MetricSeries>,
    cap: int,
    padding: i64,
    floor: i64,
    ceiling: i64,
)
    requires
        ss.len() >= 1,
        forall|j: int, p: int|
            0 <= j < ss.len() && 0 <= p < cap ==> (#[trigger] ss[j].samples_seq()[p]).value
                < SENTINEL_THRESHOLD,
    ensures
        spec_chart_low(ss, cap, padding, floor) == floor,
        spec_chart_high(ss, cap, padding, ceiling) == ceiling,
{
    lemma_all_sentinel_filters_none(ss, cap);
}

/// Under the hypotheses of `lemma_sentinel_fallback`, neither filter
/// lets any window position before `p` survive.
proof fn lemma_all_sentinel_filters_none(ss: Seq<MetricSeries>, p: int)
    requires
        ss.len() >= 1,
        forall|j: int, q: int|
            0 <= j < ss.len() && 0 <= q < p ==> (#[trigger] ss[j].samples_seq()[q]).value
                < SENTINEL_THRESHOLD,
    ensures
        filtered_low_upto(ss, p) is None,
        filtered_high_upto(ss, p) is None,
    decreases p,
{
    if p > 0 {
        lemma_all_sentinel_filters_none(ss, p - 1);
        lemma_cross_min_from_is_value(ss, p - 1, 0);
        lemma_cross_max_from_is_value(ss, p - 1, 0);
        assert(cross_min(ss, p - 1) < SENTINEL_THRESHOLD);
        assert(cross_max(ss, p - 1) < SENTINEL_THRESHOLD);
    }
}

/// Bounds-clamping law: wherever every real (above-threshold) reading
/// lies within the padded `[floor, ceiling]` band, both computed chart
/// bounds lie within `[floor, ceiling]` itself.
pub proof fn lemma_bounds_clamped(
    ss: Seq<MetricSeries>,
    cap: int,
    padding: i64,
    floor: i64,
    ceiling: i64,
)
    requires
        ss.len() >= 1,
        0 <= padding,
        floor <= ceiling,
        forall|j: int, p: int|
            0 <= j < ss.len() && 0 <= p < cap ==> ((#[trigger] ss[j].samples_seq()[p]).value
                >= SENTINEL_THRESHOLD ==> floor - padding <= ss[j].samples_seq()[p].value <= ceiling
                + padding),
    ensures
        floor <= spec_chart_low(ss, cap, padding, floor) <= ceiling,
        floor <= spec_chart_high(ss, cap, padding, ceiling) <= ceiling,
{
    lemma_filtered_low_member(ss, cap);
    lemma_filtered_high_member(ss, cap);
    match filtered_low_upto(ss, cap) {
        Option::None => {},
        Option::Some(m) => {
            let q = choose|q: int|
                0 <= q < cap && m == #[trigger] cross_min(ss, q) && cross_min(ss, q)
                    >= SENTINEL_THRESHOLD;
            lemma_cross_min_from_is_value(ss, q, 0);
            let j = choose|j: int|
                0 <= j < ss.len() && cross_min_from(ss, q, 0) == (
                #[trigger] ss[j].samples_seq()[q]).value;
            assert(floor - padding <= m <= ceiling + padding);
        },
    }
    match filtered_high_upto(ss, cap) {
        Option::None => {},
        Option::Some(m) => {
            let q = choose|q: int|
                0 <= q < cap && m == #[trigger] cross_max(ss, q) && cross_max(ss, q)
                    >= SENTINEL_THRESHOLD;
            lemma_cross_max_from_is_value(ss, q, 0);
            let j = choose|j: int|
                0 <= j < ss.len() && cross_max_from(ss, q, 0) == (
                #[trigger] ss[j].samples_seq()[q]).value;
            assert(floor - padding <= m <= ceiling + padding);
        },
    }
}

} // verus!
