//! The telemetry store: one metric series per tracked metric, all
//! advanced in lockstep, plus the shared tick window for the chart's
//! x-axis.

use crate::series::initial_samples;
use crate::series::MetricSeries;
use crate::snapshot::spec_value_of;
use crate::snapshot::Snapshot;
use crate::ConfigError;
use vstd::prelude::*;

verus! {

/// The position of the first name at or after `k` whose view is `name`,
/// or `None` if no later name matches.
pub open spec fn name_index_from(names: Seq<String>, name: Seq<char>, k: int) -> Option<int>
    decreases names.len() - k,
{
    if k < 0 || k >= names.len() {
        None
    } else if names[k]@ == name {
        Some(k)
    } else {
        name_index_from(names, name, k + 1)
    }
}

/// The window capacity derived from the poll interval and the retained
/// duration: their integer ratio, clamped to a minimum of one.
pub open spec fn derived_capacity(interval_ms: u64, window_duration_ms: u64) -> int {
    if window_duration_ms / interval_ms < 1 {
        1
    } else {
        (window_duration_ms / interval_ms) as int
    }
}

/// Owns one series per tracked metric; every series shares the same
/// capacity and the same current tick window `[start, end]`.
pub struct TelemetryStore {
    capacity: usize,
    names: Vec<String>,
    series: Vec<MetricSeries>,
    window_start: u64,
    window_end: u64,
}

impl TelemetryStore {
    /// The capacity every managed series retains.
    pub closed spec fn cap(self) -> nat {
        self.capacity as nat
    }

    /// The tracked metric names, in registration order.
    pub closed spec fn names_seq(self) -> Seq<String> {
        self.names@
    }

    /// The managed series, aligned with `names_seq`.
    pub closed spec fn series_seq(self) -> Seq<MetricSeries> {
        self.series@
    }

    /// The tick index at the left edge of the current window.
    pub closed spec fn window_start_spec(self) -> u64 {
        self.window_start
    }

    /// The tick index at the right edge of the current window.
    pub closed spec fn window_end_spec(self) -> u64 {
        self.window_end
    }

    /// Well-formedness: names and series stay aligned, every series is
    /// well-formed with the shared capacity, every series' newest
    /// sample sits at the window's right edge, and the window spans
    /// exactly `capacity` tick indices.
    pub open spec fn wf(self) -> bool {
        &&& self.cap() >= 1
        &&& self.window_start_spec() <= self.window_end_spec()
        &&& self.window_end_spec() - self.window_start_spec() + 1 == self.cap()
        &&& self.names_seq().len() == self.series_seq().len()
        &&& forall|i: int|
            0 <= i < self.series_seq().len() ==> (#[trigger] self.series_seq()[i]).wf()
        &&& forall|i: int|
            0 <= i < self.series_seq().len() ==> (#[trigger] self.series_seq()[i]).cap()
                == self.cap()
        &&& forall|i: int|
            0 <= i < self.series_seq().len() ==> (#[trigger] self.series_seq()[i]).newest_tick()
                == self.window_end_spec()
    }

    /// Derives `capacity` from the timing configuration, then creates
    /// one series per metric name from the initial snapshot's value for
    /// that name (the sentinel where the snapshot lacks it). The window
    /// starts at `[0, capacity - 1]`. Fails only on a zero interval.
    pub fn initialize(
        metric_names: Vec<String>,
        interval_ms: u64,
        window_duration_ms: u64,
        snapshot: &Snapshot,
    ) -> (r: Result<TelemetryStore, ConfigError>)
        requires
            interval_ms > 0 ==> derived_capacity(interval_ms, window_duration_ms) <= usize::MAX,
        ensures
            r is Ok <==> interval_ms > 0,
            r is Err ==> r == Result::<TelemetryStore, ConfigError>::Err(ConfigError::ZeroInterval),
            r is Ok ==> {
                let s = r->Ok_0;
                &&& s.wf()
                &&& s.cap() == derived_capacity(interval_ms, window_duration_ms)
                &&& s.window_start_spec() == 0
                &&& s.window_end_spec() == s.cap() - 1
                &&& s.names_seq() == metric_names@
                &&& forall|i: int|
                    0 <= i < metric_names@.len() ==> (#[trigger] s.series_seq()[i]).is_initial(
                        s.cap(),
                        spec_value_of(snapshot.readings@, metric_names@[i]@),
                    )
            },
    {
        if interval_ms == 0 {
            return Err(ConfigError::ZeroInterval);
        }
        let ratio: u64 = window_duration_ms / interval_ms;
        let ratio: u64 = if ratio < 1 {
            1
        } else {
            ratio
        };
        let capacity: usize = ratio as usize;
        let mut series: Vec<MetricSeries> = Vec::new();
        let mut i: usize = 0;
        while i < metric_names.len()
            invariant
                capacity >= 1,
                capacity == derived_capacity(interval_ms, window_duration_ms),
                i <= metric_names@.len(),
                series@.len() == i,
                forall|j: int|
                    0 <= j < i ==> (#[trigger] series@[j]).is_initial(
                        capacity as nat,
                        spec_value_of(snapshot.readings@, metric_names@[j]@),
                    ),
                forall|j: int| 0 <= j < i ==> (#[trigger] series@[j]).wf(),
            decreases metric_names@.len() - i,
        {
            let v = snapshot.value_of(&metric_names[i]);
            let s = match MetricSeries::initialize(capacity, v) {
                Ok(s) => s,
                Err(e) => {
                    proof {
                        assert(false);
                    }
                    return Err(e);
                },
            };
            series.push(s);
            i = i + 1;
        }
        let store = TelemetryStore {
            capacity,
            names: metric_names,
            series,
            window_start: 0,
            window_end: capacity as u64 - 1,
        };
        proof {
            assert forall|i: int| 0 <= i < store.series_seq().len() implies (
            #[trigger] store.series_seq()[i]).newest_tick() == store.window_end_spec() by {
                let ss = store.series_seq()[i].samples_seq();
                assert(ss == initial_samples(
                    capacity as nat,
                    spec_value_of(snapshot.readings@, store.names_seq()[i]@),
                ));
                assert(ss.last().tick == (capacity - 1) as u64);
            }
        }
        Ok(store)
    }

    /// Advances every managed series with the snapshot's value for its
    /// metric name, then moves both window edges forward by one tick.
    pub fn tick(&mut self, snapshot: &Snapshot)
        requires
            old(self).wf(),
            old(self).window_end_spec() < u64::MAX,
        ensures
            final(self).wf(),
            final(self).cap() == old(self).cap(),
            final(self).names_seq() == old(self).names_seq(),
            final(self).window_start_spec() == old(self).window_start_spec() + 1,
            final(self).window_end_spec() == old(self).window_end_spec() + 1,
            final(self).series_seq().len() == old(self).series_seq().len(),
            forall|i: int|
                0 <= i < old(self).series_seq().len() ==> (
                #[trigger] final(self).series_seq()[i]).is_advance_of(
                    old(self).series_seq()[i],
                    spec_value_of(snapshot.readings@, old(self).names_seq()[i]@),
                ),
    {
        let n = self.series.len();
        let mut i: usize = 0;
        while i < n
            invariant
                n == self.series@.len(),
                n == self.names@.len(),
                i <= n,
                self.capacity == old(self).capacity,
                self.names@ == old(self).names@,
                self.window_start == old(self).window_start,
                self.window_end == old(self).window_end,
                old(self).wf(),
                old(self).window_end_spec() < u64::MAX,
                forall|j: int|
                    i <= j < n ==> #[trigger] self.series@[j] == old(self).series@[j],
                forall|j: int|
                    0 <= j < i ==> (#[trigger] self.series@[j]).is_advance_of(
                        old(self).series@[j],
                        spec_value_of(snapshot.readings@, old(self).names@[j]@),
                    ),
                forall|j: int| 0 <= j < i ==> (#[trigger] self.series@[j]).wf(),
            decreases n - i,
        {
            proof {
                assert(self.series@[i as int] == old(self).series_seq()[i as int]);
                assert(old(self).series_seq()[i as int].wf());
                assert(old(self).series_seq()[i as int].newest_tick() == old(
                    self,
                ).window_end_spec());
            }
            let v = snapshot.value_of(&self.names[i]);
            self.series[i].advance(v);
            i = i + 1;
        }
        self.window_start = self.window_start + 1;
        self.window_end = self.window_end + 1;
        proof {
            assert forall|i: int| 0 <= i < self.series_seq().len() implies (
            #[trigger] self.series_seq()[i]).newest_tick() == self.window_end_spec() by {
                let pre = old(self).series_seq()[i];
                assert(pre.samples_seq().len() == pre.cap() >= 1);
            }
        }
    }

    /// The capacity shared by every managed series.
    pub fn capacity(&self) -> (c: usize)
        ensures
            c == self.cap(),
    {
        self.capacity
    }

    /// The number of tracked metrics.
    pub fn metric_count(&self) -> (n: usize)
        ensures
            n == self.series_seq().len(),
    {
        self.series.len()
    }

    /// The series at position `i`, for rendering.
    pub fn series_at(&self, i: usize) -> (s: &MetricSeries)
        requires
            i < self.series_seq().len(),
        ensures
            *s == self.series_seq()[i as int],
    {
        &self.series[i]
    }

    /// The metric name at position `i`.
    pub fn name_at(&self, i: usize) -> (n: &String)
        requires
            i < self.names_seq().len(),
        ensures
            *n == self.names_seq()[i as int],
    {
        &self.names[i]
    }

    /// A read-only handle on the series for `metric_name`: the first
    /// series registered under that name, or `None` if the name is not
    /// tracked.
    pub fn view_series(&self, metric_name: &String) -> (r: Option<&MetricSeries>)
        requires
            self.wf(),
        ensures
            r is Some <==> name_index_from(self.names_seq(), metric_name@, 0) is Some,
            r is Some ==> *r->Some_0 == self.series_seq()[name_index_from(
                self.names_seq(),
                metric_name@,
                0,
            )->Some_0],
    {
        let n = self.names.len();
        let mut k: usize = 0;
        while k < n
            invariant
                self.wf(),
                n == self.names@.len(),
                k <= n,
                name_index_from(self.names@, metric_name@, 0) == name_index_from(
                    self.names@,
                    metric_name@,
                    k as int,
                ),
            decreases n - k,
        {
            if self.names[k] == *metric_name {
                return Some(&self.series[k]);
            }
            k = k + 1;
        }
        None
    }

    /// The current tick-domain bounds `[start, end]`, for the chart's
    /// x-axis.
    pub fn window(&self) -> (w: (u64, u64))
        ensures
            w.0 == self.window_start_spec(),
            w.1 == self.window_end_spec(),
    {
        (self.window_start, self.window_end)
    }

    /// Fixed-length law: in a well-formed store every managed series
    /// holds exactly `capacity` samples, never fewer and never more.
    pub proof fn lemma_fixed_length(self)
        requires
            self.wf(),
        ensures
            forall|i: int|
                0 <= i < self.series_seq().len() ==> (
                #[trigger] self.series_seq()[i]).samples_seq().len() == self.cap(),
    {
    }

    /// Synchronized-domain law: in a well-formed store every series'
    /// newest sample sits at tick `window.end` and its oldest at
    /// `window.end - capacity + 1`, which is `window.start`.
    pub proof fn lemma_synchronized_domain(self)
        requires
            self.wf(),
        ensures
            forall|i: int|
                0 <= i < self.series_seq().len() ==> (
                #[trigger] self.series_seq()[i]).newest_tick() == self.window_end_spec(),
            forall|i: int|
                0 <= i < self.series_seq().len() ==> (
                #[trigger] self.series_seq()[i]).oldest_tick() == self.window_end_spec() - self.cap()
                    + 1,
            forall|i: int|
                0 <= i < self.series_seq().len() ==> (
                #[trigger] self.series_seq()[i]).oldest_tick() == self.window_start_spec(),
    {
        assert forall|i: int| 0 <= i < self.series_seq().len() implies (
        #[trigger] self.series_seq()[i]).oldest_tick() == self.window_end_spec() - self.cap()
            + 1 by {
            let s = self.series_seq()[i];
            let len = s.samples_seq().len();
            assert(s.samples_seq()[len - 1].tick as int == s.oldest_tick() + len - 1);
        }
    }

    /// Window-width law: a well-formed store's window spans exactly
    /// `capacity` tick indices, so `end - start == capacity - 1`.
    pub proof fn lemma_window_width(self)
        requires
            self.wf(),
        ensures
            self.window_end_spec() - self.window_start_spec() == self.cap() - 1,
    {
    }
}

} // verus!
