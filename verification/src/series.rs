//! A fixed-capacity sliding window of samples for one metric, together
//! with the all-time extrema of every value observed since creation.

use crate::max_i64;
use crate::min_i64;
use crate::ConfigError;
use vstd::prelude::*;

verus! {

/// Value recorded for a metric that is unavailable or not yet sampled.
pub const SENTINEL_VALUE: i64 = 0;

/// One retained observation: the tick index at which it was taken and
/// the value read, in hundredths of a unit.
#[derive(Clone, Copy, Debug, PartialEq, Eq, Structural)]
pub struct Sample {
    pub tick: u64,
    pub value: i64,
}

/// The sample sequence a freshly initialized series holds: `capacity - 1`
/// placeholder samples at the sentinel value, then one real sample.
pub open spec fn initial_samples(capacity: nat, first_value: i64) -> Seq<Sample> {
    Seq::new(capacity, |i: int| Sample {
        tick: i as u64,
        value: if i + 1 == capacity {
            first_value
        } else {
            SENTINEL_VALUE
        },
    })
}

/// The sample sequence after one advance: the oldest sample is evicted
/// and a new one is appended at the next tick index.
pub open spec fn advanced_samples(s: Seq<Sample>, next_value: i64) -> Seq<Sample> {
    s.skip(1).push(Sample { tick: (s.last().tick + 1) as u64, value: next_value })
}

/// A sliding window of exactly `capacity` samples for one metric, plus
/// the minimum and maximum value ever observed (placeholders excluded).
pub struct MetricSeries {
    capacity: usize,
    samples: Vec<Sample>,
    running_min: i64,
    running_max: i64,
    observed: Ghost<Seq<i64>>,
}

impl MetricSeries {
    /// The number of samples this series always retains.
    pub closed spec fn cap(self) -> nat {
        self.capacity as nat
    }

    /// The retained samples, oldest first.
    pub closed spec fn samples_seq(self) -> Seq<Sample> {
        self.samples@
    }

    /// The minimum value observed since creation.
    pub closed spec fn min_spec(self) -> i64 {
        self.running_min
    }

    /// The maximum value observed since creation.
    pub closed spec fn max_spec(self) -> i64 {
        self.running_max
    }

    /// Every real (non-placeholder) value handed to this series so far,
    /// in order of observation.
    pub closed spec fn observed_seq(self) -> Seq<i64> {
        self.observed@
    }

    /// The tick index of the newest sample.
    pub open spec fn newest_tick(self) -> int {
        self.samples_seq().last().tick as int
    }

    /// The tick index of the oldest sample.
    pub open spec fn oldest_tick(self) -> int {
        self.samples_seq()[0].tick as int
    }

    /// Tick indices rise by exactly one from each sample to the next.
    pub open spec fn ticks_consecutive(self) -> bool {
        forall|i: int|
            0 <= i < self.samples_seq().len() ==> (#[trigger] self.samples_seq()[i].tick) as int
                == self.oldest_tick() + i
    }

    /// The running extrema bound every observed value, are themselves
    /// observed values, and the newest sample is the latest observation.
    pub open spec fn extrema_ok(self) -> bool {
        &&& self.observed_seq().len() >= 1
        &&& forall|i: int|
            0 <= i < self.observed_seq().len() ==> self.min_spec() <= (
            #[trigger] self.observed_seq()[i]) <= self.max_spec()
        &&& self.observed_seq().contains(self.min_spec())
        &&& self.observed_seq().contains(self.max_spec())
        &&& self.samples_seq().last().value == self.observed_seq().last()
    }

    /// Well-formedness: the window always holds exactly `capacity`
    /// samples at consecutive tick indices, and the extrema are sound.
    pub open spec fn wf(self) -> bool {
        &&& self.cap() >= 1
        &&& self.samples_seq().len() == self.cap()
        &&& self.ticks_consecutive()
        &&& self.extrema_ok()
    }

    /// What a freshly initialized series of the given capacity and
    /// first real value looks like.
    pub open spec fn is_initial(self, capacity: nat, first_value: i64) -> bool {
        &&& self.cap() == capacity
        &&& self.samples_seq() == initial_samples(capacity, first_value)
        &&& self.min_spec() == first_value
        &&& self.max_spec() == first_value
        &&& self.observed_seq() == seq![first_value]
    }

    /// How a series after `advance(next_value)` relates to the series
    /// before the call.
    pub open spec fn is_advance_of(self, pre: MetricSeries, next_value: i64) -> bool {
        &&& self.cap() == pre.cap()
        &&& self.samples_seq() == advanced_samples(pre.samples_seq(), next_value)
        &&& self.min_spec() == min_i64(pre.min_spec(), next_value)
        &&& self.max_spec() == max_i64(pre.max_spec(), next_value)
        &&& self.observed_seq() == pre.observed_seq().push(next_value)
    }

    /// Creates a series of `capacity` samples: `capacity - 1` sentinel
    /// placeholders at tick indices `0 .. capacity - 1`, then one real
    /// sample `first_value` at tick index `capacity - 1`. Both extrema
    /// start at `first_value`. Fails only if `capacity < 1`.
    pub fn initialize(capacity: usize, first_value: i64) -> (r: Result<MetricSeries, ConfigError>)
        ensures
            r is Ok <==> capacity >= 1,
            r is Err ==> r == Result::<MetricSeries, ConfigError>::Err(ConfigError::InvalidCapacity),
            r is Ok ==> {
                let s = r->Ok_0;
                &&& s.wf()
                &&& s.is_initial(capacity as nat, first_value)
            },
    {
        if capacity < 1 {
            return Err(ConfigError::InvalidCapacity);
        }
        let mut samples: Vec<Sample> = Vec::new();
        let mut i: usize = 0;
        while i < capacity - 1
            invariant
                i <= capacity - 1,
                capacity >= 1,
                samples@.len() == i,
                forall|j: int|
                    0 <= j < i ==> #[trigger] samples@[j] == (Sample {
                        tick: j as u64,
                        value: SENTINEL_VALUE,
                    }),
            decreases capacity - 1 - i,
        {
            samples.push(Sample { tick: i as u64, value: SENTINEL_VALUE });
            i = i + 1;
        }
        samples.push(Sample { tick: (capacity - 1) as u64, value: first_value });
        let ghost obs: Seq<i64> = seq![first_value];
        let s = MetricSeries {
            capacity,
            samples,
            running_min: first_value,
            running_max: first_value,
            observed: Ghost(obs),
        };
        proof {
            assert(s.samples_seq() =~= initial_samples(capacity as nat, first_value));
            assert(s.observed_seq()[0] == first_value);
        }
        Ok(s)
    }

    /// Evicts the oldest sample, appends `next_value` at the next tick
    /// index, and folds `next_value` into the running extrema.
    pub fn advance(&mut self, next_value: i64)
        requires
            old(self).wf(),
            old(self).newest_tick() < u64::MAX,
        ensures
            final(self).wf(),
            final(self).is_advance_of(*old(self), next_value),
            final(self).min_spec() <= next_value <= final(self).max_spec(),
    {
        let len = self.samples.len();
        let last_tick = self.samples[len - 1].tick;
        self.samples.remove(0);
        self.samples.push(Sample { tick: last_tick + 1, value: next_value });
        if next_value < self.running_min {
            self.running_min = next_value;
        }
        if next_value > self.running_max {
            self.running_max = next_value;
        }
        proof {
            self.observed@ = old(self).observed@.push(next_value);
            assert(self.samples_seq() =~= advanced_samples(old(self).samples_seq(), next_value));
            let obs = self.observed_seq();
            assert forall|i: int| 0 <= i < obs.len() implies self.min_spec() <= (#[trigger] obs[i])
                <= self.max_spec() by {
                if i < obs.len() - 1 {
                    assert(obs[i] == old(self).observed_seq()[i]);
                }
            }
            if self.min_spec() == old(self).min_spec() {
                let k = choose|k: int|
                    0 <= k < old(self).observed_seq().len() && old(self).observed_seq()[k] == old(
                        self,
                    ).min_spec();
                assert(obs[k] == self.min_spec());
            } else {
                assert(obs[obs.len() - 1] == self.min_spec());
            }
            if self.max_spec() == old(self).max_spec() {
                let k = choose|k: int|
                    0 <= k < old(self).observed_seq().len() && old(self).observed_seq()[k] == old(
                        self,
                    ).max_spec();
                assert(obs[k] == self.max_spec());
            } else {
                assert(obs[obs.len() - 1] == self.max_spec());
            }
        }
    }

    /// The most recent sample's value.
    pub fn latest(&self) -> (v: i64)
        requires
            self.wf(),
        ensures
            v == self.samples_seq().last().value,
    {
        let len = self.samples.len();
        self.samples[len - 1].value
    }

    /// The all-time `(running_min, running_max)` pair.
    pub fn range(&self) -> (r: (i64, i64))
        ensures
            r.0 == self.min_spec(),
            r.1 == self.max_spec(),
    {
        (self.running_min, self.running_max)
    }

    /// The number of samples this series retains.
    pub fn capacity(&self) -> (c: usize)
        ensures
            c == self.cap(),
    {
        self.capacity
    }

    /// The retained samples, oldest first, for rendering.
    pub fn samples(&self) -> (s: &Vec<Sample>)
        ensures
            s@ == self.samples_seq(),
    {
        &self.samples
    }

    /// All-time extrema law: every value this series has ever observed
    /// lies between `running_min` and `running_max`, and both extrema
    /// were themselves observed.
    pub proof fn lemma_all_time_extrema(self)
        requires
            self.wf(),
        ensures
            forall|i: int|
                0 <= i < self.observed_seq().len() ==> self.min_spec() <= (
                #[trigger] self.observed_seq()[i]) <= self.max_spec(),
            self.min_spec() <= self.max_spec(),
            self.min_spec() <= self.samples_seq().last().value <= self.max_spec(),
    {
        let k = choose|k: int|
            0 <= k < self.observed_seq().len() && self.observed_seq()[k] == self.min_spec();
        assert(self.min_spec() <= self.observed_seq()[k] <= self.max_spec());
        assert(self.samples_seq().last().value == self.observed_seq()[self.observed_seq().len()
            - 1]);
    }
}

} // verus!
