//! A snapshot of current readings: the named values a sensor sweep
//! produced, with the sentinel substituted for any metric it lacks.

use crate::series::SENTINEL_VALUE;
use vstd::prelude::*;

verus! {

/// One named reading, in hundredths of a unit.
pub struct Reading {
    pub name: String,
    pub value: i64,
}

/// A set of named readings taken at one poll. A metric absent from the
/// snapshot reads as the sentinel value.
pub struct Snapshot {
    pub readings: Vec<Reading>,
}

/// The value of the first reading named `name` at or after position `k`,
/// or the sentinel if none is.
pub open spec fn value_from(readings: Seq<Reading>, name: Seq<char>, k: int) -> i64
    decreases readings.len() - k,
{
    if k < 0 || k >= readings.len() {
        SENTINEL_VALUE
    } else if readings[k].name@ == name {
        readings[k].value
    } else {
        value_from(readings, name, k + 1)
    }
}

/// The value the snapshot reports for `name`: its first reading so
/// named, or the sentinel if it has none.
pub open spec fn spec_value_of(readings: Seq<Reading>, name: Seq<char>) -> i64 {
    value_from(readings, name, 0)
}

impl Snapshot {
    /// A snapshot with no readings: every metric reads as the sentinel.
    pub fn new() -> (s: Snapshot)
        ensures
            s.readings@.len() == 0,
    {
        Snapshot { readings: Vec::new() }
    }

    /// Appends a reading for `name`.
    pub fn push(&mut self, name: String, value: i64)
        ensures
            final(self).readings@ == old(self).readings@.push(Reading { name, value }),
    {
        self.readings.push(Reading { name, value });
    }

    /// The value reported for `name`, or the sentinel if the snapshot
    /// holds no reading so named.
    pub fn value_of(&self, name: &String) -> (v: i64)
        ensures
            v == spec_value_of(self.readings@, name@),
    {
        let n = self.readings.len();
        let mut k: usize = 0;
        while k < n
            invariant
                n == self.readings@.len(),
                k <= n,
                spec_value_of(self.readings@, name@) == value_from(self.readings@, name@, k as int),
            decreases n - k,
        {
            let r = &self.readings[k];
            if r.name == *name {
                return r.value;
            }
            k = k + 1;
        }
        SENTINEL_VALUE
    }
}

} // verus!
