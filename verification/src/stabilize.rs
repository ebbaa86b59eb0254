//! The integer side of gyroscope-based stabilization: checking that a
//! gyro log is usable, and finding the samples that bracket a query time.
//! The orientation math itself is floating point and lives with the
//! renderer.

use vstd::prelude::*;

verus! {

/// Why a gyro log cannot be used.
#[derive(Debug, Clone, Copy, PartialEq, Eq, Structural)]
pub enum GyroError {
    /// The log has no samples.
    Empty,
    /// The samples' timestamps do not strictly increase.
    Unsorted,
}

/// Whether every timestamp is smaller than the next one.
pub open spec fn strictly_increasing(ts: Seq<i64>) -> bool {
    forall|i: int| 0 <= i < ts.len() - 1 ==> #[trigger] ts[i] < ts[i + 1]
}

/// Checks a gyro log's timestamps: a log needs at least one sample, and
/// strictly increasing timestamps.
pub fn check_gyro_timestamps(ts: &Vec<i64>) -> (r: Result<(), GyroError>)
    ensures
        ts.len() == 0 ==> r == Err::<(), GyroError>(GyroError::Empty),
        ts.len() > 0 && strictly_increasing(ts@) ==> r is Ok,
        ts.len() > 0 && !strictly_increasing(ts@) ==> r == Err::<(), GyroError>(GyroError::Unsorted),
{
    if ts.len() == 0 {
        return Err(GyroError::Empty);
    }
    let mut i: usize = 0;
    while i + 1 < ts.len()
        invariant
            i < ts.len(),
            forall|j: int| 0 <= j < i ==> #[trigger] ts@[j] < ts@[j + 1],
        decreases ts.len() - i,
    {
        if ts[i] >= ts[i + 1] {
            return Err(GyroError::Unsorted);
        }
        i = i + 1;
    }
    Ok(())
}

/// Where a query time falls in a log.
#[derive(Debug, Clone, Copy, PartialEq, Eq, Structural)]
pub enum Bracket {
    /// At or before the first sample.
    Start,
    /// At or after the last sample.
    End,
    /// Between sample `i` (included) and sample `i + 1` (excluded).
    Between(usize),
}

/// Where `t` falls among strictly increasing timestamps: before or at the
/// first, at or after the last, or else between the two samples that
/// bracket it (found by binary search).
pub fn bracket_at(ts: &Vec<i64>, t: i64) -> (b: Bracket)
    requires
        ts.len() > 0,
        strictly_increasing(ts@),
    ensures
        t <= ts@[0] ==> b == Bracket::Start,
        ts@[0] < t && t >= ts@.last() ==> b == Bracket::End,
        ts@[0] < t && t < ts@.last() ==> (b matches Bracket::Between(i) && i + 1 < ts.len() && ts@[i as int] <= t
            < ts@[i + 1]),
{
    let n = ts.len();
    if t <= ts[0] {
        return Bracket::Start;
    }
    if t >= ts[n - 1] {
        return Bracket::End;
    }
    let mut lo: usize = 0;
    let mut hi: usize = n - 1;
    while lo + 1 < hi
        invariant
            n == ts.len(),
            strictly_increasing(ts@),
            lo < hi <= n - 1,
            ts@[lo as int] <= t,
            t < ts@[hi as int],
        decreases hi - lo,
    {
        let mid = lo + (hi - lo) / 2;
        if ts[mid] <= t {
            lo = mid;
        } else {
            hi = mid;
        }
    }
    Bracket::Between(lo)
}

impl GyroError {
    /// What the error says.
    pub open spec fn message_text(self) -> Seq<char> {
        match self {
            GyroError::Empty => "gyro log is empty"@,
            GyroError::Unsorted => "gyro samples are not sorted by ascending timestamp"@,
        }
    }

    /// What the error says.
    pub fn message(self) -> (s: &'static str)
        ensures
            s@ == self.message_text(),
    {
        match self {
            GyroError::Empty => "gyro log is empty",
            GyroError::Unsorted => "gyro samples are not sorted by ascending timestamp",
        }
    }
}

} // verus!
