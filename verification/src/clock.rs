//! The system clock, and spans of time.

use vstd::prelude::*;

verus! {

/// A span of time.
#[derive(Debug, Clone, Copy, PartialEq, Eq, Structural)]
pub struct Delay {
    pub secs: u64,
    pub nanos: u32,
}

/// The span of a number of milliseconds.
pub open spec fn millis(ms: u64) -> Delay {
    Delay { secs: ms / 1000, nanos: ((ms % 1000) * 1_000_000) as u32 }
}

impl Delay {
    /// The span in nanoseconds.
    pub open spec fn view(&self) -> int {
        self.secs * 1_000_000_000 + self.nanos
    }

    pub fn from_millis(ms: u64) -> (r: Delay)
        ensures
            r == millis(ms),
            r@ == ms * 1_000_000,
    {
        Delay { secs: ms / 1000, nanos: (ms % 1000) as u32 * 1_000_000 }
    }

    pub fn from_secs(secs: u64) -> (r: Delay)
        ensures
            r == (Delay { secs, nanos: 0 }),
    {
        Delay { secs, nanos: 0 }
    }
}

/// The longest span.
pub open spec fn longest() -> Delay {
    Delay { secs: u64::MAX, nanos: 999_999_999 }
}

/// A moment, as its distance from the Unix epoch.
#[derive(Debug, Clone, Copy, PartialEq, Eq, Structural)]
pub struct Moment {
    /// The moment lies before the epoch.
    pub before_epoch: bool,
    pub secs: u64,
    pub nanos: u32,
}

impl Moment {
    pub open spec fn wf(&self) -> bool {
        self.nanos < 1_000_000_000
    }

    /// The nanoseconds since the epoch, negative before it.
    pub open spec fn view(&self) -> int {
        let distance = self.secs * 1_000_000_000 + self.nanos;
        if self.before_epoch {
            -distance
        } else {
            distance
        }
    }
}

/// Reads the system clock with `SystemTime::now`. Its distance from the epoch
/// comes from `SystemTime::duration_since`: of the result where the clock stands
/// at or after the epoch, and of the error where it stands before it. What the
/// clock shows is not stated.
#[verifier::external_body]
pub(crate) fn now() -> (r: Moment)
    ensures
        r.wf(),
{
    match std::time::SystemTime::now().duration_since(std::time::UNIX_EPOCH) {
        Ok(d) => Moment { before_epoch: false, secs: d.as_secs(), nanos: d.subsec_nanos() },
        Err(e) => Moment {
            before_epoch: true,
            secs: e.duration().as_secs(),
            nanos: e.duration().subsec_nanos(),
        },
    }
}

/// The span of a number of nanoseconds, or the longest span where there are more
/// than a span can hold.
pub open spec fn span_of(nanos: int) -> Delay {
    if nanos > longest()@ {
        longest()
    } else {
        Delay { secs: (nanos / 1_000_000_000) as u64, nanos: (nanos % 1_000_000_000) as u32 }
    }
}

/// The span from one moment to a later full second after the epoch.
pub open spec fn span_until(secs: u64, from: Moment) -> Option<Delay> {
    let nanos = secs * 1_000_000_000 - from@;
    if nanos < 0 {
        None
    } else {
        Some(span_of(nanos))
    }
}

/// The span from one moment to a later full second after the epoch, if that is
/// not past.
pub fn until(secs: u64, from: Moment) -> (r: Option<Delay>)
    requires
        from.wf(),
    ensures
        r == span_until(secs, from),
        r matches Some(d) ==> (secs * 1_000_000_000 - from@ <= longest()@ ==> d@ == secs
            * 1_000_000_000 - from@),
{
    if from.before_epoch {
        match secs.checked_add(from.secs) {
            Some(total) => Some(Delay { secs: total, nanos: from.nanos }),
            None => Some(Delay { secs: u64::MAX, nanos: 999_999_999 }),
        }
    } else if secs < from.secs || (secs == from.secs && from.nanos > 0) {
        None
    } else if from.nanos == 0 {
        Some(Delay { secs: secs - from.secs, nanos: 0 })
    } else {
        Some(Delay { secs: secs - from.secs - 1, nanos: 1_000_000_000 - from.nanos })
    }
}

/// The full seconds since the epoch; zero before it.
pub open spec fn seconds_since_epoch(at: Moment) -> i64 {
    if at.before_epoch {
        0
    } else {
        at.secs as i64
    }
}

/// The full seconds since the epoch; zero before it.
pub fn unix_seconds(at: Moment) -> (r: i64)
    ensures
        r == seconds_since_epoch(at),
{
    if at.before_epoch {
        0
    } else {
        #[verifier::truncate]
        (at.secs as i64)
    }
}

} // verus!
