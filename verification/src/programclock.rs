//! Process-wide monotonic time, reported as an elapsed duration from a fixed
//! epoch so that instants are plain serializable values that any number of
//! clock generators can share.

use vstd::prelude::*;

verus! {

/// Largest program time the timing arithmetic is specified for.  The clock
/// would need to run for well over a century to reach it.
pub const MAX_PROGRAM_NANOS: u64 = 0x4000_0000_0000_0000;

/// An elapsed duration since the process-wide epoch, with nanosecond
/// resolution.
#[derive(Clone, Copy, Debug, PartialEq, Eq, Structural)]
pub struct ProgramTime {
    pub nanos: u64,
}

impl ProgramTime {
    pub fn from_nanos(nanos: u64) -> (r: ProgramTime)
        ensures
            r.nanos == nanos,
    {
        ProgramTime { nanos }
    }
}

#[verifier::external_type_specification]
#[verifier::external_body]
pub struct ExInstant(std::time::Instant);

/// A monotonic clock with a fixed epoch.  Meant to be created once at process
/// start and then only read; `now` reports the time elapsed since creation.
#[derive(Clone, Copy)]
pub struct ProgramClock {
    epoch: std::time::Instant,
}

impl ProgramClock {
    /// Relies on std::time::Instant::now to capture the epoch.
    #[verifier::external_body]
    pub fn new() -> ProgramClock {
        ProgramClock { epoch: std::time::Instant::now() }
    }

    /// Relies on std::time::Instant::elapsed: the monotonic time since the
    /// epoch, truncated to whole nanoseconds.
    #[verifier::external_body]
    pub fn now(&self) -> ProgramTime {
        let nanos = self.epoch.elapsed().as_nanos();
        ProgramTime { nanos: u64::try_from(nanos).unwrap_or(u64::MAX) }
    }

    /// The current time, clamped to the range the timing arithmetic is
    /// specified for.
    pub fn now_clamped(&self) -> (r: ProgramTime)
        ensures
            r.nanos <= MAX_PROGRAM_NANOS,
    {
        let t = self.now();
        if t.nanos > MAX_PROGRAM_NANOS {
            ProgramTime { nanos: MAX_PROGRAM_NANOS }
        } else {
            t
        }
    }
}

} // verus!
