//! The clock.
use vstd::prelude::*;

verus! {

/// The last second that the calendar reaches, in Unix time.
pub const LAST_SECOND: i64 = 8_210_266_876_799;

/// A point in time, in Unix time.
#[derive(Clone, Copy, Debug, PartialEq, Eq, Structural)]
pub struct Moment {
    pub seconds: i64,
    pub nanos: u32,
}

impl Moment {
    /// The calendar reaches the moment.
    pub open spec fn wf(self) -> bool {
        0 <= self.seconds <= LAST_SECOND && self.nanos < 1_000_000_000
    }
}

/// A reading of the clock. Only [`utc_now`] makes one, and it cannot be copied:
/// who holds a reading has it from the clock, and two readings are two looks at
/// the clock.
#[derive(Debug)]
pub struct Reading {
    moment: Moment,
}

impl Reading {
    /// When the clock was read.
    pub closed spec fn at(self) -> Moment {
        self.moment
    }

    /// When the clock was read.
    pub fn moment(&self) -> (moment: Moment)
        ensures
            moment == self.at(),
    {
        self.moment
    }
}

/// A reading is of the moment that the clock gave.
proof fn readings_are_of_the_clock(reading: Reading)
    ensures
        reading.at().seconds == reading.moment.seconds,
        reading.at().nanos == reading.moment.nanos,
{
}

/// The current moment.
///
/// Calls `Utc::now`, `DateTime::timestamp` and
/// `DateTime::timestamp_subsec_nanos` of `chrono`. Trusted: the calendar reaches
/// the moment. Nothing else is claimed of it, since it depends on the clock.
#[verifier::external_body]
pub(crate) fn utc_now() -> (now: Reading)
    ensures
        now.at().wf(),
{
    let now = chrono::Utc::now();
    Reading { moment: Moment { seconds: now.timestamp(), nanos: now.timestamp_subsec_nanos() } }
}

} // verus!
