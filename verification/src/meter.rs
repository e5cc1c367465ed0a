//! The meter: an append-only log of dated readings.

use vstd::prelude::*;
use crate::calendar::current_time;
use crate::error::{refused, MeterError};
use crate::reading::{Reading, Timestamp, SECONDS_PER_DAY};
use crate::source::{draw_reading, plausible_reading};

verus! {

/// Whether the readings of `history` are one period apart: each is dated as
/// many periods after the first as it stands behind it.
pub open spec fn daily(history: Seq<Reading>) -> bool {
    forall|i: int|
        0 <= i < history.len() ==> (#[trigger] history[i]).timestamp.secs
            == history[0].timestamp.secs + i * SECONDS_PER_DAY
}

/// Among readings one period apart no two are dated alike, so that a date
/// is found at one position only.
pub proof fn lemma_daily_located(history: Seq<Reading>, i: int)
    requires
        daily(history),
        0 <= i < history.len(),
    ensures
        located(history, history[i].timestamp, i),
{
}

/// The instant after which the next reading of `history` is dated: its
/// latest reading, or `now` while there is none.
pub open spec fn latest_instant(history: Seq<Reading>, now: Timestamp) -> Timestamp {
    if history.len() > 0 {
        history.last().timestamp
    } else {
        now
    }
}

/// Whether `history[i]` is the most recent reading dated `at`.
pub open spec fn located(history: Seq<Reading>, at: Timestamp, i: int) -> bool {
    &&& 0 <= i < history.len()
    &&& history[i].timestamp == at
    &&& forall|j: int| i < j < history.len() ==> (#[trigger] history[j]).timestamp != at
}

/// Whether some reading of `history` is dated `at`.
pub open spec fn dated(history: Seq<Reading>, at: Timestamp) -> bool {
    exists|i: int| 0 <= i < history.len() && (#[trigger] history[i]).timestamp == at
}

/// Something that takes readings, one per period.
pub trait Reader {
    /// The readings taken so far, oldest first.
    spec fn readings(&self) -> Seq<Reading>;

    /// Takes the reading of the next period. On success exactly one reading
    /// has been appended; on failure none has.
    fn add_point(&mut self) -> (r: Result<(), MeterError>)
        ensures
            r is Ok ==> final(self).readings().len() == old(self).readings().len() + 1
                && final(self).readings().drop_last() == old(self).readings(),
            r is Err ==> final(self).readings() == old(self).readings(),
    ;
}

/// The readings of one entity.
pub struct Meter {
    /// The readings taken, oldest first.
    pub history: Vec<Reading>,
}

impl View for Meter {
    type V = Seq<Reading>;

    open spec fn view(&self) -> Seq<Reading> {
        self.history@
    }
}

impl Meter {
    /// A meter without readings.
    pub fn new() -> (m: Meter)
        ensures
            m@ == Seq::<Reading>::empty(),
    {
        Meter { history: Vec::new() }
    }

    /// Number of readings taken.
    pub fn len(&self) -> (n: usize)
        ensures
            n == self@.len(),
    {
        self.history.len()
    }

    /// The most recent reading, if any.
    pub fn latest(&self) -> (r: Option<Reading>)
        ensures
            self@.len() == 0 ==> r is None,
            self@.len() > 0 ==> r == Some(self@.last()),
    {
        let n: usize = self.history.len();
        if n == 0 {
            None
        } else {
            Some(self.history[n - 1])
        }
    }

    /// Position of the most recent reading dated `at`, looked for from the
    /// latest reading backwards; `None` if no reading is dated `at`.
    pub fn position_of(&self, at: Timestamp) -> (r: Option<usize>)
        ensures
            r matches Some(i) ==> located(self@, at, i as int),
            r is None <==> !dated(self@, at),
    {
        let mut i: usize = self.history.len();
        while i > 0
            invariant
                i <= self@.len(),
                forall|j: int| i <= j < self@.len() ==> (#[trigger] self@[j]).timestamp != at,
            decreases i,
        {
            i = i - 1;
            if self.history[i].timestamp.secs == at.secs {
                return Some(i);
            }
        }
        None
    }

    /// Appends `reading` as the most recent one.
    pub fn record(&mut self, reading: Reading)
        ensures
            final(self)@ == old(self)@.push(reading),
    {
        self.history.push(reading);
    }

    /// Appends a reading of `value`, dated one period after the latest
    /// reading, or one period after `now` while there is none.
    pub fn record_next(&mut self, now: Timestamp, value: u8) -> (r: Result<(), MeterError>)
        ensures
            match latest_instant(old(self)@, now).spec_next_day() {
                Some(at) => r is Ok && final(self)@ == old(self)@.push(
                    Reading { timestamp: at, value },
                ),
                None => r == refused(MeterError::TimestampOutOfRange)
                    && final(self)@ == old(self)@,
            },
            r is Ok ==> final(self)@.last().timestamp.secs == latest_instant(old(self)@, now).secs
                + SECONDS_PER_DAY,
            r is Ok && daily(old(self)@) ==> daily(final(self)@),
    {
        let base: Timestamp = match self.latest() {
            Some(reading) => reading.timestamp,
            None => now,
        };
        match base.next_day() {
            Some(at) => {
                self.record(Reading { timestamp: at, value });
                Ok(())
            },
            None => Err(MeterError::TimestampOutOfRange),
        }
    }
}

impl Reader for Meter {
    open spec fn readings(&self) -> Seq<Reading> {
        self@
    }

    /// Takes the next reading from the simulated source. The first reading
    /// is dated one period after the current time, each later one exactly
    /// one period after its predecessor.
    fn add_point(&mut self) -> (r: Result<(), MeterError>)
        ensures
            r is Ok ==> plausible_reading(final(self)@.last().value, old(self)@.len() == 0),
            r is Ok ==> exists|now: Timestamp|
                (#[trigger] latest_instant(old(self)@, now)).spec_next_day() == Some(
                    final(self)@.last().timestamp,
                ),
            r is Ok && old(self)@.len() > 0 ==> final(self)@.last().timestamp.secs
                == old(self)@.last().timestamp.secs + SECONDS_PER_DAY,
            old(self)@.len() > 0 ==> (r is Ok <==> old(self)@.last().timestamp.spec_next_day()
                is Some),
            r is Err ==> r == refused(MeterError::TimestampOutOfRange),
            r is Ok && daily(old(self)@) ==> daily(final(self)@),
    {
        let first: bool = self.history.len() == 0;
        let now: Timestamp = if first {
            current_time()
        } else {
            self.history[self.history.len() - 1].timestamp
        };
        let value: u8 = draw_reading(first);
        let r = self.record_next(now, value);
        assert(r is Ok ==> latest_instant(old(self)@, now).spec_next_day() == Some(
            self@.last().timestamp,
        ));
        r
    }
}

} // verus!
