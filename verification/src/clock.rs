use vstd::arithmetic::div_mod::{
    lemma_div_denominator, lemma_fundamental_div_mod_converse, lemma_mod_multiples_vanish,
};
use vstd::prelude::*;

verus! {

/// Nanoseconds in a second, a minute, an hour and a day.
pub const NANOS_PER_SECOND: u64 = 1_000_000_000;

pub const NANOS_PER_MINUTE: u64 = 60_000_000_000;

pub const NANOS_PER_HOUR: u64 = 3_600_000_000_000;

pub const NANOS_PER_DAY: u64 = 86_400_000_000_000;

pub const MINUTES_PER_DAY: i64 = 1_440;

/// Timestamps are shifted in steps of this many minutes and rounded down to
/// a multiple of it.
pub const SHIFT_GRID: u8 = 5;

/// No two times of day are this many nanoseconds apart, whatever their
/// components hold.
pub const SPAN_LIMIT: i128 = 1_000_000_000_000_000;

/// A time of day with nanosecond precision.
#[derive(Clone, Copy, PartialEq, Eq, Structural, Debug)]
pub struct ClockTime {
    pub hour: u8,
    pub minute: u8,
    pub second: u8,
    pub nanosecond: u32,
}

/// A signed span of time in nanoseconds.
#[derive(Clone, Copy, PartialEq, Eq, Structural, Debug)]
pub struct Duration {
    pub nanoseconds: i128,
}

/// The quotient of `a` by a positive `b`, rounded towards zero.
pub open spec fn trunc_div(a: int, b: int) -> int {
    if a >= 0 {
        a / b
    } else {
        -((-a) / b)
    }
}

/// The remainder that goes with `trunc_div`; it has the sign of `a`.
pub open spec fn trunc_rem(a: int, b: int) -> int {
    if a >= 0 {
        a % b
    } else {
        -((-a) % b)
    }
}

impl ClockTime {
    /// Every component is in its range: hours below 24, minutes and seconds
    /// below 60, nanoseconds below one second.
    pub open spec fn wf(self) -> bool {
        &&& self.hour < 24
        &&& self.minute < 60
        &&& self.second < 60
        &&& self.nanosecond < NANOS_PER_SECOND
    }

    /// Nanoseconds since midnight.
    pub open spec fn nanos(self) -> int {
        self.hour * NANOS_PER_HOUR + self.minute * NANOS_PER_MINUTE + self.second * NANOS_PER_SECOND
            + self.nanosecond
    }

    /// The time of day that lies `nanos` nanoseconds after midnight, for
    /// `nanos` within one day.
    pub open spec fn at(nanos: int) -> ClockTime {
        ClockTime {
            hour: (nanos / (NANOS_PER_HOUR as int)) as u8,
            minute: (nanos / (NANOS_PER_MINUTE as int) % 60) as u8,
            second: (nanos / (NANOS_PER_SECOND as int) % 60) as u8,
            nanosecond: (nanos % (NANOS_PER_SECOND as int)) as u32,
        }
    }

    /// This time moved by `minutes`, wrapping at midnight.
    pub open spec fn moved_by(self, minutes: int) -> ClockTime {
        ClockTime::at((self.nanos() + minutes * NANOS_PER_MINUTE) % (NANOS_PER_DAY as int))
    }

    /// This time with its minute rounded down to the shift grid.
    pub open spec fn on_grid(self) -> ClockTime {
        ClockTime { minute: (self.minute - self.minute % SHIFT_GRID) as u8, ..self }
    }

    /// `at` and `nanos` are inverse to each other on the times of one day.
    pub proof fn at_inverts_nanos(nanos: int)
        requires
            0 <= nanos < NANOS_PER_DAY,
        ensures
            ClockTime::at(nanos).wf(),
            ClockTime::at(nanos).nanos() == nanos,
    {
        let seconds = nanos / (NANOS_PER_SECOND as int);
        let minutes = nanos / (NANOS_PER_MINUTE as int);
        let hours = nanos / (NANOS_PER_HOUR as int);
        assert(minutes == seconds / 60) by {
            lemma_div_denominator(nanos, NANOS_PER_SECOND as int, 60);
        }
        assert(hours == minutes / 60) by {
            lemma_div_denominator(nanos, NANOS_PER_MINUTE as int, 60);
        }
    }

    /// A well-formed time is the time at its own nanosecond count.
    pub proof fn nanos_inverts_at(self)
        requires
            self.wf(),
        ensures
            0 <= self.nanos() < NANOS_PER_DAY,
            ClockTime::at(self.nanos()) == self,
    {
        let n = self.nanos();
        let seconds = self.hour * 3600 + self.minute * 60 + self.second;
        let minutes = self.hour * 60 + self.minute;
        lemma_fundamental_div_mod_converse(
            n,
            NANOS_PER_SECOND as int,
            seconds,
            self.nanosecond as int,
        );
        lemma_fundamental_div_mod_converse(
            n,
            NANOS_PER_MINUTE as int,
            minutes,
            self.second * NANOS_PER_SECOND + self.nanosecond,
        );
        lemma_fundamental_div_mod_converse(
            n,
            NANOS_PER_HOUR as int,
            self.hour as int,
            self.minute * NANOS_PER_MINUTE + self.second * NANOS_PER_SECOND + self.nanosecond,
        );
    }

    /// The time with the given components, if each is in its range.
    pub fn try_from_hms_nano(hour: u8, minute: u8, second: u8, nanosecond: u32) -> (time: Option<Self>)
        ensures
            time is Some <==> (ClockTime { hour, minute, second, nanosecond }).wf(),
            time matches Some(t) ==> t == (ClockTime { hour, minute, second, nanosecond }),
    {
        if hour < 24 && minute < 60 && second < 60 && nanosecond < 1_000_000_000 {
            Some(ClockTime { hour, minute, second, nanosecond })
        } else {
            None
        }
    }

    /// Nanoseconds since midnight.
    pub fn nanoseconds_since_midnight(self) -> (nanos: u64)
        ensures
            nanos == self.nanos(),
    {
        self.hour as u64 * NANOS_PER_HOUR + self.minute as u64 * NANOS_PER_MINUTE + self.second as u64
            * NANOS_PER_SECOND + self.nanosecond as u64
    }

    /// The time of day `nanos` nanoseconds after midnight; whole days in
    /// `nanos` are dropped.
    pub fn from_nanoseconds_since_midnight(nanos: u64) -> (time: Self)
        ensures
            time == ClockTime::at((nanos % NANOS_PER_DAY) as int),
            time.wf(),
            time.nanos() == nanos % NANOS_PER_DAY,
    {
        let within = nanos % NANOS_PER_DAY;
        proof {
            ClockTime::at_inverts_nanos(within as int);
        }
        ClockTime {
            hour: (within / NANOS_PER_HOUR) as u8,
            minute: (within / NANOS_PER_MINUTE % 60) as u8,
            second: (within / NANOS_PER_SECOND % 60) as u8,
            nanosecond: (within % NANOS_PER_SECOND) as u32,
        }
    }

    /// This time moved forward (or, for negative `minutes`, backward) by
    /// `minutes`, wrapping at midnight.
    pub fn plus_minutes(self, minutes: i64) -> (time: Self)
        ensures
            time == self.moved_by(minutes as int),
            time.wf(),
    {
        let remainder = minutes % MINUTES_PER_DAY;
        let within: u64 = if remainder < 0 {
            (remainder + MINUTES_PER_DAY) as u64
        } else {
            remainder as u64
        };
        let moved = self.nanoseconds_since_midnight() + within * NANOS_PER_MINUTE;
        assert(moved as int % (NANOS_PER_DAY as int) == (self.nanos() + minutes * NANOS_PER_MINUTE) % (
        NANOS_PER_DAY as int)) by {
            let days = (minutes as int) / (MINUTES_PER_DAY as int);
            lemma_mod_multiples_vanish(
                days,
                moved as int,
                NANOS_PER_DAY as int,
            );
        }
        ClockTime::from_nanoseconds_since_midnight(moved)
    }

    /// This time moved by `minutes` and then rounded down to a multiple of
    /// five minutes. Seconds and nanoseconds are kept.
    pub fn shifted(self, minutes: i64) -> (time: Self)
        ensures
            time == self.moved_by(minutes as int).on_grid(),
            time.wf(),
            time.minute % SHIFT_GRID == 0,
            time.nanos() <= self.moved_by(minutes as int).nanos() < time.nanos() + SHIFT_GRID
                * NANOS_PER_MINUTE,
    {
        let moved = self.plus_minutes(minutes);
        ClockTime { minute: moved.minute - moved.minute % SHIFT_GRID, ..moved }
    }

    /// Whether this time is later in the day than `other`.
    pub fn is_after(self, other: Self) -> (after: bool)
        ensures
            after == (self.nanos() > other.nanos()),
    {
        self.nanoseconds_since_midnight() > other.nanoseconds_since_midnight()
    }

    /// The span from `earlier` to this time; negative when `earlier` is in
    /// fact the later of the two.
    pub fn since(self, earlier: Self) -> (span: Duration)
        ensures
            span.nanoseconds == self.nanos() - earlier.nanos(),
            span.within_limit(),
    {
        Duration {
            nanoseconds: self.nanoseconds_since_midnight() as i128
                - earlier.nanoseconds_since_midnight() as i128,
        }
    }
}

impl Duration {
    /// The span is shorter than `SPAN_LIMIT`, as every span between two
    /// times of day is.
    pub open spec fn within_limit(self) -> bool {
        -SPAN_LIMIT < self.nanoseconds < SPAN_LIMIT
    }

    /// The number of whole hours in the span, rounded towards zero.
    pub open spec fn whole_hours_spec(self) -> int {
        trunc_div(self.nanoseconds as int, NANOS_PER_HOUR as int)
    }

    /// The number of whole minutes in the span, rounded towards zero.
    pub open spec fn whole_minutes_spec(self) -> int {
        trunc_div(self.nanoseconds as int, NANOS_PER_MINUTE as int)
    }

    /// The empty span.
    pub fn zero() -> (span: Self)
        ensures
            span.nanoseconds == 0,
    {
        Duration { nanoseconds: 0 }
    }

    /// The number of whole hours in the span, rounded towards zero.
    pub fn whole_hours(self) -> (hours: i128)
        ensures
            hours == self.whole_hours_spec(),
    {
        self.nanoseconds / (NANOS_PER_HOUR as i128)
    }

    /// The number of whole minutes in the span, rounded towards zero.
    pub fn whole_minutes(self) -> (minutes: i128)
        ensures
            minutes == self.whole_minutes_spec(),
    {
        self.nanoseconds / (NANOS_PER_MINUTE as i128)
    }
}

/// Reads the wall clock in local time with `time::OffsetDateTime::now_local`
/// and copies hour, minute, second and nanosecond of its `time()`. Nothing
/// is known of the moment that comes back but that `time::Time` keeps each
/// component in its range.
#[verifier::external_body]
#[allow(deprecated)]
pub(crate) fn now() -> (time: ClockTime)
    ensures
        time.wf(),
{
    let time = time::OffsetDateTime::now_local().time();
    ClockTime {
        hour: time.hour(),
        minute: time.minute(),
        second: time.second(),
        nanosecond: time.nanosecond(),
    }
}

} // verus!
