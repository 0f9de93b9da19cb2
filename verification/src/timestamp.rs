//! Points in time as plain numbers: seconds since the Unix epoch, the
//! nanoseconds within that second, and the offset of the local civil time
//! from UTC.

use vstd::prelude::*;

verus! {

/// Seconds in a civil day.
pub const DAY: i64 = 86_400;

/// Local seconds since the epoch of 0000-01-01T00:00:00, the first second
/// that a four-digit year can name.
pub const MIN_LOCAL: i64 = -62_167_219_200;

/// Local seconds since the epoch of 9999-12-31T23:59:59, the last second
/// that a four-digit year can name.
pub const MAX_LOCAL: i64 = 253_402_300_799;

/// One instant, together with the civil time that a clock shows at it.
///
/// `secs` and `nanos` fix the instant. `nanos` may reach into a second
/// billion to mark a leap second. `offset` is what the local clock is ahead
/// of UTC, in seconds.
#[derive(Clone, Copy, Debug)]
pub struct Timestamp {
    pub secs: i64,
    pub nanos: u32,
    pub offset: i32,
}

/// The first of two instants comes before the second.
pub open spec fn instant_before(first: (int, int), second: (int, int)) -> bool {
    first.0 < second.0 || (first.0 == second.0 && first.1 < second.1)
}

/// What three numbers must satisfy to make a [`Timestamp`].
pub open spec fn valid_parts(secs: int, nanos: int, offset: int) -> bool {
    &&& 0 <= nanos < 2_000_000_000
    &&& -DAY < offset < DAY
    &&& MIN_LOCAL <= secs + offset <= MAX_LOCAL
}

impl Timestamp {
    /// The instant as a pair that orders like time itself.
    pub open spec fn instant(self) -> (int, int) {
        (self.secs as int, self.nanos as int)
    }

    /// Seconds since the epoch on the local clock.
    pub open spec fn local_seconds(self) -> int {
        self.secs + self.offset
    }

    /// Days since the epoch on the local calendar.
    pub open spec fn local_day(self) -> int {
        self.local_seconds() / (DAY as int)
    }

    /// Seconds since local midnight.
    pub open spec fn seconds_of_day(self) -> int {
        self.local_seconds() % (DAY as int)
    }

    /// The hour that the local clock shows.
    pub open spec fn hour(self) -> int {
        self.seconds_of_day() / 3600
    }

    /// The minute that the local clock shows.
    pub open spec fn minute(self) -> int {
        self.seconds_of_day() % 3600 / 60
    }

    /// The second that the local clock shows.
    pub open spec fn second(self) -> int {
        self.seconds_of_day() % 60
    }

    /// The offset is less than a day and the local time has a four-digit year.
    pub open spec fn wf(self) -> bool {
        valid_parts(self.secs as int, self.nanos as int, self.offset as int)
    }

    /// `self` is the same instant as `other`, whatever the offsets.
    pub open spec fn same_instant(self, other: Timestamp) -> bool {
        self.instant() == other.instant()
    }

    /// `self` is an earlier instant than `other`.
    pub open spec fn earlier_than(self, other: Timestamp) -> bool {
        instant_before(self.instant(), other.instant())
    }

    /// `self` is not a later instant than `other`.
    pub open spec fn not_after(self, other: Timestamp) -> bool {
        self.earlier_than(other) || self.same_instant(other)
    }

    /// Makes a timestamp of three numbers, if they are valid.
    pub fn new(secs: i64, nanos: u32, offset: i32) -> (r: Option<Timestamp>)
        ensures
            r is Some <==> valid_parts(secs as int, nanos as int, offset as int),
            r matches Some(t) ==> t.secs == secs && t.nanos == nanos && t.offset == offset,
    {
        let t = Timestamp { secs, nanos, offset };
        if t.is_valid() {
            Some(t)
        } else {
            None
        }
    }

    /// Tests `wf`.
    pub fn is_valid(&self) -> (r: bool)
        ensures
            r == self.wf(),
    {
        if self.nanos >= 2_000_000_000 || self.offset <= -86_400 || self.offset >= 86_400 {
            return false;
        }
        // |offset| < DAY, so the sum can leave i64 only where secs is far out of range.
        if self.secs < MIN_LOCAL - DAY || self.secs > MAX_LOCAL + DAY {
            return false;
        }
        let local: i64 = self.secs + self.offset as i64;
        MIN_LOCAL <= local && local <= MAX_LOCAL
    }

    /// Seconds since the epoch on the local clock.
    pub fn local(&self) -> (r: i64)
        requires
            self.wf(),
        ensures
            r == self.local_seconds(),
    {
        self.secs + self.offset as i64
    }

    /// Seconds since local midnight.
    pub fn time_of_day(&self) -> (r: u32)
        requires
            self.wf(),
        ensures
            r == self.seconds_of_day(),
            r < DAY,
    {
        let shifted: i64 = self.local() - MIN_LOCAL;
        assert(MIN_LOCAL as int == -719_528 * (DAY as int));
        assert(self.local_seconds() % (DAY as int) == (self.local_seconds() - MIN_LOCAL) % (
        DAY as int)) by {
            vstd::arithmetic::div_mod::lemma_mod_multiples_vanish(
                719_528,
                self.local_seconds(),
                DAY as int,
            );
        }
        (shifted % DAY) as u32
    }

    /// Whether both are the same instant.
    pub fn is_same_instant(&self, other: &Timestamp) -> (r: bool)
        ensures
            r == self.same_instant(*other),
    {
        self.secs == other.secs && self.nanos == other.nanos
    }

    /// Whether `self` is the earlier instant.
    pub fn is_earlier_than(&self, other: &Timestamp) -> (r: bool)
        ensures
            r == self.earlier_than(*other),
    {
        self.secs < other.secs || (self.secs == other.secs && self.nanos < other.nanos)
    }
}

/// Local seconds are the day, the hour, the minute and the second put
/// together, and each of these lies in its range.
pub proof fn lemma_clock(t: Timestamp)
    ensures
        t.local_seconds() == t.local_day() * DAY + t.seconds_of_day(),
        t.seconds_of_day() == t.hour() * 3600 + t.minute() * 60 + t.second(),
        0 <= t.seconds_of_day() < DAY,
        0 <= t.hour() < 24,
        0 <= t.minute() < 60,
        0 <= t.second() < 60,
{
}

/// A day and a second of the day are read back from the local seconds that
/// they make.
pub proof fn lemma_day_and_second(t: Timestamp, day: int, of_day: int)
    requires
        0 <= of_day < DAY,
        t.local_seconds() == day * DAY + of_day,
    ensures
        t.local_day() == day,
        t.seconds_of_day() == of_day,
{
    vstd::arithmetic::div_mod::lemma_fundamental_div_mod_converse(
        t.local_seconds(),
        DAY as int,
        day,
        of_day,
    );
}

/// A valid timestamp stays valid when only the time of day and the offset
/// change.
pub proof fn lemma_same_day_is_valid(t: Timestamp, u: Timestamp)
    requires
        t.wf(),
        u.local_day() == t.local_day(),
        u.nanos < 2_000_000_000,
        -DAY < u.offset < DAY,
    ensures
        u.wf(),
{
    assert(MIN_LOCAL as int == -719_528 * (DAY as int));
    assert(MAX_LOCAL + 1 == 2_932_897 * (DAY as int));
    lemma_clock(t);
    lemma_clock(u);
}

} // verus!
