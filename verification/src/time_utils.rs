//! Timestamps: the time in UTC as text, to the millisecond, and a cache that
//! writes the text anew only when the millisecond has changed.

use crate::calendar::{
    civil_from_days, date_of_day, days_from_civil, is_date, lemma_day_within_year,
    lemma_days_from_civil_injective, lemma_years_in_order,
};
use crate::decimal::{push_zero_padded, zero_padded};
use std::time::{Duration, SystemTime, SystemTimeError};
use vstd::prelude::*;

verus! {

/// The number of seconds in a day.
pub const SECS_PER_DAY: i64 = 86_400;

/// Whether `s` seconds after the start of 1970 in UTC it is `hour:min:sec` on
/// day `d` of month `m` of year `y`.
pub open spec fn is_utc_reading(s: int, y: int, m: int, d: int, hour: int, min: int, sec: int)
    -> bool {
    &&& is_date(y, m, d)
    &&& 0 <= hour < 24
    &&& 0 <= min < 60
    &&& 0 <= sec < 60
    &&& s == days_from_civil(y, m, d) * 86_400 + hour * 3600 + min * 60 + sec
}

/// The text for the time `ms` milliseconds after the start of 1970 in UTC:
/// year, month and day, then hour, minute, second and millisecond, as in
/// `2024-02-29 12:34:56.789`.
pub open spec fn timestamp_text(ms: nat) -> Seq<char> {
    let secs = ms / 1000;
    let date = date_of_day((secs / 86_400) as int);
    let of_day = secs % 86_400;
    zero_padded(date.0 as nat, 4) + seq!['-'] + zero_padded(date.1 as nat, 2) + seq!['-']
        + zero_padded(date.2 as nat, 2) + seq![' '] + zero_padded(of_day / 3600, 2) + seq![':']
        + zero_padded(of_day % 3600 / 60, 2) + seq![':'] + zero_padded(of_day % 60, 2) + seq!['.']
        + zero_padded(ms % 1000, 3)
}

/// A time has one reading only.
pub proof fn lemma_utc_reading_unique(
    s: int,
    y1: int,
    m1: int,
    d1: int,
    hour1: int,
    min1: int,
    sec1: int,
    y2: int,
    m2: int,
    d2: int,
    hour2: int,
    min2: int,
    sec2: int,
)
    requires
        is_utc_reading(s, y1, m1, d1, hour1, min1, sec1),
        is_utc_reading(s, y2, m2, d2, hour2, min2, sec2),
    ensures
        y1 == y2,
        m1 == m2,
        d1 == d2,
        hour1 == hour2,
        min1 == min2,
        sec1 == sec2,
{
    lemma_days_from_civil_injective(y1, m1, d1, y2, m2, d2);
}

/// Dates from 1970 on have day numbers from 0 on, and no others have.
pub proof fn lemma_year_of_day(y: int, m: int, d: int)
    requires
        is_date(y, m, d),
    ensures
        days_from_civil(y, m, d) >= 0 <==> y >= 1970,
{
    lemma_day_within_year(y, m, d);
    if y >= 1970 {
        lemma_years_in_order(1970, y);
    } else {
        lemma_years_in_order(y + 1, 1970);
    }
}

/// The date and the time of day in UTC, `s` seconds after the start of 1970:
/// year, month, day, hour, minute and second.
pub fn secs_to_ymdhms_utc(s: i64) -> (tm: (i64, u32, u32, u32, u32, u32))
    ensures
        is_utc_reading(
            s as int,
            tm.0 as int,
            tm.1 as int,
            tm.2 as int,
            tm.3 as int,
            tm.4 as int,
            tm.5 as int,
        ),
{
    let quotient = s / SECS_PER_DAY;
    let remainder = s % SECS_PER_DAY;
    let (z, secs_of_day) = if remainder < 0 {
        (quotient - 1, remainder + SECS_PER_DAY)
    } else {
        (quotient, remainder)
    };
    let (y, m, d) = civil_from_days(z as i128);
    proof {
        // A year has at least 365 days, so the year stays far within i64.
        lemma_day_within_year(y as int, m as int, d as int);
        if y >= 1970 {
            lemma_years_in_order(1970, y as int);
        } else {
            lemma_years_in_order(y as int + 1, 1970);
        }
    }
    let hour = (secs_of_day / 3600) as u32;
    let min = ((secs_of_day % 3600) / 60) as u32;
    let sec = (secs_of_day % 60) as u32;
    (y as i64, m, d, hour, min, sec)
}

/// A time, in milliseconds after the start of 1970 in UTC.
#[derive(Copy, Clone, Debug)]
pub struct Timestamp(pub u128);

impl Timestamp {
    /// The time as text.
    pub fn text(&self) -> (text: String)
        ensures
            text@ == timestamp_text(self.0 as nat),
    {
        let ms = self.0;
        let secs = ms / 1000;
        let millis = ms % 1000;
        let days = secs / 86_400;
        let of_day = secs % 86_400;
        let (y, m, d) = civil_from_days(days as i128);
        proof {
            lemma_year_of_day(y as int, m as int, d as int);
        }
        let mut text = String::new();
        push_zero_padded(&mut text, y as u128, 4);
        text.push('-');
        push_zero_padded(&mut text, m as u128, 2);
        text.push('-');
        push_zero_padded(&mut text, d as u128, 2);
        text.push(' ');
        push_zero_padded(&mut text, of_day / 3600, 2);
        text.push(':');
        push_zero_padded(&mut text, of_day % 3600 / 60, 2);
        text.push(':');
        push_zero_padded(&mut text, of_day % 60, 2);
        text.push('.');
        push_zero_padded(&mut text, millis, 3);
        assert(text@ =~= timestamp_text(ms as nat));
        text
    }
}

/// `std::time::SystemTime`, a reading of the system clock, carried as it is.
#[verifier::external_type_specification]
#[verifier::external_body]
pub struct ExSystemTime(SystemTime);

/// `std::time::SystemTimeError`, the error of a clock that stands before
/// the time it is compared with, carried as it is.
#[verifier::external_type_specification]
#[verifier::external_body]
pub struct ExSystemTimeError(SystemTimeError);

/// `SystemTime::now` reads the system clock. Nothing is claimed of the time
/// that it gives.
pub assume_specification[ SystemTime::now ]() -> SystemTime;

/// `SystemTime::duration_since`, counted from `SystemTime::UNIX_EPOCH`: the
/// time from the start of 1970 to `time`, or an error where `time` is the
/// earlier one. Nothing is claimed of either.
#[verifier::external_body]
fn since_epoch(time: &SystemTime) -> Result<Duration, SystemTimeError> {
    time.duration_since(SystemTime::UNIX_EPOCH)
}

/// `Duration::as_secs` gives the whole seconds in `duration`. Nothing is
/// claimed of their number.
pub assume_specification[ Duration::as_secs ](duration: &Duration) -> u64;

/// `Duration::subsec_nanos` gives what `duration` holds beyond its whole
/// seconds, in nanoseconds: less than a second.
pub assume_specification[ Duration::subsec_nanos ](duration: &Duration) -> (nanos: u32)
    ensures
        nanos < 1_000_000_000,
;

/// The number of milliseconds in `secs` seconds and `nanos` nanoseconds.
pub open spec fn millis_of(secs: u64, nanos: u32) -> nat {
    secs as nat * 1000 + nanos as nat / 1_000_000
}

/// Reads the clock: the whole seconds since the start of 1970 in UTC, and
/// the nanoseconds beyond them. A clock that stands before the start of 1970
/// counts as standing at it.
pub fn clock_reading() -> (reading: (u64, u32))
    ensures
        reading.1 < 1_000_000_000,
{
    let now = SystemTime::now();
    match since_epoch(&now) {
        Ok(since) => (since.as_secs(), since.subsec_nanos()),
        Err(_) => (0, 0),
    }
}

/// What a `CachedTimestamp` holds, as mathematics.
pub struct CacheView {
    /// The time that the text was last written for, in milliseconds after
    /// the start of 1970.
    pub last: nat,
    /// The text.
    pub text: Seq<char>,
}

impl CacheView {
    /// The cache after it was asked for the time `ms`: the text is written
    /// anew where `ms` is not the time that it was last written for, and
    /// kept where it is.
    pub open spec fn at(self, ms: nat) -> CacheView {
        if ms != self.last {
            CacheView { last: ms, text: timestamp_text(ms) }
        } else {
            self
        }
    }

    /// What holds of every cache: one that was never written for a time
    /// holds no text and the time 0; any other holds the text for its time.
    pub open spec fn wf(self) -> bool {
        ||| self.last == 0 && self.text.len() == 0
        ||| self.text == timestamp_text(self.last)
    }
}

/// The text of the current time, kept from one call to the next as long as
/// the millisecond is the same.
pub struct CachedTimestamp {
    last_update: u128,
    cached_string: String,
}

impl View for CachedTimestamp {
    type V = CacheView;

    closed spec fn view(&self) -> CacheView {
        CacheView { last: self.last_update as nat, text: self.cached_string@ }
    }
}

impl CachedTimestamp {
    #[verifier::type_invariant]
    spec fn inv(self) -> bool {
        self@.wf()
    }

    /// A cache that was never written.
    pub fn new() -> (cache: Self)
        ensures
            cache@ == (CacheView { last: 0, text: Seq::empty() }),
    {
        Self { last_update: 0, cached_string: String::new() }
    }

    /// The text for the time `current_ms`, in milliseconds after the start
    /// of 1970.
    pub fn at(&mut self, current_ms: u128) -> (text: &str)
        ensures
            final(self)@ == old(self)@.at(current_ms as nat),
            final(self)@.wf(),
            text@ == final(self)@.text,
    {
        proof {
            use_type_invariant(&*self);
        }
        if current_ms != self.last_update {
            *self = CachedTimestamp {
                last_update: current_ms,
                cached_string: Timestamp(current_ms).text(),
            };
        }
        self.cached_string.as_str()
    }

    /// The text for the current time. A clock that stands before the start
    /// of 1970 counts as standing at it.
    pub fn now_rfc3339(&mut self) -> (text: &str)
        ensures
            exists|ms: nat| final(self)@ == #[trigger] old(self)@.at(ms),
            final(self)@.wf(),
            text@ == final(self)@.text,
    {
        let (secs, nanos) = clock_reading();
        let current_ms = secs as u128 * 1000 + (nanos / 1_000_000) as u128;
        self.at(current_ms)
    }
}

} // verus!
