//! Calendar dates of clock readings, and the RFC 3339 timestamps of audit
//! events. Dates are proleptic Gregorian, times are UTC without leap seconds.

use vstd::prelude::*;

use crate::text::fits_field;
use crate::text::order_after_equal_beginnings;
use crate::text::order_before_any_endings;
use crate::text::padded;
use crate::text::padded_number;
use crate::text::padded_numbers_are_ordered;
use crate::text::stands_before;

verus! {

/// Whether a year has a 29 February.
pub open spec fn is_leap_year(year: int) -> bool {
    year % 4 == 0 && (year % 100 != 0 || year % 400 == 0)
}

/// How many days a month has.
pub open spec fn days_in_month(year: int, month: int) -> int {
    if month == 2 {
        if is_leap_year(year) {
            29
        } else {
            28
        }
    } else if month == 4 || month == 6 || month == 9 || month == 11 {
        30
    } else {
        31
    }
}

/// Whether a year, a month and a day name a date of the calendar.
pub open spec fn is_date(year: int, month: int, day: int) -> bool {
    &&& 1 <= month <= 12
    &&& 1 <= day <= days_in_month(year, month)
}

/// How many days lie between 1 January of a year and the first of a month of
/// that year.
pub open spec fn days_before_month(year: int, month: int) -> int
    decreases month,
{
    if month <= 1 {
        0
    } else {
        days_before_month(year, month - 1) + days_in_month(year, month - 1)
    }
}

/// How many leap years lie in the years 1 to `year`, counted backwards for
/// years before.
pub open spec fn leap_years_through(year: int) -> int {
    year / 4 - year / 100 + year / 400
}

/// How many days lie between 1 January 1970 and 1 January of a year.
pub open spec fn days_before_year(year: int) -> int {
    365 * (year - 1970) + leap_years_through(year - 1) - leap_years_through(1969)
}

/// How many days lie between 1 January 1970 and a date.
pub open spec fn day_number(year: int, month: int, day: int) -> int {
    days_before_year(year) + days_before_month(year, month) + day - 1
}

/// A date and a time of day.
pub ghost struct CivilTime {
    pub year: int,
    pub month: int,
    pub day: int,
    pub hour: int,
    pub minute: int,
    pub second: int,
}

/// A civil time from its six fields.
pub open spec fn civil_fields(
    year: int,
    month: int,
    day: int,
    hour: int,
    minute: int,
    second: int,
) -> CivilTime {
    CivilTime { year, month, day, hour, minute, second }
}

impl CivilTime {
    /// Whether the fields name a second of the calendar.
    pub open spec fn valid(self) -> bool {
        &&& is_date(self.year, self.month, self.day)
        &&& 0 <= self.hour < 24
        &&& 0 <= self.minute < 60
        &&& 0 <= self.second < 60
    }

    /// How many seconds lie between the epoch and this time.
    pub open spec fn epoch_seconds(self) -> int {
        day_number(self.year, self.month, self.day) * 86_400 + self.hour * 3_600 + self.minute * 60
            + self.second
    }
}

/// The time that lies `secs` seconds after the epoch.
pub open spec fn civil_time_at(secs: int) -> CivilTime {
    choose|time: CivilTime| time.valid() && time.epoch_seconds() == secs
}

/// Years follow one another without gap or overlap: a year begins as many days
/// after its predecessor as that one is long, and the count starts in 1970.
#[verifier::spinoff_prover]
#[verifier::rlimit(40)]
pub proof fn years_are_contiguous(year: int)
    ensures
        days_before_year(1970) == 0,
        days_before_year(year + 1) == days_before_year(year) + if is_leap_year(year) {
            366int
        } else {
            365int
        },
{
    assert(year / 4 == (year - 1) / 4 + if year % 4 == 0 {
        1int
    } else {
        0int
    });
    assert(year / 100 == (year - 1) / 100 + if year % 100 == 0 {
        1int
    } else {
        0int
    });
    assert(year / 400 == (year - 1) / 400 + if year % 400 == 0 {
        1int
    } else {
        0int
    });
    assert(year % 100 == 0 ==> year % 4 == 0);
    assert(year % 400 == 0 ==> year % 100 == 0);
}

proof fn month_starts(year: int)
    ensures
        days_before_month(year, 1) == 0,
        days_before_month(year, 2) == 31,
        ({
            let leap = if is_leap_year(year) {
                1int
            } else {
                0int
            };
            &&& days_before_month(year, 3) == 59 + leap
            &&& days_before_month(year, 4) == 90 + leap
            &&& days_before_month(year, 5) == 120 + leap
            &&& days_before_month(year, 6) == 151 + leap
            &&& days_before_month(year, 7) == 181 + leap
            &&& days_before_month(year, 8) == 212 + leap
            &&& days_before_month(year, 9) == 243 + leap
            &&& days_before_month(year, 10) == 273 + leap
            &&& days_before_month(year, 11) == 304 + leap
            &&& days_before_month(year, 12) == 334 + leap
        }),
{
    reveal_with_fuel(days_before_month, 13);
}

/// No two dates have the same day number.
#[verifier::spinoff_prover]
#[verifier::rlimit(40)]
pub proof fn day_numbers_are_distinct(
    year: int,
    month: int,
    day: int,
    other_year: int,
    other_month: int,
    other_day: int,
)
    requires
        is_date(year, month, day),
        is_date(other_year, other_month, other_day),
        day_number(year, month, day) == day_number(other_year, other_month, other_day),
    ensures
        year == other_year,
        month == other_month,
        day == other_day,
{
    month_starts(year);
    month_starts(other_year);
    years_are_contiguous(year);
    years_are_contiguous(other_year);
    if year < other_year {
        assert(days_before_year(year + 1) <= days_before_year(other_year));
    } else if other_year < year {
        assert(days_before_year(other_year + 1) <= days_before_year(year));
    }
}

/// Every second has one civil time: two valid times with the same distance
/// from the epoch are the same time.
pub proof fn civil_time_is_unique(a: CivilTime, b: CivilTime)
    requires
        a.valid(),
        b.valid(),
        a.epoch_seconds() == b.epoch_seconds(),
    ensures
        a == b,
        civil_time_at(a.epoch_seconds()) == a,
{
    times_agree(a, b);
    let chosen = civil_time_at(a.epoch_seconds());
    times_agree(chosen, a);
}

proof fn times_agree(a: CivilTime, b: CivilTime)
    requires
        a.valid(),
        b.valid(),
        a.epoch_seconds() == b.epoch_seconds(),
    ensures
        a == b,
{
    let day = day_number(a.year, a.month, a.day);
    let other = day_number(b.year, b.month, b.day);
    assert(day == other);
    day_numbers_are_distinct(a.year, a.month, a.day, b.year, b.month, b.day);
}

/// In a 400-year era that begins on 1 March, the day `day_of_era` falls into
/// the year `year_of_era`.
#[verifier::spinoff_prover]
#[verifier::rlimit(40)]
proof fn year_of_era_found(day_of_era: int, year_of_era: int)
    requires
        0 <= day_of_era < 146_097,
        year_of_era == (day_of_era - day_of_era / 1460 + day_of_era / 36_524 - day_of_era
            / 146_096) / 365,
    ensures
        0 <= year_of_era < 400,
        365 * year_of_era + year_of_era / 4 - year_of_era / 100 <= day_of_era,
        day_of_era < 365 * (year_of_era + 1) + (year_of_era + 1) / 4 - (year_of_era + 1) / 100 + (
        year_of_era + 1) / 400,
{
}

/// In a year that begins on 1 March, the day `day_of_year` falls into the
/// month `month`, counted from 0, as its day `day`.
#[verifier::spinoff_prover]
#[verifier::rlimit(40)]
proof fn month_of_year_found(day_of_year: int, month: int, day: int)
    requires
        0 <= day_of_year < 366,
        month == (5 * day_of_year + 2) / 153,
        day == day_of_year - (153 * month + 2) / 5 + 1,
    ensures
        0 <= month < 12,
        day >= 1,
        month == 0 ==> day_of_year == day - 1 && day <= 31,
        month == 1 ==> day_of_year == 31 + day - 1 && day <= 30,
        month == 2 ==> day_of_year == 61 + day - 1 && day <= 31,
        month == 3 ==> day_of_year == 92 + day - 1 && day <= 30,
        month == 4 ==> day_of_year == 122 + day - 1 && day <= 31,
        month == 5 ==> day_of_year == 153 + day - 1 && day <= 31,
        month == 6 ==> day_of_year == 184 + day - 1 && day <= 30,
        month == 7 ==> day_of_year == 214 + day - 1 && day <= 31,
        month == 8 ==> day_of_year == 245 + day - 1 && day <= 30,
        month == 9 ==> day_of_year == 275 + day - 1 && day <= 31,
        month == 10 ==> day_of_year == 306 + day - 1 && day <= 31,
        month == 11 ==> day_of_year == 337 + day - 1 && day <= 29,
{
}

/// The date of a day of an era, put together from the pieces above.
#[verifier::spinoff_prover]
#[verifier::rlimit(40)]
proof fn date_found(
    days: int,
    era: int,
    year_of_era: int,
    day_of_year: int,
    month_from_march: int,
    day: int,
    month: int,
    year: int,
)
    requires
        0 <= year_of_era < 400,
        0 <= day_of_year,
        365 * year_of_era + year_of_era / 4 - year_of_era / 100 + day_of_year < 365 * (year_of_era
            + 1) + (year_of_era + 1) / 4 - (year_of_era + 1) / 100 + (year_of_era + 1) / 400,
        days + 719_468 == era * 146_097 + 365 * year_of_era + year_of_era / 4 - year_of_era / 100
            + day_of_year,
        month_from_march == (5 * day_of_year + 2) / 153,
        day == day_of_year - (153 * month_from_march + 2) / 5 + 1,
        month == if month_from_march < 10 {
            month_from_march + 3
        } else {
            month_from_march - 9
        },
        year == year_of_era + era * 400 + if month <= 2 {
            1int
        } else {
            0int
        },
    ensures
        is_date(year, month, day),
        day_number(year, month, day) == days,
{
    month_of_year_found(day_of_year, month_from_march, day);
    month_starts(year);
    let march_year = year_of_era + era * 400;
    assert(march_year / 4 == year_of_era / 4 + era * 100);
    assert(march_year / 100 == year_of_era / 100 + era * 4);
    assert(march_year / 400 == era);
    years_are_contiguous(march_year);
    years_are_contiguous(year);
    assert(days_before_year(march_year + 1) == 365 * (march_year + 1 - 1970) + march_year / 4
        - march_year / 100 + march_year / 400 - 477);
}

/// The civil time that lies `secs` seconds after the epoch, as year, month,
/// day, hour, minute and second, for every clock reading.
#[verifier::spinoff_prover]
#[verifier::rlimit(40)]
pub fn civil_time(secs: i64) -> (time: (i64, u32, u32, u32, u32, u32))
    ensures
        ({
            let civil = civil_fields(
                time.0 as int,
                time.1 as int,
                time.2 as int,
                time.3 as int,
                time.4 as int,
                time.5 as int,
            );
            &&& civil.valid()
            &&& civil.epoch_seconds() == secs
            &&& civil == civil_time_at(secs as int)
        }),
{
    let days_since_epoch: i64 = floor_div(secs, 86_400);
    let secs_today: u32 = secs.checked_rem_euclid(86_400).unwrap() as u32;
    let hour: u32 = secs_today / 3600;
    let min: u32 = (secs_today % 3600) / 60;
    let sec: u32 = secs_today % 60;
    let z: i64 = days_since_epoch + 719_468;
    let era: i64 = floor_div(z, 146_097);
    let doe: u32 = (z - era * 146_097) as u32;
    proof {
        year_of_era_found(
            doe as int,
            (doe - doe / 1460 + doe / 36_524 - doe / 146_096) / 365,
        );
    }
    let yoe: u32 = (doe - doe / 1460 + doe / 36_524 - doe / 146_096) / 365;
    let y: i64 = yoe as i64 + era * 400;
    let doy: u32 = doe - (365 * yoe + yoe / 4 - yoe / 100);
    let mp: u32 = (5 * doy + 2) / 153;
    proof {
        month_of_year_found(doy as int, mp as int, doy - (153 * mp + 2) / 5 + 1);
    }
    let d: u32 = doy - (153 * mp + 2) / 5 + 1;
    let m: u32 = if mp < 10 {
        mp + 3
    } else {
        mp - 9
    };
    let year: i64 = if m <= 2 {
        y + 1
    } else {
        y
    };
    proof {
        date_found(
            days_since_epoch as int,
            era as int,
            yoe as int,
            doy as int,
            mp as int,
            d as int,
            m as int,
            year as int,
        );
        let civil = civil_fields(
            year as int,
            m as int,
            d as int,
            hour as int,
            min as int,
            sec as int,
        );
        civil_time_is_unique(civil, civil);
    }
    (year, m, d, hour, min, sec)
}

/// The civil time that lies `secs` seconds after the epoch, as year, month,
/// day, hour, minute and second.
pub fn epoch_to_ymdhms(secs: i64) -> (time: (i32, u32, u32, u32, u32, u32))
    requires
        days_before_year(i32::MIN as int) * 86_400 <= secs,
        secs < days_before_year(i32::MAX + 1) * 86_400,
    ensures
        ({
            let civil = civil_fields(
                time.0 as int,
                time.1 as int,
                time.2 as int,
                time.3 as int,
                time.4 as int,
                time.5 as int,
            );
            &&& civil.valid()
            &&& civil.epoch_seconds() == secs
            &&& civil == civil_time_at(secs as int)
        }),
{
    let (year, month, day, hour, minute, second) = civil_time(secs);
    proof {
        month_starts(year as int);
        years_are_contiguous(year as int);
        if year < i32::MIN {
            assert(days_before_year(year + 1) <= days_before_year(i32::MIN as int));
        }
        if year > i32::MAX {
            assert(days_before_year(i32::MAX + 1) <= days_before_year(year as int));
        }
    }
    (year as i32, month, day, hour, minute, second)
}

/// The RFC 3339 timestamp of a civil time and a number of milliseconds.
pub open spec fn timestamp_text(time: CivilTime, millis: int) -> Seq<char> {
    padded_number(time.year, 4) + seq!['-'] + padded_number(time.month, 2) + seq!['-']
        + padded_number(time.day, 2) + seq!['T'] + padded_number(time.hour, 2) + seq![':']
        + padded_number(time.minute, 2) + seq![':'] + padded_number(time.second, 2) + seq!['.']
        + padded_number(millis, 3) + seq!['Z']
}

/// The RFC 3339 timestamp of a clock reading, given as whole seconds since the
/// epoch and milliseconds.
pub fn rfc3339(secs: i64, millis: u32) -> (text: String)
    ensures
        text@ == timestamp_text(civil_time_at(secs as int), millis as int),
{
    proof {
        reveal_strlit("-");
        reveal_strlit("T");
        reveal_strlit(":");
        reveal_strlit(".");
        reveal_strlit("Z");
        assert("-"@ =~= seq!['-']);
        assert("T"@ =~= seq!['T']);
        assert(":"@ =~= seq![':']);
        assert("."@ =~= seq!['.']);
        assert("Z"@ =~= seq!['Z']);
    }
    let (year, month, day, hour, minute, second) = civil_time(secs);
    let mut text = padded(year, 4);
    text.append("-");
    text.append(padded(month as i64, 2).as_str());
    text.append("-");
    text.append(padded(day as i64, 2).as_str());
    text.append("T");
    text.append(padded(hour as i64, 2).as_str());
    text.append(":");
    text.append(padded(minute as i64, 2).as_str());
    text.append(":");
    text.append(padded(second as i64, 2).as_str());
    text.append(".");
    text.append(padded(millis as i64, 3).as_str());
    text.append("Z");
    text
}

/// Calls `SystemTime::elapsed` on the epoch: the whole seconds and the
/// milliseconds that the machine's clock has counted since the epoch, or
/// nothing if the clock stands before it. What the clock shows is left unsaid;
/// the milliseconds stay below a thousand.
#[verifier::external_body]
fn clock_reading() -> (reading: Option<(u64, u32)>)
    ensures
        is_reading(reading),
{
    std::time::UNIX_EPOCH.elapsed().ok().map(|since| (since.as_secs(), since.subsec_millis()))
}

/// The RFC 3339 timestamp of a clock reading; that of the epoch if the clock
/// stands before it.
pub open spec fn reading_text(reading: Option<(u64, u32)>) -> Seq<char> {
    match reading {
        Some((secs, millis)) => timestamp_text(civil_time_at((secs as i64) as int), millis as int),
        None => timestamp_text(civil_time_at(0), 0),
    }
}

/// Whether a clock can show a reading.
pub open spec fn is_reading(reading: Option<(u64, u32)>) -> bool {
    reading matches Some((_, millis)) ==> millis < 1000
}

/// The RFC 3339 timestamp of a clock reading, given as whole seconds since the
/// epoch and milliseconds; that of the epoch if the clock stands before it.
pub fn rfc3339_of_reading(reading: Option<(u64, u32)>) -> (text: String)
    ensures
        text@ == reading_text(reading),
{
    match reading {
        Some((secs, millis)) => rfc3339(secs as i64, millis),
        None => rfc3339(0, 0),
    }
}

/// The RFC 3339 timestamp of the present moment.
pub fn rfc3339_now() -> (text: String)
    ensures
        exists|reading: Option<(u64, u32)>|
            is_reading(reading) && text@ == #[trigger] reading_text(reading),
{
    rfc3339_of_reading(clock_reading())
}

/// Division rounded down.
fn floor_div(n: i64, by: i64) -> (quotient: i64)
    requires
        by > 1,
    ensures
        quotient == n as int / by as int,
        quotient * by <= n < quotient * by + by,
        -0x4000_0000_0000_0000 <= quotient <= 0x4000_0000_0000_0000,
{
    proof {
        assert(-0x4000_0000_0000_0000 <= n as int / by as int <= 0x4000_0000_0000_0000
            && (n as int / by as int) * by <= n < (n as int / by as int) * by + by)
            by (nonlinear_arith)
            requires
                by > 1,
                -0x8000_0000_0000_0000 <= n < 0x8000_0000_0000_0000,
        ;
    }
    n.checked_div_euclid(by).unwrap()
}

/// Every second has a civil time.
pub proof fn every_second_has_a_civil_time(secs: int)
    ensures
        civil_time_at(secs).valid(),
        civil_time_at(secs).epoch_seconds() == secs,
{
    let days = secs / 86_400;
    let today = secs % 86_400;
    let era = (days + 719_468) / 146_097;
    let day_of_era = (days + 719_468) % 146_097;
    let year_of_era = (day_of_era - day_of_era / 1460 + day_of_era / 36_524 - day_of_era / 146_096)
        / 365;
    year_of_era_found(day_of_era, year_of_era);
    let day_of_year = day_of_era - (365 * year_of_era + year_of_era / 4 - year_of_era / 100);
    let month_from_march = (5 * day_of_year + 2) / 153;
    let day = day_of_year - (153 * month_from_march + 2) / 5 + 1;
    let month = if month_from_march < 10 {
        month_from_march + 3
    } else {
        month_from_march - 9
    };
    let year = year_of_era + era * 400 + if month <= 2 {
        1int
    } else {
        0int
    };
    date_found(days, era, year_of_era, day_of_year, month_from_march, day, month, year);
    let time = civil_fields(
        year,
        month,
        day,
        today / 3600,
        today % 3600 / 60,
        today % 60,
    );
    assert(time.valid() && time.epoch_seconds() == secs);
}

/// Of two times, the earlier one has the smaller first field in which they
/// differ.
proof fn fields_are_ordered(a: CivilTime, b: CivilTime)
    requires
        a.valid(),
        b.valid(),
        a.epoch_seconds() < b.epoch_seconds(),
    ensures
        a.year <= b.year,
        a.year == b.year ==> a.month <= b.month,
        a.year == b.year && a.month == b.month ==> a.day <= b.day,
        ({
            let same_day = a.year == b.year && a.month == b.month && a.day == b.day;
            &&& same_day ==> a.hour <= b.hour
            &&& same_day && a.hour == b.hour ==> a.minute <= b.minute
            &&& same_day && a.hour == b.hour && a.minute == b.minute ==> a.second < b.second
        }),
{
    month_starts(a.year);
    month_starts(b.year);
    years_are_contiguous(a.year);
    years_are_contiguous(b.year);
    let day = day_number(a.year, a.month, a.day);
    let other = day_number(b.year, b.month, b.day);
    assert(day <= other);
    if b.year < a.year {
        assert(days_before_year(b.year + 1) <= days_before_year(a.year));
    }
}

/// In the years 0 to 9999 every timestamp has 24 characters.
pub proof fn timestamps_have_one_width(time: CivilTime, millis: int)
    requires
        time.valid(),
        0 <= time.year <= 9999,
        0 <= millis < 1000,
    ensures
        timestamp_text(time, millis).len() == 24,
{
    padded_numbers_are_ordered(time.year, time.year, 4);
    padded_numbers_are_ordered(time.month, time.month, 2);
    padded_numbers_are_ordered(time.day, time.day, 2);
    padded_numbers_are_ordered(time.hour, time.hour, 2);
    padded_numbers_are_ordered(time.minute, time.minute, 2);
    padded_numbers_are_ordered(time.second, time.second, 2);
    padded_numbers_are_ordered(millis, millis, 3);
}

/// A text that begins with a number in a field of fixed width, and one that
/// begins with another: the smaller number makes the earlier text, and behind
/// equal numbers the rest decides.
proof fn field_decides(a: int, b: int, width: int, a_rest: Seq<char>, b_rest: Seq<char>)
    requires
        fits_field(a, width),
        fits_field(b, width),
        a < b || a == b && stands_before(a_rest, b_rest),
    ensures
        stands_before(padded_number(a, width) + a_rest, padded_number(b, width) + b_rest),
{
    padded_numbers_are_ordered(a, b, width);
    if a < b {
        order_before_any_endings(
            padded_number(a, width),
            padded_number(b, width),
            a_rest,
            b_rest,
        );
    } else {
        order_after_equal_beginnings(padded_number(a, width), a_rest, b_rest);
    }
}

/// A timestamp from its second on.
spec fn from_second(time: CivilTime, millis: int) -> Seq<char> {
    padded_number(time.second, 2) + (seq!['.'] + (padded_number(millis, 3) + seq!['Z']))
}

/// A timestamp from its hour on.
spec fn from_hour(time: CivilTime, millis: int) -> Seq<char> {
    padded_number(time.hour, 2) + (seq![':'] + (padded_number(time.minute, 2) + (seq![':']
        + from_second(time, millis))))
}

/// A timestamp from its month on.
spec fn from_month(time: CivilTime, millis: int) -> Seq<char> {
    padded_number(time.month, 2) + (seq!['-'] + (padded_number(time.day, 2) + (seq!['T']
        + from_hour(time, millis))))
}

/// Two parts behind a text can be joined first.
proof fn joined_first(start: Seq<char>, a: Seq<char>, b: Seq<char>)
    ensures
        start + a + b == start + (a + b),
{
    assert(start + a + b =~= start + (a + b));
}

proof fn five_joined_first(
    start: Seq<char>,
    a: Seq<char>,
    b: Seq<char>,
    c: Seq<char>,
    d: Seq<char>,
    end: Seq<char>,
)
    ensures
        start + a + b + c + d + end == start + (a + (b + (c + (d + end)))),
{
    joined_first(start + a + b + c, d, end);
    joined_first(start + a + b, c, d + end);
    joined_first(start + a, b, c + (d + end));
    joined_first(start, a, b + (c + (d + end)));
}

proof fn timestamp_splits(time: CivilTime, millis: int)
    ensures
        timestamp_text(time, millis) == padded_number(time.year, 4) + (seq!['-'] + from_month(
            time,
            millis,
        )),
{
    let year = padded_number(time.year, 4);
    let month = padded_number(time.month, 2);
    let day = padded_number(time.day, 2);
    let hour = padded_number(time.hour, 2);
    let minute = padded_number(time.minute, 2);
    let second = padded_number(time.second, 2);
    let fraction = padded_number(millis, 3);
    let date = year + seq!['-'] + month + seq!['-'] + day + seq!['T'];
    let clock = date + hour + seq![':'] + minute + seq![':'];
    joined_first(clock + second + seq!['.'], fraction, seq!['Z']);
    joined_first(clock + second, seq!['.'], fraction + seq!['Z']);
    joined_first(clock, second, seq!['.'] + (fraction + seq!['Z']));
    let rest = from_second(time, millis);
    five_joined_first(date, hour, seq![':'], minute, seq![':'], rest);
    let later = from_hour(time, millis);
    five_joined_first(year + seq!['-'], month, seq!['-'], day, seq!['T'], later);
    joined_first(year, seq!['-'], from_month(time, millis));
}

/// Behind an equal sign the rest decides.
proof fn sign_is_passed(sign: char, a: Seq<char>, b: Seq<char>)
    requires
        stands_before(a, b),
    ensures
        stands_before(seq![sign] + a, seq![sign] + b),
{
    order_after_equal_beginnings(seq![sign], a, b);
}

/// In the years 0 to 9999 timestamps have the order of the times that they
/// stand for.
pub proof fn timestamps_are_ordered(a: CivilTime, a_millis: int, b: CivilTime, b_millis: int)
    requires
        a.valid(),
        b.valid(),
        0 <= a.year <= 9999,
        0 <= b.year <= 9999,
        0 <= a_millis < 1000,
        0 <= b_millis < 1000,
        a.epoch_seconds() * 1000 + a_millis < b.epoch_seconds() * 1000 + b_millis,
    ensures
        stands_before(timestamp_text(a, a_millis), timestamp_text(b, b_millis)),
{
    if a.epoch_seconds() < b.epoch_seconds() {
        fields_are_ordered(a, b);
    } else {
        assert(a.epoch_seconds() == b.epoch_seconds());
        times_agree(a, b);
    }
    let same_minute = a.year == b.year && a.month == b.month && a.day == b.day && a.hour == b.hour
        && a.minute == b.minute;
    let same_day = a.year == b.year && a.month == b.month && a.day == b.day;
    if same_minute {
        if a.second == b.second {
            field_decides(a_millis, b_millis, 3, seq!['Z'], seq!['Z']);
            sign_is_passed(
                '.',
                padded_number(a_millis, 3) + seq!['Z'],
                padded_number(b_millis, 3) + seq!['Z'],
            );
        }
        field_decides(
            a.second,
            b.second,
            2,
            seq!['.'] + (padded_number(a_millis, 3) + seq!['Z']),
            seq!['.'] + (padded_number(b_millis, 3) + seq!['Z']),
        );
        sign_is_passed(':', from_second(a, a_millis), from_second(b, b_millis));
    }
    if same_day {
        if a.hour == b.hour {
            field_decides(
                a.minute,
                b.minute,
                2,
                seq![':'] + from_second(a, a_millis),
                seq![':'] + from_second(b, b_millis),
            );
            sign_is_passed(
                ':',
                padded_number(a.minute, 2) + (seq![':'] + from_second(a, a_millis)),
                padded_number(b.minute, 2) + (seq![':'] + from_second(b, b_millis)),
            );
        }
        field_decides(
            a.hour,
            b.hour,
            2,
            seq![':'] + (padded_number(a.minute, 2) + (seq![':'] + from_second(a, a_millis))),
            seq![':'] + (padded_number(b.minute, 2) + (seq![':'] + from_second(b, b_millis))),
        );
        sign_is_passed('T', from_hour(a, a_millis), from_hour(b, b_millis));
    }
    if a.year == b.year {
        if a.month == b.month {
            field_decides(
                a.day,
                b.day,
                2,
                seq!['T'] + from_hour(a, a_millis),
                seq!['T'] + from_hour(b, b_millis),
            );
            sign_is_passed(
                '-',
                padded_number(a.day, 2) + (seq!['T'] + from_hour(a, a_millis)),
                padded_number(b.day, 2) + (seq!['T'] + from_hour(b, b_millis)),
            );
        }
        field_decides(
            a.month,
            b.month,
            2,
            seq!['-'] + (padded_number(a.day, 2) + (seq!['T'] + from_hour(a, a_millis))),
            seq!['-'] + (padded_number(b.day, 2) + (seq!['T'] + from_hour(b, b_millis))),
        );
        sign_is_passed('-', from_month(a, a_millis), from_month(b, b_millis));
    }
    field_decides(
        a.year,
        b.year,
        4,
        seq!['-'] + from_month(a, a_millis),
        seq!['-'] + from_month(b, b_millis),
    );
    timestamp_splits(a, a_millis);
    timestamp_splits(b, b_millis);
}

/// From the epoch to the end of the year 9999 years have four digits.
proof fn years_have_four_digits(time: CivilTime)
    requires
        time.valid(),
        0 <= time.epoch_seconds() < days_before_year(10_000) * 86_400,
    ensures
        1970 <= time.year <= 9999,
{
    month_starts(time.year);
    years_are_contiguous(time.year);
    let day = day_number(time.year, time.month, time.day);
    assert(0 <= day < days_before_year(10_000));
    if time.year < 1970 {
        assert(days_before_year(time.year + 1) <= days_before_year(1970));
    }
    if time.year > 9999 {
        assert(days_before_year(10_000) <= days_before_year(time.year));
    }
}

/// Audit lines sort by time: up to the end of the year 9999, of two clock
/// readings the earlier one has the timestamp that stands first.
pub proof fn timestamps_sort_by_time(a_secs: u64, a_millis: u32, b_secs: u64, b_millis: u32)
    requires
        a_millis < 1000,
        b_millis < 1000,
        a_secs * 1000 + a_millis < b_secs * 1000 + b_millis,
        b_secs < days_before_year(10_000) * 86_400,
    ensures
        stands_before(
            reading_text(Some((a_secs, a_millis))),
            reading_text(Some((b_secs, b_millis))),
        ),
{
    let a = civil_time_at(a_secs as int);
    let b = civil_time_at(b_secs as int);
    every_second_has_a_civil_time(a_secs as int);
    every_second_has_a_civil_time(b_secs as int);
    years_have_four_digits(a);
    years_have_four_digits(b);
    timestamps_are_ordered(a, a_millis as int, b, b_millis as int);
}

/// The count of time starts at midnight on 1 January 1970.
pub proof fn count_starts_in_1970()
    ensures
        civil_time_at(0) == civil_fields(1970, 1, 1, 0, 0, 0),
{
    let start = civil_fields(1970, 1, 1, 0, 0, 0);
    years_are_contiguous(1970);
    month_starts(1970);
    civil_time_is_unique(start, start);
}

/// From one second to the next the clock moves on as a calendar does: minutes
/// and hours have sixty parts, a day has 24 hours, months have 31 or 30 days,
/// and February has 29 in every fourth year, but of the centuries only in every
/// fourth.
#[verifier::spinoff_prover]
#[verifier::rlimit(40)]
pub proof fn next_second_follows(secs: int)
    ensures
        ({
            let now = civil_time_at(secs);
            let next = civil_time_at(secs + 1);
            let leap = now.year % 400 == 0 || now.year % 4 == 0 && now.year % 100 != 0;
            let last_day: int = if now.month == 2 && leap {
                29
            } else if now.month == 2 {
                28
            } else if now.month == 4 || now.month == 6 || now.month == 9 || now.month == 11 {
                30
            } else {
                31
            };
            next == if now.second < 59 {
                civil_fields(
                    now.year,
                    now.month,
                    now.day,
                    now.hour,
                    now.minute,
                    now.second + 1,
                )
            } else if now.minute < 59 {
                civil_fields(now.year, now.month, now.day, now.hour, now.minute + 1, 0)
            } else if now.hour < 23 {
                civil_fields(now.year, now.month, now.day, now.hour + 1, 0, 0)
            } else if now.day < last_day {
                civil_fields(now.year, now.month, now.day + 1, 0, 0, 0)
            } else if now.month < 12 {
                civil_fields(now.year, now.month + 1, 1, 0, 0, 0)
            } else {
                civil_fields(now.year + 1, 1, 1, 0, 0, 0)
            }
        }),
{
    let now = civil_time_at(secs);
    every_second_has_a_civil_time(secs);
    years_are_contiguous(now.year);
    month_starts(now.year);
    month_starts(now.year + 1);
    let next = if now.second < 59 {
        civil_fields(now.year, now.month, now.day, now.hour, now.minute, now.second + 1)
    } else if now.minute < 59 {
        civil_fields(now.year, now.month, now.day, now.hour, now.minute + 1, 0)
    } else if now.hour < 23 {
        civil_fields(now.year, now.month, now.day, now.hour + 1, 0, 0)
    } else if now.day < days_in_month(now.year, now.month) {
        civil_fields(now.year, now.month, now.day + 1, 0, 0, 0)
    } else if now.month < 12 {
        civil_fields(now.year, now.month + 1, 1, 0, 0, 0)
    } else {
        civil_fields(now.year + 1, 1, 1, 0, 0, 0)
    };
    assert(next.valid());
    assert(next.epoch_seconds() == secs + 1);
    civil_time_is_unique(next, next);
}

#[verifier::spinoff_prover]
proof fn two_digits(n: int)
    requires
        0 <= n < 100,
    ensures
        padded_number(n, 2).len() == 2,
        padded_number(n, 2)[0] as int == '0' as int + n / 10,
        padded_number(n, 2)[1] as int == '0' as int + n % 10,
{
    reveal_with_fuel(crate::text::decimal_text, 3);
    reveal_with_fuel(crate::text::zero_padded, 3);
}

#[verifier::spinoff_prover]
proof fn three_digits(n: int)
    requires
        0 <= n < 1000,
    ensures
        padded_number(n, 3).len() == 3,
        padded_number(n, 3)[0] as int == '0' as int + n / 100,
        padded_number(n, 3)[1] as int == '0' as int + n / 10 % 10,
        padded_number(n, 3)[2] as int == '0' as int + n % 10,
{
    reveal_with_fuel(crate::text::decimal_text, 4);
    reveal_with_fuel(crate::text::zero_padded, 4);
}

/// A timestamp ends in twenty characters that show month, day, hour, minute,
/// second and millisecond, each in its place; what stands before them is the
/// year, in four characters or as many as it needs.
#[verifier::spinoff_prover]
#[verifier::rlimit(40)]
pub proof fn timestamp_shows_each_field(time: CivilTime, millis: int)
    requires
        time.valid(),
        0 <= millis < 1000,
    ensures
        ({
            let text = timestamp_text(time, millis);
            let n = text.len() - 20;
            &&& n >= 4
            &&& text.take(n) == padded_number(time.year, 4)
            &&& text[n] == '-'
            &&& text[n + 1] as int == '0' as int + time.month / 10
            &&& text[n + 2] as int == '0' as int + time.month % 10
            &&& text[n + 3] == '-'
            &&& text[n + 4] as int == '0' as int + time.day / 10
            &&& text[n + 5] as int == '0' as int + time.day % 10
            &&& text[n + 6] == 'T'
            &&& text[n + 7] as int == '0' as int + time.hour / 10
            &&& text[n + 8] as int == '0' as int + time.hour % 10
            &&& text[n + 9] == ':'
            &&& text[n + 10] as int == '0' as int + time.minute / 10
            &&& text[n + 11] as int == '0' as int + time.minute % 10
            &&& text[n + 12] == ':'
            &&& text[n + 13] as int == '0' as int + time.second / 10
            &&& text[n + 14] as int == '0' as int + time.second % 10
            &&& text[n + 15] == '.'
            &&& text[n + 16] as int == '0' as int + millis / 100
            &&& text[n + 17] as int == '0' as int + millis / 10 % 10
            &&& text[n + 18] as int == '0' as int + millis % 10
            &&& text[n + 19] == 'Z'
        }),
{
    two_digits(time.month);
    two_digits(time.day);
    two_digits(time.hour);
    two_digits(time.minute);
    two_digits(time.second);
    three_digits(millis);
    crate::text::padded_number_reads_back(time.year, 4);
    let text = timestamp_text(time, millis);
    let n = padded_number(time.year, 4).len() as int;
    assert(text.len() == n + 20);
    assert(text.take(n) =~= padded_number(time.year, 4));
}

/// The timestamp of a clock reading is that of its seconds and milliseconds. A
/// clock that stands before the epoch shows the epoch, and a count of seconds
/// that exceeds a signed number of 64 bits is taken as the negative one.
pub proof fn reading_is_shown_as_it_is(secs: u64, millis: u32)
    ensures
        secs < 0x8000_0000_0000_0000 ==> reading_text(Some((secs, millis))) == timestamp_text(
            civil_time_at(secs as int),
            millis as int,
        ),
        secs >= 0x8000_0000_0000_0000 ==> reading_text(Some((secs, millis))) == timestamp_text(
            civil_time_at(secs - 0x1_0000_0000_0000_0000),
            millis as int,
        ),
        reading_text(None) == reading_text(Some((0, 0))),
{
    assert(secs >= 0x8000_0000_0000_0000 ==> (secs as i64) as int == secs
        - 0x1_0000_0000_0000_0000) by (bit_vector);
}

proof fn beginning_is_kept(start: Seq<char>, end: Seq<char>)
    ensures
        (start + end).take(start.len() as int) == start,
{
    assert((start + end).take(start.len() as int) =~= start);
}

/// The milliseconds stand last in a timestamp, in three digits or as many as
/// they need, and change nothing that stands before them.
#[verifier::spinoff_prover]
pub proof fn milliseconds_stand_last(time: CivilTime, millis: int)
    requires
        millis >= 0,
    ensures
        ({
            let whole = timestamp_text(time, 0);
            timestamp_text(time, millis) == whole.take(whole.len() - 4) + padded_number(millis, 3)
                + seq!['Z']
        }),
{
    three_digits(0);
    let whole = timestamp_text(time, 0);
    let start = padded_number(time.year, 4) + seq!['-'] + padded_number(time.month, 2) + seq!['-']
        + padded_number(time.day, 2) + seq!['T'] + padded_number(time.hour, 2) + seq![':']
        + padded_number(time.minute, 2) + seq![':'] + padded_number(time.second, 2) + seq!['.'];
    joined_first(start, padded_number(0, 3), seq!['Z']);
    beginning_is_kept(start, padded_number(0, 3) + seq!['Z']);
}

}
