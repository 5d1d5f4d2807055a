//! Dates and times of day as plain values, built, shifted, written and read
//! with the `chrono` crate.

use crate::error::SyncError;
use crate::utils_module::calendar::{
    compact_text, dashed_date_text, days_in_month, decimal_text, digit_char, invalid_date_text,
    invalid_time_text, is_calendar_date, is_clock_time, padded_digits, shifted_month, zulu_text,
    MAX_YEAR, MIN_YEAR,
};
use vstd::prelude::*;
use vstd::string::*;

verus! {

/// What a [`NaiveDate`] stands for.
pub struct DateView {
    pub year: int,
    pub month: int,
    pub day: int,
}

/// What a [`NaiveTime`] stands for.
pub struct TimeView {
    pub hour: int,
    pub minute: int,
    pub second: int,
    pub nano: int,
}

/// What a [`NaiveDateTime`] stands for.
pub struct DateTimeView {
    pub date: DateView,
    pub time: TimeView,
}

impl DateView {
    /// The date exists.
    pub open spec fn valid(self) -> bool {
        is_calendar_date(self.year, self.month, self.day)
    }

    /// The date as `YYYY-MM-DD`.
    pub open spec fn dashed(self) -> Seq<char> {
        dashed_date_text(self.year, self.month, self.day)
    }
}

impl TimeView {
    /// The time of day exists.
    pub open spec fn valid(self) -> bool {
        is_clock_time(self.hour, self.minute, self.second, self.nano)
    }

    /// The second as it is written: 60 within a leap second.
    pub open spec fn shown_second(self) -> int {
        self.second + self.nano / 1_000_000_000
    }
}

impl DateTimeView {
    /// Both parts exist.
    pub open spec fn valid(self) -> bool {
        self.date.valid() && self.time.valid()
    }

    /// The moment as `YYYY-MM-DDTHH:MM:SSZ`.
    pub open spec fn zulu(self) -> Seq<char> {
        zulu_text(
            self.date.year,
            self.date.month,
            self.date.day,
            self.time.hour,
            self.time.minute,
            self.time.shown_second(),
        )
    }

    /// The moment as `YYYYMMDDHHMMSS`.
    pub open spec fn compact(self) -> Seq<char> {
        compact_text(
            self.date.year,
            self.date.month,
            self.date.day,
            self.time.hour,
            self.time.minute,
            self.time.shown_second(),
        )
    }

    /// `self` lies strictly before `other`.
    pub open spec fn before(self, other: DateTimeView) -> bool {
        moment_key(self) < moment_key(other)
    }
}

/// A number that orders moments as the calendar does.
pub open spec fn moment_key(m: DateTimeView) -> int {
    ((((((m.date.year * 13 + m.date.month) * 32 + m.date.day) * 24 + m.time.hour) * 60
        + m.time.minute) * 60 + m.time.second) * 2_000_000_000) + m.time.nano
}

/// A calendar date without a time zone.
#[derive(Clone, Copy, Debug)]
pub struct NaiveDate {
    year: i32,
    month: u32,
    day: u32,
}

/// A time of day without a time zone.
#[derive(Clone, Copy, Debug)]
pub struct NaiveTime {
    hour: u32,
    minute: u32,
    second: u32,
    nano: u32,
}

/// A date with a time of day, without a time zone.
#[derive(Clone, Copy, Debug)]
pub struct NaiveDateTime {
    date: NaiveDate,
    time: NaiveTime,
}

impl View for NaiveDate {
    type V = DateView;

    closed spec fn view(&self) -> DateView {
        DateView { year: self.year as int, month: self.month as int, day: self.day as int }
    }
}

impl View for NaiveTime {
    type V = TimeView;

    closed spec fn view(&self) -> TimeView {
        TimeView {
            hour: self.hour as int,
            minute: self.minute as int,
            second: self.second as int,
            nano: self.nano as int,
        }
    }
}

impl View for NaiveDateTime {
    type V = DateTimeView;

    closed spec fn view(&self) -> DateTimeView {
        DateTimeView { date: self.date@, time: self.time@ }
    }
}

impl NaiveDate {
    #[verifier::type_invariant]
    spec fn exists_in_calendar(self) -> bool {
        is_calendar_date(self.year as int, self.month as int, self.day as int)
    }

    /// The year.
    pub fn year(&self) -> (y: i32)
        ensures
            y == self@.year,
            self@.valid(),
    {
        proof {
            use_type_invariant(self);
        }
        self.year
    }

    /// The month, from 1 to 12.
    pub fn month(&self) -> (m: u32)
        ensures
            m == self@.month,
            1 <= m <= 12,
            self@.valid(),
    {
        proof {
            use_type_invariant(self);
        }
        self.month
    }

    /// The day of the month, from 1.
    pub fn day(&self) -> (d: u32)
        ensures
            d == self@.day,
            1 <= d <= 31,
            self@.valid(),
    {
        proof {
            use_type_invariant(self);
        }
        self.day
    }
}

impl NaiveTime {
    #[verifier::type_invariant]
    spec fn exists_on_clock(self) -> bool {
        is_clock_time(self.hour as int, self.minute as int, self.second as int, self.nano as int)
    }

    /// The hour, from 0 to 23.
    pub fn hour(&self) -> (h: u32)
        ensures
            h == self@.hour,
            self@.valid(),
    {
        proof {
            use_type_invariant(self);
        }
        self.hour
    }

    /// The minute, from 0 to 59.
    pub fn minute(&self) -> (m: u32)
        ensures
            m == self@.minute,
            self@.valid(),
    {
        proof {
            use_type_invariant(self);
        }
        self.minute
    }

    /// The second, from 0 to 59.
    pub fn second(&self) -> (s: u32)
        ensures
            s == self@.second,
            self@.valid(),
    {
        proof {
            use_type_invariant(self);
        }
        self.second
    }

    /// The nanoseconds past the second.
    pub fn nanosecond(&self) -> (n: u32)
        ensures
            n == self@.nano,
            self@.valid(),
    {
        proof {
            use_type_invariant(self);
        }
        self.nano
    }
}

impl NaiveDateTime {
    /// Joins a date and a time of day.
    pub fn new(date: NaiveDate, time: NaiveTime) -> (dt: NaiveDateTime)
        ensures
            dt@ == (DateTimeView { date: date@, time: time@ }),
            dt@.valid(),
    {
        proof {
            use_type_invariant(&date);
            use_type_invariant(&time);
        }
        NaiveDateTime { date, time }
    }

    /// The date part.
    pub fn date(&self) -> (d: NaiveDate)
        ensures
            d@ == self@.date,
            self@.valid(),
    {
        proof {
            use_type_invariant(&self.date);
            use_type_invariant(&self.time);
        }
        self.date
    }

    /// The time of day.
    pub fn time(&self) -> (t: NaiveTime)
        ensures
            t@ == self@.time,
            self@.valid(),
    {
        proof {
            use_type_invariant(&self.date);
            use_type_invariant(&self.time);
        }
        self.time
    }

    /// Whether `self` lies strictly before `other`.
    pub fn is_before(&self, other: &NaiveDateTime) -> (b: bool)
        ensures
            b == self@.before(other@),
    {
        proof {
            use_type_invariant(&self.date);
            use_type_invariant(&self.time);
            use_type_invariant(&other.date);
            use_type_invariant(&other.time);
            lemma_moment_key_orders(self@, other@);
        }
        let a = (
            self.date.year,
            self.date.month,
            self.date.day,
            self.time.hour,
            self.time.minute,
            self.time.second,
            self.time.nano,
        );
        let b = (
            other.date.year,
            other.date.month,
            other.date.day,
            other.time.hour,
            other.time.minute,
            other.time.second,
            other.time.nano,
        );
        if a.0 != b.0 {
            a.0 < b.0
        } else if a.1 != b.1 {
            a.1 < b.1
        } else if a.2 != b.2 {
            a.2 < b.2
        } else if a.3 != b.3 {
            a.3 < b.3
        } else if a.4 != b.4 {
            a.4 < b.4
        } else if a.5 != b.5 {
            a.5 < b.5
        } else {
            a.6 < b.6
        }
    }
}

/// The field-by-field order of two moments that exist.
pub open spec fn fieldwise_before(a: DateTimeView, b: DateTimeView) -> bool {
    if a.date.year != b.date.year {
        a.date.year < b.date.year
    } else if a.date.month != b.date.month {
        a.date.month < b.date.month
    } else if a.date.day != b.date.day {
        a.date.day < b.date.day
    } else if a.time.hour != b.time.hour {
        a.time.hour < b.time.hour
    } else if a.time.minute != b.time.minute {
        a.time.minute < b.time.minute
    } else if a.time.second != b.time.second {
        a.time.second < b.time.second
    } else {
        a.time.nano < b.time.nano
    }
}

/// For moments that exist, the order by [`moment_key`] is the order field by
/// field, from the year down to the nanosecond.
pub proof fn lemma_moment_key_orders(a: DateTimeView, b: DateTimeView)
    requires
        a.valid(),
        b.valid(),
    ensures
        a.before(b) == fieldwise_before(a, b),
        moment_key(a) == moment_key(b) <==> a == b,
{
    let da = (a.date.year * 13 + a.date.month) * 32 + a.date.day;
    let db = (b.date.year * 13 + b.date.month) * 32 + b.date.day;
    let ta = ((a.time.hour * 60 + a.time.minute) * 60 + a.time.second) * 2_000_000_000
        + a.time.nano;
    let tb = ((b.time.hour * 60 + b.time.minute) * 60 + b.time.second) * 2_000_000_000
        + b.time.nano;
    assert(0 <= ta < 172_800_000_000_000);
    assert(0 <= tb < 172_800_000_000_000);
    assert(moment_key(a) == da * 172_800_000_000_000 + ta) by (nonlinear_arith)
        requires
            da == (a.date.year * 13 + a.date.month) * 32 + a.date.day,
            ta == ((a.time.hour * 60 + a.time.minute) * 60 + a.time.second) * 2_000_000_000
                + a.time.nano,
            moment_key(a) == ((((((a.date.year * 13 + a.date.month) * 32 + a.date.day) * 24
                + a.time.hour) * 60 + a.time.minute) * 60 + a.time.second) * 2_000_000_000)
                + a.time.nano,
    ;
    assert(moment_key(b) == db * 172_800_000_000_000 + tb) by (nonlinear_arith)
        requires
            db == (b.date.year * 13 + b.date.month) * 32 + b.date.day,
            tb == ((b.time.hour * 60 + b.time.minute) * 60 + b.time.second) * 2_000_000_000
                + b.time.nano,
            moment_key(b) == ((((((b.date.year * 13 + b.date.month) * 32 + b.date.day) * 24
                + b.time.hour) * 60 + b.time.minute) * 60 + b.time.second) * 2_000_000_000)
                + b.time.nano,
    ;
}

/// `chrono::NaiveDate::from_ymd_opt`: whether it has a date for the three
/// numbers. It has one exactly for the days of the proleptic Gregorian
/// calendar whose year lies from `MIN_YEAR` to `MAX_YEAR`.
#[verifier::external_body]
fn chrono_has_date(year: i32, month: u32, day: u32) -> (found: bool)
    ensures
        found == is_calendar_date(year as int, month as int, day as int),
{
    chrono::NaiveDate::from_ymd_opt(year, month, day).is_some()
}

/// `chrono::NaiveTime::from_hms_opt`: whether it has a time of day for the
/// three numbers. It has one exactly for an hour below 24 with a minute and
/// a second below 60.
#[verifier::external_body]
fn chrono_has_time(hour: u32, min: u32, sec: u32) -> (found: bool)
    ensures
        found == (hour < 24 && min < 60 && sec < 60),
{
    chrono::NaiveTime::from_hms_opt(hour, min, sec).is_some()
}

/// The digit `d` as text.
fn digit_str(d: u64) -> (s: &'static str)
    requires
        d < 10,
    ensures
        s@ == seq![digit_char(d as int)],
{
    proof {
        reveal_strlit("0");
        reveal_strlit("1");
        reveal_strlit("2");
        reveal_strlit("3");
        reveal_strlit("4");
        reveal_strlit("5");
        reveal_strlit("6");
        reveal_strlit("7");
        reveal_strlit("8");
        reveal_strlit("9");
    }
    let s = if d == 0 {
        "0"
    } else if d == 1 {
        "1"
    } else if d == 2 {
        "2"
    } else if d == 3 {
        "3"
    } else if d == 4 {
        "4"
    } else if d == 5 {
        "5"
    } else if d == 6 {
        "6"
    } else if d == 7 {
        "7"
    } else if d == 8 {
        "8"
    } else {
        "9"
    };
    assert(s@ =~= seq![digit_char(d as int)]);
    s
}

/// A number without sign in decimal.
fn digits_text(v: u64) -> (text: String)
    ensures
        text@ == padded_digits(v as nat, 1),
    decreases v,
{
    if v < 10 {
        String::from_str(digit_str(v))
    } else {
        let mut text = digits_text(v / 10);
        text.append(digit_str(v % 10));
        assert(text@ =~= padded_digits(v as nat, 1)) by {
            assert(padded_digits((v / 10) as nat, 0) == padded_digits((v / 10) as nat, 1));
        }
        text
    }
}

/// A whole number in decimal, with a minus sign where it is negative.
pub fn whole_number_text(v: i64) -> (text: String)
    ensures
        text@ == decimal_text(v as int),
{
    if v < 0 {
        let magnitude: u64 = (-(v as i128)) as u64;
        let mut text = String::from_str("-");
        let digits = digits_text(magnitude);
        text.append(digits.as_str());
        proof {
            reveal_strlit("-");
            assert("-"@ =~= seq!['-']);
        }
        text
    } else {
        digits_text(v as u64)
    }
}

/// The failure that says `prefix` and then `value`.
pub fn parse_failure_of(prefix: &str, value: &str) -> (e: SyncError)
    ensures
        e matches SyncError::Parse { detail } && detail@ == prefix@ + value@,
{
    let mut detail = String::from_str(prefix);
    detail.append(value);
    SyncError::Parse { detail }
}

/// The failure of a date that does not exist.
fn invalid_date(year: i64, month: u32, day: u32) -> (e: SyncError)
    ensures
        e matches SyncError::Parse { detail } && detail@ == invalid_date_text(
            year as int,
            month as int,
            day as int,
        ),
{
    let mut detail = String::from_str("Invalid date => year: ");
    detail.append(whole_number_text(year).as_str());
    detail.append(", month: ");
    detail.append(whole_number_text(month as i64).as_str());
    detail.append(", day: ");
    detail.append(whole_number_text(day as i64).as_str());
    SyncError::Parse { detail }
}

/// The failure of a time of day that does not exist.
fn invalid_time(hour: u32, min: u32, sec: u32) -> (e: SyncError)
    ensures
        e matches SyncError::Parse { detail } && detail@ == invalid_time_text(
            hour as int,
            min as int,
            sec as int,
        ),
{
    let mut detail = String::from_str("Invalid time => hour: ");
    detail.append(whole_number_text(hour as i64).as_str());
    detail.append(", min: ");
    detail.append(whole_number_text(min as i64).as_str());
    detail.append(", sec: ");
    detail.append(whole_number_text(sec as i64).as_str());
    SyncError::Parse { detail }
}

/// The date of `year`, `month` and `date`, if the calendar has it.
pub fn get_naivedate(year: i32, month: u32, date: u32) -> (r: Result<NaiveDate, SyncError>)
    ensures
        r is Ok <==> is_calendar_date(year as int, month as int, date as int),
        r matches Ok(d) ==> d@ == (DateView {
            year: year as int,
            month: month as int,
            day: date as int,
        }),
        r matches Err(e) ==> e matches SyncError::Parse { detail } && detail@
            == invalid_date_text(year as int, month as int, date as int),
{
    if chrono_has_date(year, month, date) {
        Ok(NaiveDate { year, month, day: date })
    } else {
        Err(invalid_date(year as i64, month, date))
    }
}

/// The time of day of `hour`, `min` and `sec`, if the clock has it.
pub fn get_naivetime(hour: u32, min: u32, sec: u32) -> (r: Result<NaiveTime, SyncError>)
    ensures
        r is Ok <==> hour < 24 && min < 60 && sec < 60,
        r matches Ok(t) ==> t@ == (TimeView {
            hour: hour as int,
            minute: min as int,
            second: sec as int,
            nano: 0,
        }),
        r matches Err(e) ==> e matches SyncError::Parse { detail } && detail@
            == invalid_time_text(hour as int, min as int, sec as int),
{
    if chrono_has_time(hour, min, sec) {
        Ok(NaiveTime { hour, minute: min, second: sec, nano: 0 })
    } else {
        Err(invalid_time(hour, min, sec))
    }
}

/// The moment of the six numbers, if both its date and its time exist. Where
/// neither exists, the failure is that of the date.
pub fn get_naivedatetime(year: i32, month: u32, date: u32, hour: u32, min: u32, sec: u32) -> (r:
    Result<NaiveDateTime, SyncError>)
    ensures
        r is Ok <==> is_calendar_date(year as int, month as int, date as int) && hour < 24 && min
            < 60 && sec < 60,
        r matches Ok(dt) ==> dt@ == (DateTimeView {
            date: DateView { year: year as int, month: month as int, day: date as int },
            time: TimeView { hour: hour as int, minute: min as int, second: sec as int, nano: 0 },
        }),
        r matches Err(e) ==> e matches SyncError::Parse { detail } && detail@
            == if !is_calendar_date(year as int, month as int, date as int) {
            invalid_date_text(year as int, month as int, date as int)
        } else {
            invalid_time_text(hour as int, min as int, sec as int)
        },
{
    let date = match get_naivedate(year, month, date) {
        Ok(d) => d,
        Err(e) => {
            return Err(e);
        },
    };
    let time = match get_naivetime(hour, min, sec) {
        Ok(t) => t,
        Err(e) => {
            return Err(e);
        },
    };
    Ok(NaiveDateTime::new(date, time))
}

/// The layout in which a date is written.
pub open spec fn is_date_layout(fmt: Seq<char>) -> bool {
    fmt == "%Y-%m-%d"@
}

/// The layouts in which a moment is written.
pub open spec fn is_moment_layout(fmt: Seq<char>) -> bool {
    fmt == "%Y-%m-%dT%H:%M:%SZ"@ || fmt == "%Y%m%d%H%M%S"@
}

/// A moment written in one of its layouts.
pub open spec fn moment_text(fmt: Seq<char>, moment: DateTimeView) -> Seq<char> {
    if fmt == "%Y%m%d%H%M%S"@ {
        moment.compact()
    } else {
        moment.zulu()
    }
}

/// The day before `date`.
pub open spec fn previous_day(date: DateView) -> DateView {
    if date.day > 1 {
        DateView { year: date.year, month: date.month, day: date.day - 1 }
    } else if date.month > 1 {
        DateView {
            year: date.year,
            month: date.month - 1,
            day: days_in_month(date.year, date.month - 1),
        }
    } else {
        DateView { year: date.year - 1, month: 12, day: 31 }
    }
}

/// `chrono::NaiveDate::format` with the layout `%Y-%m-%d`: the year as
/// [`crate::utils_module::calendar::year_text`] has it, then month and day
/// with two digits each, joined by hyphens.
#[verifier::external_body]
fn chrono_format_date(date: &NaiveDate, fmt: &str) -> (text: String)
    requires
        is_date_layout(fmt@),
    ensures
        text@ == date@.dashed(),
{
    let d = chrono::NaiveDate::from_ymd_opt(date.year, date.month, date.day).unwrap();
    d.format(fmt).to_string()
}

/// `chrono::NaiveDateTime::format` with one of the two layouts of a moment:
/// each number is written with two digits, the year as
/// [`crate::utils_module::calendar::year_text`] has it, and the letters and
/// marks of the layout stand as they are. Fractions of a second are not
/// written, and a leap second shows as second 60.
#[verifier::external_body]
pub(crate) fn chrono_format_moment(moment: &NaiveDateTime, fmt: &str) -> (text: String)
    requires
        is_moment_layout(fmt@),
    ensures
        text@ == moment_text(fmt@, moment@),
{
    let d = chrono::NaiveDate::from_ymd_opt(moment.date.year, moment.date.month, moment.date.day)
        .unwrap();
    let (h, m, s) = (moment.time.hour, moment.time.minute, moment.time.second);
    let t = chrono::NaiveTime::from_hms_nano_opt(h, m, s, moment.time.nano).unwrap();
    chrono::NaiveDateTime::new(d, t).format(fmt).to_string()
}

/// `chrono::NaiveDate::pred_opt`: the day before, a date that exists, for
/// every date but the first one of `MIN_YEAR`.
#[verifier::external_body]
fn chrono_previous_day(date: &NaiveDate) -> (r: Option<NaiveDate>)
    ensures
        r is Some <==> !(date@.year == MIN_YEAR && date@.month == 1 && date@.day == 1),
        r matches Some(p) ==> p@ == previous_day(date@) && p@.valid(),
{
    let d = chrono::NaiveDate::from_ymd_opt(date.year, date.month, date.day).unwrap();
    let p = d.pred_opt()?;
    Some(NaiveDate {
        year: chrono::Datelike::year(&p),
        month: chrono::Datelike::month(&p),
        day: chrono::Datelike::day(&p),
    })
}

/// The two layouts of a moment are different texts.
pub proof fn lemma_moment_layouts_differ()
    ensures
        "%Y-%m-%dT%H:%M:%SZ"@ != "%Y%m%d%H%M%S"@,
{
    reveal_strlit("%Y-%m-%dT%H:%M:%SZ");
    reveal_strlit("%Y%m%d%H%M%S");
    assert("%Y-%m-%dT%H:%M:%SZ"@.len() == 18);
    assert("%Y%m%d%H%M%S"@.len() == 12);
}

/// The date as `YYYY-MM-DD`.
pub fn get_str_from_naivedate(naive_date: NaiveDate) -> (text: String)
    ensures
        text@ == naive_date@.dashed(),
{
    chrono_format_date(&naive_date, "%Y-%m-%d")
}

/// The moment as `YYYY-MM-DDTHH:MM:SSZ`.
pub fn get_str_from_naive_datetime(naive_datetime: NaiveDateTime) -> (text: String)
    ensures
        text@ == naive_datetime@.zulu(),
{
    proof {
        lemma_moment_layouts_differ();
    }
    chrono_format_moment(&naive_datetime, "%Y-%m-%dT%H:%M:%SZ")
}

/// The moment as `YYYYMMDDHHMMSS`.
pub fn get_compact_str_from_naive_datetime(naive_datetime: NaiveDateTime) -> (text: String)
    ensures
        text@ == naive_datetime@.compact(),
{
    chrono_format_moment(&naive_datetime, "%Y%m%d%H%M%S")
}

/// The last day of the month that `naive_date` lies in. There is none to
/// give for the last month of `MAX_YEAR`, whose following month cannot be
/// built.
pub fn get_lastday_naivedate(naive_date: NaiveDate) -> (r: Result<NaiveDate, SyncError>)
    ensures
        r is Ok <==> !(naive_date@.year == MAX_YEAR && naive_date@.month == 12),
        r matches Ok(d) ==> d@ == (DateView {
            year: naive_date@.year,
            month: naive_date@.month,
            day: days_in_month(naive_date@.year, naive_date@.month),
        }),
        r matches Err(e) ==> e matches SyncError::Parse { detail } && detail@
            == invalid_date_text(MAX_YEAR + 1, 1, 1),
{
    let year = naive_date.year();
    let month = naive_date.month();
    let next_month = if month == 12 {
        get_naivedate(year + 1, 1, 1)
    } else {
        get_naivedate(year, month + 1, 1)
    };
    let first = match next_month {
        Ok(d) => d,
        Err(e) => {
            return Err(e);
        },
    };
    match chrono_previous_day(&first) {
        Some(d) => Ok(d),
        None => Err(invalid_date(first.year() as i64, first.month(), first.day())),
    }
}

/// The date `add_month` months after `naive_date` (before it, for a negative
/// number): the same day of the month, or the last day of that month where
/// the month is shorter. There is none to give outside the years from
/// `MIN_YEAR` to `MAX_YEAR`, nor for the last month of `MAX_YEAR`.
pub fn get_add_month_from_naivedate(naive_date: NaiveDate, add_month: i32) -> (r: Result<
    NaiveDate,
    SyncError,
>)
    ensures
        ({
            let (y, m) = shifted_month(naive_date@.year, naive_date@.month, add_month as int);
            let last = days_in_month(y, m);
            &&& r is Ok <==> MIN_YEAR <= y <= MAX_YEAR && !(y == MAX_YEAR && m == 12)
            &&& r matches Ok(d) ==> d@ == (DateView {
                year: y,
                month: m,
                day: if naive_date@.day > last {
                    last
                } else {
                    naive_date@.day
                },
            })
            &&& r matches Err(e) ==> e matches SyncError::Parse { detail } && detail@ == if y
                == MAX_YEAR && m == 12 {
                invalid_date_text(MAX_YEAR + 1, 1, 1)
            } else {
                invalid_date_text(y, m, 1)
            }
        }),
{
    let months: i64 = naive_date.year() as i64 * 12 + (naive_date.month() as i64 - 1)
        + add_month as i64;
    let shifted: i64 = months + 12 * 4_000_000_000i64;
    let wide_year: i64 = shifted / 12 - 4_000_000_000i64;
    let new_month: u32 = (shifted % 12 + 1) as u32;
    if wide_year < MIN_YEAR as i64 || wide_year > MAX_YEAR as i64 {
        return Err(invalid_date(wide_year, new_month, 1));
    }
    let new_year: i32 = wide_year as i32;
    let mut input_day: u32 = naive_date.day();
    let new_date = match get_naivedate(new_year, new_month, 1) {
        Ok(d) => d,
        Err(e) => {
            return Err(e);
        },
    };
    let last_day = match get_lastday_naivedate(new_date) {
        Ok(d) => d.day(),
        Err(e) => {
            return Err(e);
        },
    };
    if input_day > last_day {
        input_day = last_day;
    }
    get_naivedate(new_year, new_month, input_day)
}

/// What `chrono::NaiveDateTime::parse_from_str` reads from `text` under the
/// layout `fmt`; `None` where it reports an error.
pub uninterp spec fn chrono_parsed_moment(text: Seq<char>, fmt: Seq<char>) -> Option<DateTimeView>;

/// What `chrono::NaiveDate::parse_from_str` reads from `text` under the
/// layout `fmt`; `None` where it reports an error.
pub uninterp spec fn chrono_parsed_date(text: Seq<char>, fmt: Seq<char>) -> Option<DateView>;

/// What `chrono::NaiveDate::checked_add_signed` gives for `date` and a span
/// of `days` whole days; `None` where the sum leaves the supported years.
pub uninterp spec fn chrono_date_plus_days(date: DateView, days: int) -> Option<DateView>;

/// Whether `regex::Regex::new` accepts `pattern` as a regular expression.
pub uninterp spec fn regex_accepted(pattern: Seq<char>) -> bool;

/// Whether `regex::Regex::is_match` finds a match of the regular expression
/// `pattern` in `text`.
pub uninterp spec fn regex_found(pattern: Seq<char>, text: Seq<char>) -> bool;

/// `chrono::NaiveDateTime::parse_from_str`, its result taken apart into
/// plain numbers. What it reads is a moment that exists.
#[verifier::external_body]
fn chrono_parse_moment(date: &str, format: &str) -> (r: Option<NaiveDateTime>)
    ensures
        r matches Some(m) ==> chrono_parsed_moment(date@, format@) == Some(m@) && m@.valid(),
        r is None ==> chrono_parsed_moment(date@, format@) is None,
{
    let p = chrono::NaiveDateTime::parse_from_str(date, format).ok()?;
    let (d, t) = (p.date(), p.time());
    let year = chrono::Datelike::year(&d);
    let date = NaiveDate { year, month: chrono::Datelike::month(&d), day: chrono::Datelike::day(&d) };
    let time = NaiveTime {
        hour: chrono::Timelike::hour(&t),
        minute: chrono::Timelike::minute(&t),
        second: chrono::Timelike::second(&t),
        nano: chrono::Timelike::nanosecond(&t),
    };
    Some(NaiveDateTime { date, time })
}

/// `chrono::NaiveDate::parse_from_str`, its result taken apart into plain
/// numbers. What it reads is a date that exists.
#[verifier::external_body]
fn chrono_parse_date(date: &str, format: &str) -> (r: Option<NaiveDate>)
    ensures
        r matches Some(d) ==> chrono_parsed_date(date@, format@) == Some(d@) && d@.valid(),
        r is None ==> chrono_parsed_date(date@, format@) is None,
{
    let d = chrono::NaiveDate::parse_from_str(date, format).ok()?;
    let year = chrono::Datelike::year(&d);
    Some(NaiveDate { year, month: chrono::Datelike::month(&d), day: chrono::Datelike::day(&d) })
}

/// `chrono::NaiveDate::checked_add_signed` with a span of whole days, its
/// result taken apart into plain numbers. What it gives is a date that
/// exists.
#[verifier::external_body]
fn chrono_add_days(date: &NaiveDate, add_day: i32) -> (r: Option<NaiveDate>)
    ensures
        r matches Some(d) ==> chrono_date_plus_days(date@, add_day as int) == Some(d@)
            && d@.valid(),
        r is None ==> chrono_date_plus_days(date@, add_day as int) is None,
{
    let from = chrono::NaiveDate::from_ymd_opt(date.year, date.month, date.day).unwrap();
    let d = from.checked_add_signed(chrono::Duration::days(add_day.into()))?;
    let year = chrono::Datelike::year(&d);
    Some(NaiveDate { year, month: chrono::Datelike::month(&d), day: chrono::Datelike::day(&d) })
}

/// `regex::Regex::new`: whether it accepts the pattern.
#[verifier::external_body]
fn regex_compiles(pattern: &str) -> (accepted: bool)
    ensures
        accepted == regex_accepted(pattern@),
{
    regex::Regex::new(pattern).is_ok()
}

/// `regex::Regex::is_match` of the expression that `pattern` compiles to.
#[verifier::external_body]
fn regex_is_match(pattern: &str, text: &str) -> (found: bool)
    requires
        regex_accepted(pattern@),
    ensures
        found == regex_found(pattern@, text@),
{
    regex::Regex::new(pattern).unwrap().is_match(text)
}

/// `chrono::Utc::now`, as the date and time of day in UTC. Whatever the
/// clock shows, it is a moment that exists.
#[verifier::external_body]
fn chrono_utc_now() -> (now: NaiveDateTime)
    ensures
        now@.valid(),
{
    let p = chrono::Utc::now().naive_utc();
    let (d, t) = (p.date(), p.time());
    let year = chrono::Datelike::year(&d);
    let date = NaiveDate { year, month: chrono::Datelike::month(&d), day: chrono::Datelike::day(&d) };
    let time = NaiveTime {
        hour: chrono::Timelike::hour(&t),
        minute: chrono::Timelike::minute(&t),
        second: chrono::Timelike::second(&t),
        nano: chrono::Timelike::nanosecond(&t),
    };
    NaiveDateTime { date, time }
}

/// `chrono::DateTime::with_timezone` to `chrono_tz::Asia::Seoul` of
/// `chrono::Utc::now`, as the local date and time of day. Whatever the clock
/// shows, it is a moment that exists.
#[verifier::external_body]
fn chrono_seoul_now() -> (now: NaiveDateTime)
    ensures
        now@.valid(),
{
    let p = chrono::Utc::now().with_timezone(&chrono_tz::Asia::Seoul).naive_local();
    let (d, t) = (p.date(), p.time());
    let year = chrono::Datelike::year(&d);
    let date = NaiveDate { year, month: chrono::Datelike::month(&d), day: chrono::Datelike::day(&d) };
    let time = NaiveTime {
        hour: chrono::Timelike::hour(&t),
        minute: chrono::Timelike::minute(&t),
        second: chrono::Timelike::second(&t),
        nano: chrono::Timelike::nanosecond(&t),
    };
    NaiveDateTime { date, time }
}

/// Reads a moment from `date` under the layout `format`.
pub fn get_naive_datetime_from_str(date: &str, format: &str) -> (r: Result<
    NaiveDateTime,
    SyncError,
>)
    ensures
        r matches Ok(m) ==> chrono_parsed_moment(date@, format@) == Some(m@) && m@.valid(),
        r matches Err(e) ==> e matches SyncError::Parse { detail } && detail@
            == "Failed to parse date string: "@ + date@ && chrono_parsed_moment(
            date@,
            format@,
        ) is None,
{
    match chrono_parse_moment(date, format) {
        Some(m) => Ok(m),
        None => Err(parse_failure_of("Failed to parse date string: ", date)),
    }
}

/// Reads a date from `date` under the layout `format`.
pub fn get_naive_date_from_str(date: &str, format: &str) -> (r: Result<NaiveDate, SyncError>)
    ensures
        r matches Ok(d) ==> chrono_parsed_date(date@, format@) == Some(d@) && d@.valid(),
        r matches Err(e) ==> e matches SyncError::Parse { detail } && detail@
            == "Failed to parse date string: "@ + date@ && chrono_parsed_date(
            date@,
            format@,
        ) is None,
{
    match chrono_parse_date(date, format) {
        Some(d) => Ok(d),
        None => Err(parse_failure_of("Failed to parse date string: ", date)),
    }
}

/// The date `add_day` days after `naive_date` (before it, for a negative
/// number).
pub fn get_add_date_from_naivedate(naive_date: NaiveDate, add_day: i32) -> (r: Result<
    NaiveDate,
    SyncError,
>)
    ensures
        r matches Ok(d) ==> chrono_date_plus_days(naive_date@, add_day as int) == Some(d@)
            && d@.valid(),
        r matches Err(e) ==> e matches SyncError::Parse { detail } && detail@
            == "Invalid date calculation"@ && chrono_date_plus_days(
            naive_date@,
            add_day as int,
        ) is None,
{
    match chrono_add_days(&naive_date, add_day) {
        Some(d) => Ok(d),
        None => {
            proof {
                reveal_strlit("");
                assert("Invalid date calculation"@ + ""@ =~= "Invalid date calculation"@);
            }
            Err(parse_failure_of("Invalid date calculation", ""))
        },
    }
}

/// Whether `date_str` holds a match of the regular expression `format`. A
/// `format` that is no regular expression is refused.
pub fn validate_date_format(date_str: &str, format: &str) -> (r: Result<bool, SyncError>)
    ensures
        r is Ok <==> regex_accepted(format@),
        r matches Ok(b) ==> b == regex_found(format@, date_str@),
        r matches Err(e) ==> e matches SyncError::Parse { detail } && detail@
            == "Invalid regular expression: "@ + format@,
{
    if regex_compiles(format) {
        Ok(regex_is_match(format, date_str))
    } else {
        Err(parse_failure_of("Invalid regular expression: ", format))
    }
}

/// The current moment in UTC.
pub fn get_current_utc_naive_datetime() -> (now: NaiveDateTime)
    ensures
        now@.valid(),
{
    chrono_utc_now()
}

/// The current moment on the clocks of Seoul.
pub fn get_current_kor_naive_datetime() -> (now: NaiveDateTime)
    ensures
        now@.valid(),
{
    chrono_seoul_now()
}

/// The current date in Seoul.
pub fn get_current_kor_naivedate() -> (today: NaiveDate)
    ensures
        today@.valid(),
{
    chrono_seoul_now().date()
}

/// The first day of the current month in Seoul.
pub fn get_current_kor_naivedate_first_date() -> (r: Result<NaiveDate, SyncError>)
    ensures
        r matches Ok(d) && d@.valid() && d@.day == 1,
{
    let today = chrono_seoul_now().date();
    get_naivedate(today.year(), today.month(), 1)
}

/// The current moment in Seoul as `YYYY-MM-DDTHH:MM:SSZ`.
pub fn get_str_curdatetime() -> (text: String)
    ensures
        exists|m: DateTimeView| m.valid() && text@ == #[trigger] m.zulu(),
{
    let now = chrono_seoul_now();
    get_str_from_naive_datetime(now)
}

/// The current moment in UTC as `YYYY-MM-DDTHH:MM:SSZ`.
pub fn get_str_curdatetime_utc() -> (text: String)
    ensures
        exists|m: DateTimeView| m.valid() && text@ == #[trigger] m.zulu(),
{
    let now = chrono_utc_now();
    get_str_from_naive_datetime(now)
}

/// What [`get_this_year_naivedatetime`] returns when the current year in
/// Seoul is `year`.
pub open spec fn this_year_outcome(
    r: Result<NaiveDateTime, SyncError>,
    year: int,
    month: u32,
    date: u32,
    hour: u32,
    min: u32,
) -> bool {
    &&& r is Ok <==> is_calendar_date(year, month as int, date as int) && hour < 24 && min < 60
    &&& r matches Ok(m) ==> m@ == (DateTimeView {
        date: DateView { year, month: month as int, day: date as int },
        time: TimeView { hour: hour as int, minute: min as int, second: 0, nano: 0 },
    })
    &&& r matches Err(e) ==> e matches SyncError::Parse { detail } && detail@
        == if !is_calendar_date(year, month as int, date as int) {
        invalid_date_text(year, month as int, date as int)
    } else {
        invalid_time_text(hour as int, min as int, 0)
    }
}

/// The moment of the given month, day, hour and minute in the current year
/// of Seoul, at second 0.
pub fn get_this_year_naivedatetime(month: u32, date: u32, hour: u32, min: u32) -> (r: Result<
    NaiveDateTime,
    SyncError,
>)
    ensures
        exists|year: int|
            MIN_YEAR <= year <= MAX_YEAR && #[trigger] this_year_outcome(
                r,
                year,
                month,
                date,
                hour,
                min,
            ),
{
    let curr_date = chrono_seoul_now();
    let now_year = curr_date.date().year();
    let r = get_naivedatetime(now_year, month, date, hour, min, 0);
    assert(this_year_outcome(r, now_year as int, month, date, hour, min));
    r
}

} // verus!
