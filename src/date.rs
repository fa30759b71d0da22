//! Calendar dates as plain values, with chrono's calendar arithmetic behind them, and the
//! dates that the menu commands ask the feed for.
use crate::command::{
    period_start_day, period_start_month, period_start_month_of, period_start_of, DayArgument,
};
use chrono::Datelike;
use vstd::prelude::*;

verus! {

/// The earliest year chrono's dates reach.
pub const MIN_YEAR: i32 = -262143;

/// The latest year chrono's dates reach.
pub const MAX_YEAR: i32 = 262142;

/// A day of the proleptic Gregorian calendar.
#[derive(Clone, Copy, Debug, PartialEq, Eq, Structural)]
pub struct Date {
    pub year: i32,
    pub month: u32,
    pub day: u32,
}

pub open spec fn is_leap_year(y: int) -> bool {
    (y % 4 == 0 && y % 100 != 0) || y % 400 == 0
}

pub open spec fn days_in_month(y: int, m: int) -> int {
    if m == 2 {
        if is_leap_year(y) {
            29
        } else {
            28
        }
    } else if m == 4 || m == 6 || m == 9 || m == 11 {
        30
    } else {
        31
    }
}

/// A date that exists, within the years chrono covers.
pub open spec fn valid_date(d: Date) -> bool {
    &&& MIN_YEAR <= d.year <= MAX_YEAR
    &&& 1 <= d.month <= 12
    &&& 1 <= d.day <= days_in_month(d.year as int, d.month as int)
}

/// The date `n` days after `d`, where chrono's range reaches it.
pub uninterp spec fn days_later(d: Date, n: nat) -> Option<Date>;

/// The `YYYY-MM-DD` text of a date, as chrono's `%Y-%m-%d` prints it.
pub uninterp spec fn iso_date_text(d: Date) -> Seq<char>;

/// Relies on chrono's NaiveDate::from_ymd_opt, which makes a date from its parts and fails
/// where the date does not exist or lies outside chrono's years.
#[verifier::external_body]
fn date_from_parts(year: i32, month: u32, day: u32) -> (r: Option<Date>)
    ensures
        r == (if valid_date(Date { year, month, day }) {
            Some(Date { year, month, day })
        } else {
            None
        }),
{
    chrono::NaiveDate::from_ymd_opt(year, month, day)
        .map(|n| Date { year: n.year(), month: n.month(), day: n.day() })
}

/// Relies on chrono's NaiveDate::checked_add_days, which fails where the result would leave
/// chrono's range; zero days give the date back.
#[verifier::external_body]
fn add_days(d: Date, n: u64) -> (r: Option<Date>)
    requires
        valid_date(d),
    ensures
        r == days_later(d, n as nat),
        r is Some ==> valid_date(r->0),
        n == 0 ==> r == Some(d),
{
    chrono::NaiveDate::from_ymd_opt(d.year, d.month, d.day)
        .and_then(|x| x.checked_add_days(chrono::Days::new(n)))
        .map(|x| Date { year: x.year(), month: x.month(), day: x.day() })
}

/// The decimal digits of `n` that stand in `width` places, zero-padded on the left.
pub open spec fn padded_digits(n: int, width: nat) -> Seq<char>
    decreases width,
{
    if width == 0 {
        Seq::empty()
    } else {
        padded_digits(n / 10, (width - 1) as nat).push(
            seq!['0', '1', '2', '3', '4', '5', '6', '7', '8', '9'][n % 10],
        )
    }
}

/// `YYYY-MM-DD`, for a year of four digits.
pub open spec fn plain_iso_date(d: Date) -> Seq<char> {
    padded_digits(d.year as int, 4) + seq!['-'] + padded_digits(d.month as int, 2) + seq!['-']
        + padded_digits(d.day as int, 2)
}

/// Relies on chrono's `%Y-%m-%d` formatting of a NaiveDate: `%Y` pads a year of 0 to 9999
/// to four digits, `%m` and `%d` pad to two.
#[verifier::external_body]
fn format_date(d: Date) -> (r: String)
    requires
        valid_date(d),
    ensures
        r@ == iso_date_text(d),
        0 <= d.year <= 9999 ==> r@ == plain_iso_date(d),
{
    chrono::NaiveDate::from_ymd_opt(d.year, d.month, d.day)
        .map(|x| x.format("%Y-%m-%d").to_string())
        .unwrap_or_default()
}

/// The feed's name for the day that a day argument asks for, given today's date.
pub open spec fn requested_day(today: Date, arg: DayArgument) -> Option<Seq<char>> {
    match arg {
        DayArgument::Today => Some(iso_date_text(today)),
        DayArgument::Offset(n) => match days_later(today, n as nat) {
            Some(d) => Some(iso_date_text(d)),
            None => None,
        },
        DayArgument::Date(s) => Some(s@),
    }
}

/// Names the day that a day argument asks for; `None` where an offset leaves the calendar.
pub fn resolve_day(today: Date, arg: DayArgument) -> (r: Option<String>)
    requires
        valid_date(today),
    ensures
        match r {
            Some(s) => requested_day(today, arg) == Some(s@),
            None => requested_day(today, arg) is None,
        },
{
    match arg {
        DayArgument::Today => Some(format_date(today)),
        DayArgument::Offset(n) => match add_days(today, n) {
            Some(d) => Some(format_date(d)),
            None => None,
        },
        DayArgument::Date(s) => Some(s),
    }
}

/// The names of `count` consecutive days from `start`.
pub open spec fn dates_from(start: Date, count: nat) -> Option<Seq<Seq<char>>>
    decreases count,
{
    if count == 0 {
        Some(Seq::empty())
    } else {
        match dates_from(start, (count - 1) as nat) {
            Some(s) => match days_later(start, (count - 1) as nat) {
                Some(d) => Some(s.push(iso_date_text(d))),
                None => None,
            },
            None => None,
        }
    }
}

pub proof fn lemma_dates_from_prefix(start: Date, count: nat, k: nat)
    requires
        k <= count,
        dates_from(start, k) is None,
    ensures
        dates_from(start, count) is None,
    decreases count - k,
{
    if k < count {
        lemma_dates_from_prefix(start, count, k + 1);
    }
}

/// The year of a week that starts in `month`, seen from `today`: this year, except across
/// the turn of a year.
pub open spec fn anchor_year(today: Date, month: nat) -> int {
    if month == 12 && today.month == 1 {
        today.year - 1
    } else if month == 1 && today.month == 12 {
        today.year + 1
    } else {
        today.year as int
    }
}

/// The first day of a week: the day and month that its period label starts with, in the year
/// around today; where the label names no month, today's month.
pub open spec fn week_start_of(today: Date, timeperiod: Seq<char>) -> Option<Date> {
    match period_start_of(timeperiod) {
        Some(day) => {
            let month = match period_start_month_of(timeperiod) {
                Some(m) => m,
                None => today.month as nat,
            };
            let d = Date {
                year: anchor_year(today, month) as i32,
                month: month as u32,
                day: day as u32,
            };
            if valid_date(d) {
                Some(d)
            } else {
                None
            }
        },
        None => None,
    }
}

/// The names of a week's days: the first is the day its period label starts with, each next
/// one a day later.
pub open spec fn week_dates_of(today: Date, timeperiod: Seq<char>, count: nat) -> Option<
    Seq<Seq<char>>,
> {
    match week_start_of(today, timeperiod) {
        Some(start) => dates_from(start, count),
        None => None,
    }
}

/// Names the days of a week whose period label is `timeperiod`.
pub fn week_dates(today: Date, timeperiod: &str, count: usize) -> (r: Option<Vec<String>>)
    requires
        valid_date(today),
    ensures
        match r {
            Some(v) => week_dates_of(today, timeperiod@, count as nat) == Some(
                crate::text::views(v@),
            ),
            None => week_dates_of(today, timeperiod@, count as nat) is None,
        },
{
    let first = match period_start_day(timeperiod) {
        Some(d) => d,
        None => {
            return None;
        },
    };
    let month = match period_start_month(timeperiod) {
        Some(m) => m,
        None => today.month,
    };
    let year = if month == 12 && today.month == 1 {
        today.year - 1
    } else if month == 1 && today.month == 12 {
        today.year + 1
    } else {
        today.year
    };
    let start = match date_from_parts(year, month, first) {
        Some(s) => s,
        None => {
            return None;
        },
    };
    let mut out: Vec<String> = Vec::new();
    let mut i: usize = 0;
    assert(crate::text::views(out@) =~= Seq::<Seq<char>>::empty());
    while i < count
        invariant
            i <= count,
            valid_date(start),
            week_dates_of(today, timeperiod@, count as nat) == dates_from(start, count as nat),
            dates_from(start, i as nat) == Some(crate::text::views(out@)),
        decreases count - i,
    {
        match add_days(start, i as u64) {
            Some(d) => {
                let ghost before = out@;
                out.push(format_date(d));
                assert(crate::text::views(out@) =~= crate::text::views(before).push(
                    iso_date_text(d),
                ));
            },
            None => {
                proof {
                    lemma_dates_from_prefix(start, count as nat, (i + 1) as nat);
                }
                return None;
            },
        }
        i += 1;
    }
    Some(out)
}

} // verus!
