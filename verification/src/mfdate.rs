//! A month-anchored calendar date and an iterator over month ranges.
//!
//! `MfDate` wraps a proleptic-Gregorian calendar date (year, month, day).
//! Its comparison operations work at month granularity: the day of month is
//! carried along, and read by equality, but never by the order relations.
//! `add_months_reset_day` shifts a date by whole months with the day reset
//! to 1, and `MfDateIterator` enumerates consecutive months up to an
//! inclusive end bound.

use chrono::Datelike;
use vstd::arithmetic::div_mod::{lemma_fundamental_div_mod, lemma_fundamental_div_mod_converse};
use vstd::prelude::*;

verus! {

/// Declares chrono's `NaiveDateTime` so that it can stand in signatures. The
/// value stays opaque here: only `date_time_ymd` below reads it, and
/// `date_time_date` names the calendar date it carries.
#[verifier::external_type_specification]
#[verifier::external_body]
pub struct ExNaiveDateTime(chrono::NaiveDateTime);

/// What chrono renders for a date and a strftime pattern. For a pattern of
/// the date-part specifiers admitted below, the result depends on the date's
/// three fields and the pattern alone: chrono's default formatting uses
/// fixed English names and reads no locale or other environment input.
pub uninterp spec fn strftime(year: int, month: int, day: int, pattern: Seq<char>) -> Seq<char>;

/// The strftime specifiers this library admits: those that chrono renders
/// from the date part alone, plus the literal forms `%%`, `%n` and `%t`.
/// Time-of-day and timezone specifiers are left out, since a plain date
/// gives them nothing to render.
pub open spec fn date_pattern_char(c: char) -> bool {
    ||| c == 'Y'
    ||| c == 'C'
    ||| c == 'y'
    ||| c == 'G'
    ||| c == 'g'
    ||| c == 'm'
    ||| c == 'b'
    ||| c == 'h'
    ||| c == 'B'
    ||| c == 'd'
    ||| c == 'e'
    ||| c == 'a'
    ||| c == 'A'
    ||| c == 'w'
    ||| c == 'u'
    ||| c == 'U'
    ||| c == 'W'
    ||| c == 'V'
    ||| c == 'j'
    ||| c == 'D'
    ||| c == 'x'
    ||| c == 'F'
    ||| c == 'v'
    ||| c == '%'
    ||| c == 'n'
    ||| c == 't'
}

/// Every `%` in the pattern introduces a date-part specifier; all other
/// characters pass through as literals.
pub open spec fn date_pattern_ok(p: Seq<char>) -> bool {
    forall|i: int|
        0 <= i < p.len() && #[trigger] p[i] == '%' ==> i + 1 < p.len() && date_pattern_char(
            p[i + 1],
        )
}

/// Mathematical model of a calendar date: the three fields as unbounded
/// integers.
pub ghost struct DateView {
    pub year: int,
    pub month: int,
    pub day: int,
}

/// A year is a leap year in the proleptic Gregorian calendar when it is
/// divisible by 4, except for years divisible by 100 but not by 400.
pub open spec fn is_leap_year(y: int) -> bool {
    y % 4 == 0 && (y % 100 != 0 || y % 400 == 0)
}

/// How many days month `m` of year `y` has, for `m` between 1 and 12.
pub open spec fn days_in_month(y: int, m: int) -> int {
    if m == 2 {
        if is_leap_year(y) {
            29
        } else {
            28
        }
    } else if m == 4 || m == 6 || m == 9 || m == 11 {
        30
    } else {
        31
    }
}

/// The triple (y, m, d) names a real day of the proleptic Gregorian calendar.
pub open spec fn valid_date(y: int, m: int, d: int) -> bool {
    &&& 1 <= m <= 12
    &&& 1 <= d <= days_in_month(y, m)
}

impl DateView {
    /// The date names a real calendar day.
    pub open spec fn valid(self) -> bool {
        valid_date(self.year, self.month, self.day)
    }

    /// The date's month counted on one axis: month 1 of year 0 is 0, month 1
    /// of year 1 is 12, month 12 of year -1 is -1. The order relations below
    /// are the order of this index.
    pub open spec fn month_index(self) -> int {
        self.year * 12 + (self.month - 1)
    }
}

/// `a` and `b` lie in the same month of the same year; their days may differ.
pub open spec fn same_year_month(a: DateView, b: DateView) -> bool {
    a.year == b.year && a.month == b.month
}

/// `a`'s month strictly precedes `b`'s month in calendar order. The days of
/// month play no part.
pub open spec fn month_lt(a: DateView, b: DateView) -> bool {
    a.month_index() < b.month_index()
}

/// `a`'s month is `b`'s month or an earlier one. The days of month play no
/// part.
pub open spec fn month_le(a: DateView, b: DateView) -> bool {
    a.month_index() <= b.month_index()
}

/// The date `n` whole months after `a` (before, for negative `n`), with the
/// day of month reset to 1.
pub open spec fn add_months_view(a: DateView, n: int) -> DateView {
    DateView {
        year: (a.month_index() + n) / 12,
        month: (a.month_index() + n) % 12 + 1,
        day: 1,
    }
}

/// Mathematical model of a month-range iterator: the cursor and the fixed
/// inclusive end bound.
pub ghost struct RangeView {
    pub cursor: DateView,
    pub end: DateView,
}

/// The error returned when a year/month/day triple does not name a real
/// calendar day.
#[derive(Clone, Copy, PartialEq, Eq, Structural, Debug)]
pub struct InvalidDate;

/// An immutable calendar date, compared at month granularity.
#[derive(Clone, Copy, PartialEq, Eq, Structural, Debug)]
pub struct MfDate {
    year: i32,
    month: u32,
    day: u32,
}

impl View for MfDate {
    type V = DateView;

    closed spec fn view(&self) -> DateView {
        DateView { year: self.year as int, month: self.month as int, day: self.day as int }
    }
}

/// For a positive divisor, a number and its negation are divisible by it
/// together.
proof fn lemma_neg_divisible(x: int, d: int)
    requires
        d > 0,
    ensures
        ((-x) % d == 0) == (x % d == 0),
{
    if x % d == 0 {
        lemma_fundamental_div_mod(x, d);
        assert(-x == (-(x / d)) * d + 0) by (nonlinear_arith)
            requires
                x == d * (x / d) + x % d,
                x % d == 0,
        ;
        lemma_fundamental_div_mod_converse(-x, d, -(x / d), 0);
    }
    if (-x) % d == 0 {
        lemma_fundamental_div_mod(-x, d);
        assert(x == (-((-x) / d)) * d + 0) by (nonlinear_arith)
            requires
                -x == d * ((-x) / d) + (-x) % d,
                (-x) % d == 0,
        ;
        lemma_fundamental_div_mod_converse(x, d, -((-x) / d), 0);
    }
}

/// The calendar date a `NaiveDateTime` carries. A `NaiveDateTime` is a plain
/// value of a date and a time of day, so its date is a function of the value
/// alone; `date_time_ymd` below reads it through chrono's accessors.
pub uninterp spec fn date_time_date(t: chrono::NaiveDateTime) -> DateView;

/// Relies on chrono's `Datelike` accessors `year`, `month` and `day` of
/// `NaiveDateTime`: a `NaiveDateTime` always carries a real calendar date,
/// and the three accessors return that date's fields.
#[verifier::external_body]
fn date_time_ymd(time: &chrono::NaiveDateTime) -> (r: (i32, u32, u32))
    ensures
        valid_date(r.0 as int, r.1 as int, r.2 as int),
        r.0 as int == date_time_date(*time).year,
        r.1 as int == date_time_date(*time).month,
        r.2 as int == date_time_date(*time).day,
{
    (time.year(), time.month(), time.day())
}

/// Whether `year` is a leap year.
fn leap_year(year: i32) -> (r: bool)
    ensures
        r == is_leap_year(year as int),
{
    let wide: i64 = year as i64;
    let magnitude: u64 = if wide >= 0 {
        wide as u64
    } else {
        (-wide) as u64
    };
    proof {
        if year < 0 {
            lemma_neg_divisible(year as int, 4);
            lemma_neg_divisible(year as int, 100);
            lemma_neg_divisible(year as int, 400);
        }
    }
    magnitude % 4 == 0 && (magnitude % 100 != 0 || magnitude % 400 == 0)
}

/// How many days the given month of the given year has.
fn month_length(year: i32, month: u32) -> (r: u32)
    requires
        1 <= month <= 12,
    ensures
        r as int == days_in_month(year as int, month as int),
{
    if month == 2 {
        if leap_year(year) {
            29
        } else {
            28
        }
    } else if month == 4 || month == 6 || month == 9 || month == 11 {
        30
    } else {
        31
    }
}

impl MfDate {
    /// The value upholds the type's invariant: it names a real calendar day,
    /// and its year lies in the range the representation can hold.
    pub open spec fn wf(self) -> bool {
        &&& self@.valid()
        &&& i32::MIN <= self@.year <= i32::MAX
    }

    /// The date's year.
    pub fn year(&self) -> (r: i32)
        ensures
            r as int == self@.year,
    {
        self.year
    }

    /// The date's month, between 1 and 12 for a well-formed date.
    pub fn month(&self) -> (r: u32)
        ensures
            r as int == self@.month,
    {
        self.month
    }

    /// Builds the date of the given year, month and day, or reports
    /// `InvalidDate` when the triple does not name a real calendar day.
    pub fn from_date(year: i32, month: u32, day: u32) -> (r: Result<MfDate, InvalidDate>)
        ensures
            r is Ok <==> valid_date(year as int, month as int, day as int),
            r matches Ok(d) ==> d@ == (DateView {
                year: year as int,
                month: month as int,
                day: day as int,
            }) && d.wf(),
    {
        if month < 1 || month > 12 {
            return Err(InvalidDate);
        }
        if day < 1 || day > month_length(year, month) {
            return Err(InvalidDate);
        }
        Ok(MfDate { year, month, day })
    }

    /// True iff `self` and `arg` lie in the same month of the same year; the
    /// days of month are ignored.
    pub fn year_month_eq(&self, arg: MfDate) -> (r: bool)
        ensures
            r == same_year_month(self@, arg@),
    {
        self.year() == arg.year() && self.month() == arg.month()
    }

    /// True iff `self`'s month strictly precedes `arg`'s month in calendar
    /// order. Despite the name this is a month-granularity comparison: the
    /// days of month are never consulted.
    pub fn day_before(&self, arg: MfDate) -> (r: bool)
        requires
            self.wf(),
            arg.wf(),
        ensures
            r == month_lt(self@, arg@),
    {
        if self.year() < arg.year() {
            return true;
        }
        self.year() == arg.year() && self.month() < arg.month()
    }

    /// True iff `self`'s month is `arg`'s month or an earlier one. Like
    /// `day_before`, this never consults the days of month.
    pub fn day_before_or_eq(&self, arg: MfDate) -> (r: bool)
        requires
            self.wf(),
            arg.wf(),
        ensures
            r == month_le(self@, arg@),
    {
        if self.year_month_eq(arg) {
            return true;
        }
        self.day_before(arg)
    }

    /// The date `months` whole months after `self` (before, for negative
    /// `months`), with the day of month reset to 1. Month overflow and
    /// underflow roll into the adjacent years. The bound in the precondition
    /// only keeps the resulting year representable in an `i32`.
    pub fn add_months_reset_day(&self, months: i32) -> (r: MfDate)
        requires
            self.wf(),
            i32::MIN * 12 <= self@.month_index() + months <= i32::MAX * 12 + 11,
        ensures
            r@ == add_months_view(self@, months as int),
            r.wf(),
    {
        let total: i64 = (self.year as i64) * 12 + (self.month as i64 - 1) + (months as i64);
        let shifted: u64 = (total - (i32::MIN as i64) * 12) as u64;
        let quotient: u64 = shifted / 12;
        let remainder: u64 = shifted % 12;
        let year: i32 = ((quotient as i64) + (i32::MIN as i64)) as i32;
        let month: u32 = (remainder as u32) + 1;
        proof {
            lemma_fundamental_div_mod(shifted as int, 12);
            assert(total as int == 12 * (quotient as int + i32::MIN as int) + remainder as int);
            lemma_fundamental_div_mod_converse(
                total as int,
                12,
                quotient as int + i32::MIN as int,
                remainder as int,
            );
        }
        MfDate { year, month, day: 1 }
    }

    /// Builds the date carried by a date-time value; the time of day is
    /// discarded and no timezone conversion is performed. Two date-time
    /// values carrying the same date construct the same `MfDate`.
    pub fn from_date_time(time: chrono::NaiveDateTime) -> (r: MfDate)
        ensures
            r.wf(),
            r@ == date_time_date(time),
    {
        let (year, month, day) = date_time_ymd(&time);
        MfDate { year, month, day }
    }

    /// Renders the date with a caller-supplied strftime pattern made of
    /// date-part specifiers. The year bounds in the precondition are the
    /// years chrono's date type can carry.
    ///
    /// Relies on chrono's `NaiveDate::format` (rendered by `to_string`): for
    /// a representable date and a pattern of date-part specifiers it renders
    /// without error, from the date and the pattern alone.
    #[verifier::external_body]
    pub fn format(&self, format: &str) -> (r: String)
        requires
            self.wf(),
            -262143 <= self@.year <= 262142,
            date_pattern_ok(format@),
        ensures
            r@ == strftime(self@.year, self@.month, self@.day, format@),
    {
        let date = chrono::NaiveDate::from_ymd_opt(self.year, self.month, self.day).unwrap();
        date.format(format).to_string()
    }

    /// The fixed human-readable form: abbreviated month name, day without a
    /// leading zero, a comma, and the full year, as in "Aug 1, 2021".
    pub fn display_string(&self) -> (r: String)
        requires
            self.wf(),
            -262143 <= self@.year <= 262142,
        ensures
            r@ == strftime(self@.year, self@.month, self@.day, "%b%e, %Y"@),
    {
        proof {
            reveal_strlit("%b%e, %Y");
            assert(date_pattern_ok("%b%e, %Y"@));
        }
        self.format("%b%e, %Y")
    }

    /// Starts a walk over the months from `self` through `arg`: first `self`
    /// itself, then one month at a time, up to and including the last date
    /// whose month is at or before `arg`'s month. The bound on `arg` in the
    /// precondition only keeps the cursor's final step representable.
    pub fn next_before_eq(&self, arg: MfDate) -> (r: MfDateIterator)
        requires
            self.wf(),
            arg.wf(),
            arg@.month_index() < i32::MAX * 12 + 11,
        ensures
            r@.cursor == self@,
            r@.end == arg@,
            r.wf(),
    {
        MfDateIterator { current: *self, end: arg }
    }
}

/// A lazy, finite walk over consecutive months, from a starting date up to
/// and including an end date's month.
pub struct MfDateIterator {
    current: MfDate,
    end: MfDate,
}

impl View for MfDateIterator {
    type V = RangeView;

    closed spec fn view(&self) -> RangeView {
        RangeView { cursor: self.current@, end: self.end@ }
    }
}

impl MfDateIterator {
    /// Both bounds name real calendar days, and the end bound leaves room
    /// for the cursor to step past it.
    pub open spec fn wf(self) -> bool {
        &&& self@.cursor.valid()
        &&& self@.end.valid()
        &&& self@.end.month_index() < i32::MAX * 12 + 11
    }

    /// Emits the cursor and advances it by one month while the cursor's
    /// month is at or before the end bound's month; afterwards it emits
    /// nothing and changes nothing.
    pub fn next(&mut self) -> (r: Option<MfDate>)
        requires
            old(self).wf(),
        ensures
            final(self).wf(),
            final(self)@.end == old(self)@.end,
            match r {
                Some(d) => {
                    &&& month_le(old(self)@.cursor, old(self)@.end)
                    &&& d@ == old(self)@.cursor
                    &&& d.wf()
                    &&& final(self)@.cursor == add_months_view(old(self)@.cursor, 1)
                },
                None => {
                    &&& !month_le(old(self)@.cursor, old(self)@.end)
                    &&& final(self)@ == old(self)@
                },
            },
    {
        if self.current.day_before_or_eq(self.end) {
            let current = self.current;
            self.current = self.current.add_months_reset_day(1);
            return Some(current);
        }
        None
    }
}

} // verus!
