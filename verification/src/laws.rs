//! The laws of month-granularity comparison and month arithmetic.

use crate::mfdate::{add_months_view, month_le, month_lt, same_year_month, DateView};
use vstd::arithmetic::div_mod::{lemma_fundamental_div_mod, lemma_fundamental_div_mod_converse};
use vstd::prelude::*;

verus! {

/// At or before at month granularity is exactly: the same month, or strictly
/// before.
pub proof fn lemma_month_le_split(a: DateView, b: DateView)
    requires
        1 <= a.month <= 12,
        1 <= b.month <= 12,
    ensures
        month_le(a, b) == (same_year_month(a, b) || month_lt(a, b)),
{
}

/// No date is strictly before itself at month granularity, and every date is
/// at or before itself.
pub proof fn lemma_month_order_reflexive(a: DateView)
    ensures
        !month_lt(a, a),
        month_le(a, a),
{
}

/// The month-granularity relations ignore the day of month: two dates of the
/// same year and month, whatever their days, are the same month and neither
/// is strictly before the other.
pub proof fn lemma_month_comparisons_ignore_day(a: DateView, b: DateView)
    requires
        a.valid(),
        b.valid(),
        a.year == b.year,
        a.month == b.month,
        a.day != b.day,
    ensures
        same_year_month(a, b),
        !month_lt(a, b),
        !month_lt(b, a),
{
}

/// A whole-month shift moves the month index by exactly the shift, lands on
/// day 1, and lands on a real month.
pub proof fn lemma_add_months_shifts_index(a: DateView, n: int)
    ensures
        add_months_view(a, n).month_index() == a.month_index() + n,
        add_months_view(a, n).day == 1,
        1 <= add_months_view(a, n).month <= 12,
{
    lemma_fundamental_div_mod(a.month_index() + n, 12);
}

/// A shift by zero months keeps the year and the month and resets the day
/// to 1.
pub proof fn lemma_add_months_zero(a: DateView)
    requires
        1 <= a.month <= 12,
    ensures
        add_months_view(a, 0) == (DateView { year: a.year, month: a.month, day: 1 }),
{
    lemma_fundamental_div_mod_converse(a.month_index(), 12, a.year, a.month - 1);
}

/// Shifting by `n` months and then by `-n` months returns to the starting
/// year and month, with the day reset to 1.
pub proof fn lemma_add_months_round_trip(a: DateView, n: int)
    requires
        1 <= a.month <= 12,
    ensures
        add_months_view(add_months_view(a, n), -n) == (DateView {
            year: a.year,
            month: a.month,
            day: 1,
        }),
{
    lemma_add_months_shifts_index(a, n);
    assert(add_months_view(a, n).month_index() + (-n) == a.month_index());
    lemma_fundamental_div_mod_converse(a.month_index(), 12, a.year, a.month - 1);
}

} // verus!
