//! A small calendar library around a month-anchored date value.
//!
//! [`mfdate::MfDate`] is an immutable year/month/day value on the proleptic
//! Gregorian calendar. Comparisons are made at month granularity, whole-month
//! shifts reset the day of month to 1, and a companion iterator walks the
//! months between two dates. The laws that these operations obey are stated
//! and proved in [`laws`].

pub mod laws;
pub mod mfdate;
