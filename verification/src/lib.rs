//! Day-by-day projection of a double-entry balance sheet under recurring
//! financial rules.
//!
//! A simulation starts from a [`generator::Config`]: opening balances, a
//! start date and an ordered list of generators (mortgage payments,
//! interest, salaries, transfers, tithes). [`opening`] completes the opening
//! balances so that they add up to zero. [`engine`] advances the balances by
//! one day: it applies every generator that fires on that day of the month,
//! in declared order, and then checks that the balances still add up to
//! exactly zero. [`driver`] repeats the step over consecutive calendar days
//! and records the balances at the end of each.
//!
//! Amounts are decimals of the `rust_decimal` crate and dates are those of
//! `chrono`; [`amount`] and [`date`] hold the contracts under which the
//! library calls them. [`laws`] and [`conservation`] state what holds of
//! every simulation.

pub mod amount;
pub mod conservation;
pub mod date;
pub mod driver;
pub mod engine;
pub mod generator;
pub mod laws;
pub mod opening;
pub mod sheet;
