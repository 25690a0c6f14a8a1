//! Verified core of a household library-catalog due-date aggregator.
//!
//! The crate fetches the "currently borrowed items" pages of one or more
//! catalog accounts, extracts per-item due dates, merges the results of all
//! accounts into one due-date-indexed structure, and renders that structure
//! as a calendar document with one all-day event per due date and a reminder
//! alarm on the prior morning.  Everything that decides or computes lives
//! here with a contract; the surrounding process (HTTP, timers, signals)
//! hands this crate plain values and takes plain values back.

pub mod aggregate;
pub mod calendar;
pub mod config;
pub mod dates;
pub mod errors;
pub mod fetch;
pub mod request;
pub mod rows;
pub mod text;
