//! A small iCalendar library: parses the line-oriented `KEY:VALUE` text
//! format used by calendar feeds into an in-memory calendar, and
//! serializes a calendar back into the canonical wire format.

pub mod datetime;
pub mod laws;
pub mod model;
pub mod numbers;
pub mod parse;
pub mod serialize;
pub mod strutil;
