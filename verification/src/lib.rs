//! Exact calendar instants and time intervals in the proleptic Gregorian
//! calendar, kept as signed 128-bit nanosecond counts.

pub mod datetime;
