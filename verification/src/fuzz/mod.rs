//! Structured round-trip fuzzing of the trace format: random schemas, events and
//! pool entries in arbitrary order, and the check that every value survives
//! encoding and decoding.

pub mod entropy;
pub mod round_trip;
pub mod value;
pub mod verdict;
