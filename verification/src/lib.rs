//! Trace-segment pipeline, per-thread CPU timers, trace viewer settings and
//! trace-format fuzzing, as verified decision logic.

pub mod config;
pub mod ctimer;
pub mod error;
pub mod fuzz;
pub mod gzip;
pub mod metadata;
pub mod path;
pub mod segment;
pub mod symbolize;
pub mod text;
pub mod upload;
pub mod viewer;
pub mod worker;
pub mod worker_laws;
pub mod worker_loop;
pub mod write_back;
