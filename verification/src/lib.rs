//! Verified core of an e-paper picture server: the panel protocol driver,
//! the bounded-memory dither pipeline, the geometric transform, the weekly
//! refresh-schedule model, the download retry engine and the failure backoff
//! that ties them together.

pub mod config;
pub mod display;
pub mod dither;
pub mod download;
pub mod frame;
pub mod schedule;
pub mod scheduler;
pub mod transform;
