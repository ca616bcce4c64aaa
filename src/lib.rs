//! Numeric kernels of a solar-car race simulation: calendar decomposition of
//! timestamps, monotonic segment lookup along a route, nearest-timestamp
//! matching and resampling of a weather forecast along a trajectory.
pub mod error;
pub mod segment;
pub mod nearest;
pub mod calendar;
pub mod weather;
