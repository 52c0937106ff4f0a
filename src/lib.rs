//! Daily weather reports of a station: calendar arithmetic, the time-axis
//! gridline generator, report aggregation and listing, and the per-source
//! download coordinator.

pub mod calendar;
pub mod fetch;
pub mod grid;
pub mod report;
pub mod store;
pub mod text;
pub mod views;
