//! A diet-tracking library: a food library with per-100-unit nutrition facts,
//! named serving sizes, a daily log, and the aggregation of a day's log into
//! nutrient totals.
//!
//! Every quantity is a fixed-point number with three decimal places, stored as
//! an integer count of thousandths.

pub mod aggregate;
pub mod date;
pub mod db;
pub mod error;
pub mod laws;
pub mod nutrition;
pub mod routes;
pub mod store;
pub mod text;
