//! A verified photo-catalog core.
//!
//! Photo metadata (capture date, pixel dimensions, GPS position) is turned
//! into structured records, each GPS position is resolved to the nearest
//! entry of a reference country list, and the records are grouped into a
//! catalog keyed by country name and capture year.
//!
//! Geographic coordinates are kept as fixed-point integers in units of a
//! thousandth of an arcsecond, so every conversion and comparison is exact
//! integer arithmetic.

pub mod coords;
pub mod records;
pub mod resolver;
pub mod catalog;
pub mod pipeline;
pub mod preview;
pub mod service;
