//! Geographic time-zone service core: civil-calendar and Julian-day
//! conversions, a historical time-zone transition resolver with DST
//! overlap/gap reconciliation, natural (solar) zone synthesis for points
//! without tzdb coverage, and population-weighted fuzzy place search.
//!
//! Coordinates are held in micro-degrees and Julian days in whole seconds,
//! so every rule is stated and proved over plain integers; the surrounding
//! application converts at its edges.
pub mod calendar;
pub mod text;
pub mod datetime;
pub mod coords;
pub mod timezone;
pub mod transitions;
pub mod reconcile;
pub mod params;
pub mod config;
pub mod names;
pub mod geonames;
pub mod search;
