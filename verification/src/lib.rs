//! Core logic of a command-line geolocation utility.
//!
//! The pieces that can be stated and checked exactly live here: the grammar
//! of floating-point number literals used to validate command-line arguments,
//! the construction of geocoding query strings and URLs, and the selection
//! of a result from a geocoding response. The spherical geometry itself
//! (destination point, haversine distance, bounding box, random point in a
//! disc) computes with floating-point numbers and stands outside this
//! library, in the surrounding application.

pub mod geocode;
pub mod number;
pub mod query;
