//! Airport records and a strict reader for their coordinate field.
//!
//! `text` holds the grammar of a coordinate text, `coords` the pair of
//! coordinates that is read from one, and `airport` the record that owns
//! such a pair.

pub mod airport;
pub mod coords;
pub mod text;

pub use airport::{Airport, AirportTemplate};
pub use coords::{Coords, ParseError, Reading};
