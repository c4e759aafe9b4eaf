//! Reconciliation of geolocated colony records gathered from several
//! structured documents.
//!
//! The crate models one record kind, `Colony`, validates records out of a
//! JSON-like structured value, keeps them in a collection keyed by their
//! identifier, merges such collections with a deterministic conflict rule
//! driven by the last-modified timestamp, and derives the rows of the
//! consolidated output.


pub mod colony;
pub mod json;
pub mod loader;
pub mod merge;
pub mod set;
pub mod sink;
pub mod time;

pub use colony::{Colony, DataError, Field, Num};
pub use loader::load_document;
pub use merge::{choose_colony, merge_sets};
pub use sink::{csv_rows, Row, Status};
pub use set::ColonySet;
pub use json::JsonValue;
pub use time::Timestamp;
