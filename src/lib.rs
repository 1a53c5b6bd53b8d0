//! Parsing, validation and canonical rendering of Swiss business
//! identification numbers (UID), such as `CHE-109.322.551`.

pub mod checksum;
pub mod laws;
pub mod render;
mod random;
pub mod scan;
pub mod utils;
pub mod uid;

pub use uid::{calculate_checkdigit, SwissUid, UidError, UidPrefix};
