//! Helpers shared by the identifier type.

pub mod nibble;

pub use nibble::{FromNibbles, IntoNibbles, IntoNibblesNum};
