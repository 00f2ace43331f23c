//! Constants and small value types shared by the lexers and the parser.

pub mod constants;
pub mod text;
pub mod variant;

pub use variant::{Payload, Variant};
