//! The records that describe what the engine is run on and what it found.

pub mod instance;
pub mod prediction;

pub use instance::{Instance, Instances};
pub use prediction::prediction_id;
