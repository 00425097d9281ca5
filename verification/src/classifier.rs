//! What the species classifier hands to the engine.

pub mod classification;
pub mod ranking;

pub use classification::{Classification, ClassificationBundle};
pub use ranking::{map_labels_to_classifications, pick_top_n_from, top_positions};
