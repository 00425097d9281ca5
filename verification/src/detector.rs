//! What the object detector hands to the engine.

pub mod category;
pub mod detection;

pub use category::Category;
pub use detection::Detection;
