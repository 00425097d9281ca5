//! Fixed labels shared by the whole engine.

pub mod classification;
pub mod source;
