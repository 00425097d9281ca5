//! Names of the stages that can produce a verdict.

use vstd::prelude::*;

verus! {

/// The verdict rests on the object detector.
pub const DETECTOR: &'static str = "detector";

/// The verdict rests on the species classifier.
pub const CLASSIFIER: &'static str = "classifier";

} // verus!
