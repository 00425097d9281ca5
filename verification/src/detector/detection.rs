//! One object found by the detector.

use vstd::prelude::*;
use vstd::string::*;
use crate::detector::category::Category;
use crate::geofence::rollup::SCORE_UNITS_PER_ONE;

verus! {

/// A detection: what was found and how sure the detector is. The confidence
/// is a score below 1.
#[derive(Debug, Clone, Copy)]
pub struct Detection {
    category: Category,
    confidence: u64,
}

/// The mathematical content of a `Detection`.
pub struct DetectionView {
    pub category: Category,
    pub confidence: u64,
}

impl View for Detection {
    type V = DetectionView;

    closed spec fn view(&self) -> DetectionView {
        DetectionView { category: self.category, confidence: self.confidence }
    }
}

impl DeepView for Detection {
    type V = DetectionView;

    open spec fn deep_view(&self) -> DetectionView {
        self@
    }
}

impl Detection {
    #[verifier::type_invariant]
    spec fn below_one(&self) -> bool {
        self.confidence < SCORE_UNITS_PER_ONE
    }

    /// A detection of a category with a confidence below 1.
    pub fn new(category: Category, confidence: u64) -> (r: Self)
        requires
            confidence < SCORE_UNITS_PER_ONE,
        ensures
            r@ == (DetectionView { category, confidence }),
    {
        Detection { category, confidence }
    }

    /// A detection of a category, unless the confidence is 1 or more.
    pub fn checked(category: Category, confidence: u64) -> (r: Option<Self>)
        ensures
            match r {
                Some(detection) => confidence < SCORE_UNITS_PER_ONE && detection@ == (
                DetectionView { category, confidence }),
                None => confidence >= SCORE_UNITS_PER_ONE,
            },
    {
        if confidence < SCORE_UNITS_PER_ONE {
            Some(Detection::new(category, confidence))
        } else {
            None
        }
    }

    /// The word for the category.
    pub fn label(&self) -> (r: String)
        ensures
            r@ == self@.category.word(),
    {
        self.category.name().to_owned()
    }

    /// What was found.
    pub fn category(&self) -> (r: &Category)
        ensures
            *r == self@.category,
    {
        &self.category
    }

    /// How sure the detector is.
    pub fn confidence(&self) -> (r: u64)
        ensures
            r == self@.confidence,
            r < SCORE_UNITS_PER_ONE,
    {
        proof {
            use_type_invariant(self);
        }
        self.confidence
    }
}

} // verus!
