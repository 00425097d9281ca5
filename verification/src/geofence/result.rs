//! The verdict of the engine for one image.

use vstd::prelude::*;
use vstd::string::*;
use crate::constants::source::{CLASSIFIER, DETECTOR};
use crate::geofence::taxonomy::TaxonomyLevel;

verus! {

/// The stages by which a verdict was reached.
#[derive(Debug, Clone, Copy, PartialEq, Eq, Structural)]
pub enum Provenance {
    /// The detector alone.
    Detector,
    /// The classifier's first candidate.
    Classifier,
    /// The candidates rolled up to a level.
    Rollup(TaxonomyLevel),
    /// The candidates rolled up to a level because the place rejects the
    /// first candidate.
    GeofenceRollup(TaxonomyLevel),
    /// The place rejects the first candidate, and no rollup was found.
    GeofenceRollupFailed,
}

impl Provenance {
    /// The tag that stands for the provenance in a verdict.
    pub open spec fn text(self) -> Seq<char> {
        match self {
            Provenance::Detector => DETECTOR@,
            Provenance::Classifier => CLASSIFIER@,
            Provenance::Rollup(level) => "classifier+rollup_to_"@ + level.name(),
            Provenance::GeofenceRollup(level) => "classifier+geofence+rollup_to_"@ + level.name(),
            Provenance::GeofenceRollupFailed => "classifier+geofence+rollup_failed"@,
        }
    }

    /// The tag that stands for the provenance in a verdict.
    pub fn tag(&self) -> (r: String)
        ensures
            r@ == self.text(),
    {
        match self {
            Provenance::Detector => DETECTOR.to_owned(),
            Provenance::Classifier => CLASSIFIER.to_owned(),
            Provenance::Rollup(level) => {
                let mut tag = "classifier+rollup_to_".to_owned();
                tag.append(level.as_str());
                tag
            },
            Provenance::GeofenceRollup(level) => {
                let mut tag = "classifier+geofence+rollup_to_".to_owned();
                tag.append(level.as_str());
                tag
            },
            Provenance::GeofenceRollupFailed => "classifier+geofence+rollup_failed".to_owned(),
        }
    }
}

/// A label, its score and the stages that produced it.
#[derive(Debug, PartialEq, Eq)]
pub struct GeofenceResult {
    label: String,
    score: u64,
    source: String,
}

/// The mathematical content of a `GeofenceResult`.
pub struct ResultView {
    pub label: Seq<char>,
    pub score: u64,
    pub source: Seq<char>,
}

/// The verdict made of the given parts.
pub open spec fn verdict_of(label: Seq<char>, score: u64, source: Seq<char>) -> ResultView {
    ResultView { label, score, source }
}

/// The verdict for a label and a score that were reached by the given
/// stages.
pub open spec fn verdict_by(label: Seq<char>, score: u64, provenance: Provenance) -> ResultView {
    verdict_of(label, score, provenance.text())
}

impl View for GeofenceResult {
    type V = ResultView;

    closed spec fn view(&self) -> ResultView {
        ResultView { label: self.label@, score: self.score, source: self.source@ }
    }
}

impl DeepView for GeofenceResult {
    type V = ResultView;

    open spec fn deep_view(&self) -> ResultView {
        self@
    }
}

impl GeofenceResult {
    /// A verdict.
    pub fn new(label: String, score: u64, source: String) -> (r: Self)
        ensures
            r@ == verdict_of(label@, score, source@),
    {
        GeofenceResult { label, score, source }
    }

    /// A verdict that was reached by the given stages.
    pub fn with_provenance(label: String, score: u64, provenance: Provenance) -> (r: Self)
        ensures
            r@ == verdict_by(label@, score, provenance),
    {
        GeofenceResult { label, score, source: provenance.tag() }
    }

    /// The label that was decided on.
    pub fn label(&self) -> (r: &str)
        ensures
            r@ == self@.label,
    {
        self.label.as_str()
    }

    /// The score of the label.
    pub fn score(&self) -> (r: u64)
        ensures
            r == self@.score,
    {
        self.score
    }

    /// The stages that produced the verdict.
    pub fn source(&self) -> (r: &str)
        ensures
            r@ == self@.source,
    {
        self.source.as_str()
    }
}

} // verus!
