//! Candidates of the classifier: labels with their scores, in rank order.

use vstd::prelude::*;
use vstd::string::*;

verus! {

/// The candidates for one image, as a list of labels and a list of scores.
#[derive(Debug)]
pub struct ClassificationBundle {
    labels: Vec<String>,
    scores: Vec<u64>,
}

/// The mathematical content of a `ClassificationBundle`.
pub struct BundleView {
    pub labels: Seq<Seq<char>>,
    pub scores: Seq<u64>,
}

impl View for ClassificationBundle {
    type V = BundleView;

    closed spec fn view(&self) -> BundleView {
        BundleView { labels: self.labels.deep_view(), scores: self.scores@ }
    }
}

impl ClassificationBundle {
    /// A bundle of labels and scores.
    pub fn new(labels: Vec<String>, scores: Vec<u64>) -> (r: Self)
        ensures
            r@ == (BundleView { labels: labels.deep_view(), scores: scores@ }),
    {
        ClassificationBundle { labels, scores }
    }

    /// The labels, best first.
    pub fn labels(&self) -> (r: &Vec<String>)
        ensures
            r.deep_view() == self@.labels,
    {
        &self.labels
    }

    /// The scores, in the order of the labels.
    pub fn scores(&self) -> (r: &Vec<u64>)
        ensures
            r@ == self@.scores,
    {
        &self.scores
    }
}

/// One candidate.
#[derive(Debug)]
pub struct Classification {
    label: String,
    score: u64,
}

impl View for Classification {
    type V = (Seq<char>, u64);

    closed spec fn view(&self) -> (Seq<char>, u64) {
        (self.label@, self.score)
    }
}

impl Classification {
    /// A candidate with its score.
    pub fn new(label: String, score: u64) -> (r: Self)
        ensures
            r@ == (label@, score),
    {
        Classification { label, score }
    }

    /// The label of the candidate.
    pub fn label(&self) -> (r: &String)
        ensures
            r@ == self@.0,
    {
        &self.label
    }

    /// The score of the candidate.
    pub fn score(&self) -> (r: &u64)
        ensures
            *r == self@.1,
    {
        &self.score
    }
}

} // verus!
