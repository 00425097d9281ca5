//! Where the files of a model are and what kind of model it is.

use std::path::PathBuf;
use vstd::prelude::*;
use vstd::string::*;

verus! {

/// How the classifier of a model takes its image.
#[derive(Debug, Clone, Copy, PartialEq, Eq, Structural)]
pub enum ModelType {
    /// The image is cropped to the first detection.
    AlwaysCrop,
    /// The image is taken whole.
    FullImage,
}

/// The description of a model: its version, its kind and its files.
#[derive(Debug)]
pub struct ModelInfo {
    version: String,
    model_type: ModelType,
    classifier: PathBuf,
    classifier_labels: PathBuf,
    detector: PathBuf,
    taxonomy: PathBuf,
    geofence: PathBuf,
}

/// The mathematical content of a `ModelInfo`.
pub struct ModelInfoView {
    pub version: Seq<char>,
    pub model_type: ModelType,
    pub classifier: PathBuf,
    pub classifier_labels: PathBuf,
    pub detector: PathBuf,
    pub taxonomy: PathBuf,
    pub geofence: PathBuf,
}

impl View for ModelInfo {
    type V = ModelInfoView;

    closed spec fn view(&self) -> ModelInfoView {
        ModelInfoView {
            version: self.version@,
            model_type: self.model_type,
            classifier: self.classifier,
            classifier_labels: self.classifier_labels,
            detector: self.detector,
            taxonomy: self.taxonomy,
            geofence: self.geofence,
        }
    }
}

impl ModelInfo {
    /// The description of a model whose files are at the given paths.
    pub fn new(
        version: String,
        model_type: ModelType,
        classifier: PathBuf,
        classifier_labels: PathBuf,
        detector: PathBuf,
        taxonomy: PathBuf,
        geofence: PathBuf,
    ) -> (r: Self)
        ensures
            r@ == (ModelInfoView {
                version: version@,
                model_type,
                classifier,
                classifier_labels,
                detector,
                taxonomy,
                geofence,
            }),
    {
        ModelInfo {
            version,
            model_type,
            classifier,
            classifier_labels,
            detector,
            taxonomy,
            geofence,
        }
    }

    /// The version of the model.
    pub fn version(&self) -> (r: &str)
        ensures
            r@ == self@.version,
    {
        self.version.as_str()
    }

    /// The kind of the model.
    pub fn model_type(&self) -> (r: ModelType)
        ensures
            r == self@.model_type,
    {
        self.model_type
    }

    /// The path of the classifier model.
    pub fn classifier(&self) -> (r: &PathBuf)
        ensures
            *r == self@.classifier,
    {
        &self.classifier
    }

    /// The path of the list of labels of the classifier.
    pub fn classifier_labels(&self) -> (r: &PathBuf)
        ensures
            *r == self@.classifier_labels,
    {
        &self.classifier_labels
    }

    /// The path of the detector model.
    pub fn detector(&self) -> (r: &PathBuf)
        ensures
            *r == self@.detector,
    {
        &self.detector
    }

    /// The path of the taxonomy list.
    pub fn taxonomy(&self) -> (r: &PathBuf)
        ensures
            *r == self@.taxonomy,
    {
        &self.taxonomy
    }

    /// The path of the geofence rules.
    pub fn geofence(&self) -> (r: &PathBuf)
        ensures
            *r == self@.geofence,
    {
        &self.geofence
    }
}

} // verus!
