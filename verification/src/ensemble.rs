//! The cascade that reconciles what the detector found with what the
//! classifier proposes, and decides on one label for an image.

use vstd::prelude::*;
use vstd::string::*;
use crate::classifier::classification::ClassificationBundle;
use crate::constants::classification::{ANIMAL, BLANK, HUMAN, UNKNOWN, VEHICLE};
use crate::detector::category::Category;
use crate::detector::detection::{Detection, DetectionView};
use crate::error::{outcome, Error, ErrorView};
use crate::geofence::animal::{geofence_animal_classification, geofence_classification};
use crate::geofence::fixes::{apply_fixes, fixed, FixView, GeofenceFix};
use crate::geofence::result::{verdict_by, GeofenceResult, Provenance, ResultView};
use crate::geofence::rollup::{roll_up_levels, scene_of, scores_fit, Scene};
use crate::geofence::rules::{GeofenceRuleStore, RulesView};
use crate::geofence::taxonomy::{index_of, TaxonomyIndex, TaxonomyLevel};
use crate::text::text_eq;

verus! {

/// Above this confidence a detected human or vehicle needs no backing: 0.7.
pub const DETECTOR_ALONE: u64 = 7_000_000_000;

/// Above this confidence a detection can back a classification: 0.2. Below
/// it the detector counts as having seen nothing.
pub const DETECTOR_BACKING: u64 = 2_000_000_000;

/// Above this confidence a detected animal is reported when nothing better is
/// known: 0.5.
pub const DETECTOR_ANIMAL: u64 = 5_000_000_000;

/// Above this score a classification as human counts, given a backing
/// detection: 0.5.
pub const CLASSIFIER_HUMAN: u64 = 5_000_000_000;

/// Above this score a classification as vehicle counts, given a detected
/// vehicle: 0.4.
pub const CLASSIFIER_VEHICLE: u64 = 4_000_000_000;

/// Above this score a classification as blank counts, given that the
/// detector saw nothing: 0.5.
pub const CLASSIFIER_BLANK: u64 = 5_000_000_000;

/// Above this score a classification as blank counts whatever the detector
/// saw: 0.99.
pub const CLASSIFIER_BLANK_ALONE: u64 = 9_900_000_000;

/// Above this score a classification as a taxon counts whatever the detector
/// saw: 0.8.
pub const CLASSIFIER_ANIMAL_ALONE: u64 = 8_000_000_000;

/// Above this score a classification as a taxon counts, given a detected
/// animal, and so does a rollup: 0.65.
pub const CLASSIFIER_ANIMAL: u64 = 6_500_000_000;

/// The levels to which candidates are rolled up when no rule above applies.
pub open spec fn rollup_levels() -> Seq<TaxonomyLevel> {
    seq![
        TaxonomyLevel::Genus,
        TaxonomyLevel::Family,
        TaxonomyLevel::Order,
        TaxonomyLevel::Class,
        TaxonomyLevel::Kingdom,
    ]
}

/// The detection that the cascade goes by: the first, or an animal seen with
/// no confidence at all where the detector found nothing.
pub open spec fn top_detection(detections: Seq<DetectionView>) -> DetectionView {
    if detections.len() == 0 {
        DetectionView { category: Category::Animal, confidence: 0 }
    } else {
        detections[0]
    }
}

/// Whether a label names a taxon rather than one of the outcomes blank, human
/// and vehicle.
pub open spec fn is_taxon(label: Seq<char>) -> bool {
    label != BLANK@ && label != HUMAN@ && label != VEHICLE@
}

/// The verdict for a scene with at least one candidate. The rules are tried
/// in the order written, and the first that applies decides.
pub open spec fn cascade(seen: DetectionView, scene: Scene) -> Result<ResultView, ErrorView> {
    let label = scene.labels[0];
    let score = scene.scores[0];
    let category = seen.category;
    let confidence = seen.confidence;
    if category == Category::Human && confidence > DETECTOR_ALONE {
        Ok(verdict_by(HUMAN@, confidence, Provenance::Detector))
    } else if category == Category::Human && confidence > DETECTOR_BACKING && (label == HUMAN@
        || label == VEHICLE@) && score > CLASSIFIER_HUMAN {
        Ok(verdict_by(HUMAN@, score, Provenance::Classifier))
    } else if category == Category::Vehicle && confidence > DETECTOR_BACKING && label == HUMAN@
        && score > CLASSIFIER_HUMAN {
        Ok(verdict_by(HUMAN@, score, Provenance::Classifier))
    } else if category == Category::Vehicle && confidence > DETECTOR_ALONE {
        Ok(verdict_by(VEHICLE@, confidence, Provenance::Detector))
    } else if category == Category::Vehicle && confidence > DETECTOR_BACKING && label == VEHICLE@
        && score > CLASSIFIER_VEHICLE {
        Ok(verdict_by(VEHICLE@, score, Provenance::Classifier))
    } else if confidence < DETECTOR_BACKING && label == BLANK@ && score > CLASSIFIER_BLANK {
        Ok(verdict_by(BLANK@, score, Provenance::Classifier))
    } else if label == BLANK@ && score > CLASSIFIER_BLANK_ALONE {
        Ok(verdict_by(BLANK@, score, Provenance::Classifier))
    } else if is_taxon(label) && (score > CLASSIFIER_ANIMAL_ALONE || (score > CLASSIFIER_ANIMAL
        && category == Category::Animal && confidence > DETECTOR_BACKING)) {
        geofence_classification(scene)
    } else {
        match scene.rollup(rollup_levels(), CLASSIFIER_ANIMAL) {
            Err(e) => Err(e),
            Ok(Some((taxon, total, level))) => Ok(
                verdict_by(taxon, total, Provenance::Rollup(level)),
            ),
            Ok(None) => if category == Category::Animal && confidence > DETECTOR_ANIMAL {
                Ok(verdict_by(ANIMAL@, confidence, Provenance::Detector))
            } else {
                Ok(verdict_by(UNKNOWN@, score, Provenance::Classifier))
            },
        }
    }
}

/// What `ensemble` returns: a failure where there is no candidate at all, else
/// the verdict of the cascade.
pub open spec fn ensemble_verdict(detections: Seq<DetectionView>, scene: Scene) -> Result<
    ResultView,
    ErrorView,
> {
    if scene.labels.len() == 0 || scene.scores.len() == 0 {
        Err(ErrorView::EmptyClassifications)
    } else {
        cascade(top_detection(detections), scene)
    }
}

/// A human detected with a confidence above `DETECTOR_ALONE` decides the
/// verdict, whatever the classifier proposes.
pub proof fn lemma_confident_human(detections: Seq<DetectionView>, scene: Scene)
    requires
        scene.labels.len() > 0,
        scene.scores.len() > 0,
        top_detection(detections).category == Category::Human,
        top_detection(detections).confidence > DETECTOR_ALONE,
    ensures
        ensemble_verdict(detections, scene) == Ok::<ResultView, ErrorView>(
            verdict_by(HUMAN@, top_detection(detections).confidence, Provenance::Detector),
        ),
{
}

/// A first candidate that is blank with a score above
/// `CLASSIFIER_BLANK_ALONE` decides the verdict when the detector found
/// nothing or found an animal, however sure the detector is.
pub proof fn lemma_sure_blank(detections: Seq<DetectionView>, scene: Scene)
    requires
        scene.labels.len() > 0,
        scene.scores.len() > 0,
        top_detection(detections).category == Category::Animal,
        scene.labels[0] == BLANK@,
        scene.scores[0] > CLASSIFIER_BLANK_ALONE,
    ensures
        ensemble_verdict(detections, scene) == Ok::<ResultView, ErrorView>(
            verdict_by(BLANK@, scene.scores[0], Provenance::Classifier),
        ),
{
}

/// The rules and the taxa that an engine is built from: the base rules with
/// the fixes merged in, if there are fixes, and the index of the taxonomy
/// lines. A failure of the fixes is reported before one of the taxonomy.
pub open spec fn engine_tables(
    base: Map<Seq<char>, RulesView>,
    taxonomy: Seq<Seq<char>>,
    fixes: Option<Seq<FixView>>,
) -> Result<(Map<Seq<char>, RulesView>, Map<Seq<char>, Seq<char>>), ErrorView> {
    let rules = match fixes {
        Some(fixes) => fixed(base, fixes),
        None => Ok(base),
    };
    match rules {
        Err(e) => Err(e),
        Ok(rules) => match index_of(taxonomy) {
            Err(e) => Err(e),
            Ok(taxa) => Ok((rules, taxa)),
        },
    }
}

/// The engine: the geofence rules and the taxonomy, fixed once, against which
/// every image is decided.
pub struct SpeciesNetEnsemble {
    geofence_map: GeofenceRuleStore,
    taxonomy_map: TaxonomyIndex,
}

impl View for SpeciesNetEnsemble {
    type V = (Map<Seq<char>, RulesView>, Map<Seq<char>, Seq<char>>);

    closed spec fn view(&self) -> (Map<Seq<char>, RulesView>, Map<Seq<char>, Seq<char>>) {
        (self.geofence_map@, self.taxonomy_map@)
    }
}

impl DeepView for SpeciesNetEnsemble {
    type V = (Map<Seq<char>, RulesView>, Map<Seq<char>, Seq<char>>);

    open spec fn deep_view(&self) -> (Map<Seq<char>, RulesView>, Map<Seq<char>, Seq<char>>) {
        self@
    }
}

impl SpeciesNetEnsemble {
    /// The scene that the engine makes of candidates and a place: geofencing
    /// is always on.
    pub open spec fn scene(
        self,
        labels: Seq<Seq<char>>,
        scores: Seq<u64>,
        country: Option<Seq<char>>,
        admin1_region: Option<Seq<char>>,
    ) -> Scene {
        scene_of(labels, scores, country, admin1_region, self@.1, self@.0, true)
    }

    /// Builds the engine from the base rules, the lines of the taxonomy list
    /// and, if there are any, fixes to the rules.
    pub fn new(
        geofence_base: GeofenceRuleStore,
        taxonomy: &Vec<String>,
        geofence_fixes: Option<&Vec<GeofenceFix>>,
    ) -> (r: Result<Self, Error>)
        ensures
            outcome(r) == engine_tables(
                geofence_base@,
                taxonomy.deep_view(),
                geofence_fixes.deep_view(),
            ),
    {
        let geofence_map = match geofence_fixes {
            Some(fixes) => match apply_fixes(&geofence_base, fixes) {
                Ok(fixed) => fixed,
                Err(e) => {
                    return Err(e);
                },
            },
            None => geofence_base,
        };
        let taxonomy_map = match TaxonomyIndex::from_labels(taxonomy) {
            Ok(index) => index,
            Err(e) => {
                return Err(e);
            },
        };
        Ok(SpeciesNetEnsemble { geofence_map, taxonomy_map })
    }

    /// The geofence rules of the engine.
    pub fn geofence_map(&self) -> (r: &GeofenceRuleStore)
        ensures
            r@ == self@.0,
    {
        &self.geofence_map
    }

    /// The taxonomy of the engine.
    pub fn taxonomy_map(&self) -> (r: &TaxonomyIndex)
        ensures
            r@ == self@.1,
    {
        &self.taxonomy_map
    }

    /// Decides on one label for an image from what the detector found and
    /// what the classifier proposes, in a country and region if they are
    /// known.
    pub fn ensemble(
        &self,
        detections: &[Detection],
        classifications: &ClassificationBundle,
        country: Option<String>,
        admin1_region: Option<String>,
    ) -> (r: Result<GeofenceResult, Error>)
        requires
            self.scene(
                classifications@.labels,
                classifications@.scores,
                country.deep_view(),
                admin1_region.deep_view(),
            ).fits(),
        ensures
            outcome(r) == ensemble_verdict(
                detections.deep_view(),
                self.scene(
                    classifications@.labels,
                    classifications@.scores,
                    country.deep_view(),
                    admin1_region.deep_view(),
                ),
            ),
    {
        let labels = classifications.labels().as_slice();
        let scores = classifications.scores().as_slice();
        if scores.len() == 0 || labels.len() == 0 {
            return Err(Error::EmptyClassifications);
        }
        assert(labels.deep_view() =~= classifications@.labels);
        let country = match &country {
            Some(country) => Some(country.as_str()),
            None => None,
        };
        let admin1_region = match &admin1_region {
            Some(region) => Some(region.as_str()),
            None => None,
        };
        let ghost scene = scene_of(
            labels.deep_view(),
            scores@,
            country.deep_view(),
            admin1_region.deep_view(),
            self.taxonomy_map@,
            self.geofence_map@,
            true,
        );
        let label = labels[0].as_str();
        let score = scores[0];
        assert(scene.labels[0] == label@);
        let (category, confidence) = if detections.len() == 0 {
            (Category::Animal, 0)
        } else {
            assert(detections.deep_view()[0] == detections[0]@);
            (*detections[0].category(), detections[0].confidence())
        };
        let human = text_eq(label, HUMAN);
        let vehicle = text_eq(label, VEHICLE);
        let blank = text_eq(label, BLANK);

        if category == Category::Human {
            if confidence > DETECTOR_ALONE {
                return Ok(GeofenceResult::with_provenance(HUMAN.to_owned(), confidence, Provenance::Detector));
            }
            if confidence > DETECTOR_BACKING && (human || vehicle) && score > CLASSIFIER_HUMAN {
                return Ok(GeofenceResult::with_provenance(HUMAN.to_owned(), score, Provenance::Classifier));
            }
        }
        if category == Category::Vehicle {
            if confidence > DETECTOR_BACKING && human && score > CLASSIFIER_HUMAN {
                return Ok(GeofenceResult::with_provenance(HUMAN.to_owned(), score, Provenance::Classifier));
            }
            if confidence > DETECTOR_ALONE {
                return Ok(
                    GeofenceResult::with_provenance(VEHICLE.to_owned(), confidence, Provenance::Detector),
                );
            }
            if confidence > DETECTOR_BACKING && vehicle && score > CLASSIFIER_VEHICLE {
                return Ok(GeofenceResult::with_provenance(VEHICLE.to_owned(), score, Provenance::Classifier));
            }
        }
        if confidence < DETECTOR_BACKING && blank && score > CLASSIFIER_BLANK {
            return Ok(GeofenceResult::with_provenance(BLANK.to_owned(), score, Provenance::Classifier));
        }
        if blank && score > CLASSIFIER_BLANK_ALONE {
            return Ok(GeofenceResult::with_provenance(BLANK.to_owned(), score, Provenance::Classifier));
        }
        if !(blank || human || vehicle) {
            if score > CLASSIFIER_ANIMAL_ALONE || (score > CLASSIFIER_ANIMAL && category
                == Category::Animal && confidence > DETECTOR_BACKING) {
                return geofence_animal_classification(
                    labels,
                    scores,
                    country,
                    admin1_region,
                    &self.taxonomy_map,
                    &self.geofence_map,
                    true,
                );
            }
        }
        let levels = vec![
            TaxonomyLevel::Genus,
            TaxonomyLevel::Family,
            TaxonomyLevel::Order,
            TaxonomyLevel::Class,
            TaxonomyLevel::Kingdom,
        ];
        assert(levels@ =~= rollup_levels());
        match roll_up_levels(
            labels,
            scores,
            country,
            admin1_region,
            &levels,
            CLASSIFIER_ANIMAL,
            &self.taxonomy_map,
            &self.geofence_map,
            true,
        ) {
            Err(e) => {
                return Err(e);
            },
            Ok(Some((taxon, total, level))) => {
                return Ok(GeofenceResult::with_provenance(taxon, total, Provenance::Rollup(level)));
            },
            Ok(None) => {},
        }
        if category == Category::Animal && confidence > DETECTOR_ANIMAL {
            return Ok(GeofenceResult::with_provenance(ANIMAL.to_owned(), confidence, Provenance::Detector));
        }
        Ok(GeofenceResult::with_provenance(UNKNOWN.to_owned(), score, Provenance::Classifier))
    }

    /// As `ensemble`, for a caller who does not know whether the scores of
    /// the candidates can be added in 64 bits: `None` where they cannot.
    pub fn try_ensemble(
        &self,
        detections: &[Detection],
        classifications: &ClassificationBundle,
        country: Option<String>,
        admin1_region: Option<String>,
    ) -> (r: Option<Result<GeofenceResult, Error>>)
        ensures
            r is Some == self.scene(
                classifications@.labels,
                classifications@.scores,
                country.deep_view(),
                admin1_region.deep_view(),
            ).fits(),
            r matches Some(verdict) ==> outcome(verdict) == ensemble_verdict(
                detections.deep_view(),
                self.scene(
                    classifications@.labels,
                    classifications@.scores,
                    country.deep_view(),
                    admin1_region.deep_view(),
                ),
            ),
    {
        let labels = classifications.labels().as_slice();
        let scores = classifications.scores().as_slice();
        assert(labels.deep_view() =~= classifications@.labels);
        if scores_fit(labels, scores) {
            Some(self.ensemble(detections, classifications, country, admin1_region))
        } else {
            None
        }
    }
}

} // verus!
