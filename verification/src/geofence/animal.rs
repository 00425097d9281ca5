//! The verdict for a candidate that looks like an animal: the candidate
//! itself where the place permits it, else the nearest ancestor that the
//! place permits.

use vstd::prelude::*;
use vstd::string::*;
use crate::constants::classification::UNKNOWN;
use crate::error::{outcome, Error, ErrorView};
use crate::geofence::evaluate::{geofenced, should_geofence};
use crate::geofence::result::{verdict_by, GeofenceResult, Provenance, ResultView};
use crate::geofence::rollup::{roll_up_levels, scene_of, Scene};
use crate::geofence::rules::GeofenceRuleStore;
use crate::geofence::taxonomy::{TaxonomyIndex, TaxonomyLevel};

verus! {

/// The levels to which a rejected candidate is rolled up, in order.
pub open spec fn fallback_levels() -> Seq<TaxonomyLevel> {
    seq![
        TaxonomyLevel::Family,
        TaxonomyLevel::Order,
        TaxonomyLevel::Class,
        TaxonomyLevel::Kingdom,
    ]
}

/// The highest threshold that a score passes: one unit below it, and 0 for
/// the score 0.
pub open spec fn just_below(score: u64) -> u64 {
    if score > 0 {
        (score - 1) as u64
    } else {
        0
    }
}

/// What `geofence_animal_classification` returns for a scene with at least
/// one candidate. Where the place permits the first candidate, it is the
/// verdict. Else the candidates are rolled up over `fallback_levels`, any
/// ancestor that gathers as much as the first candidate's score being good
/// enough; where no level gives one, the verdict is that nothing is known.
pub open spec fn geofence_classification(scene: Scene) -> Result<ResultView, ErrorView> {
    let label = scene.labels[0];
    let score = scene.scores[0];
    match geofenced(label, scene.country, scene.admin1_region, scene.rules, scene.geofence) {
        Err(e) => Err(e),
        Ok(false) => Ok(verdict_by(label, score, Provenance::Classifier)),
        Ok(true) => match scene.rollup(fallback_levels(), just_below(score)) {
            Err(e) => Err(e),
            Ok(Some((taxon, total, level))) => Ok(
                verdict_by(taxon, total, Provenance::GeofenceRollup(level)),
            ),
            Ok(None) => Ok(verdict_by(UNKNOWN@, score, Provenance::GeofenceRollupFailed)),
        },
    }
}

/// Geofences an animal prediction in a country or in a region of it, rolling
/// the candidates up where the place rejects the first of them.
pub fn geofence_animal_classification(
    labels: &[String],
    scores: &[u64],
    country: Option<&str>,
    admin1_region: Option<&str>,
    taxonomy_map: &TaxonomyIndex,
    geofence_map: &GeofenceRuleStore,
    enable_geofence: bool,
) -> (r: Result<GeofenceResult, Error>)
    requires
        labels.len() > 0,
        scores.len() > 0,
        scene_of(
            labels.deep_view(),
            scores@,
            country.deep_view(),
            admin1_region.deep_view(),
            taxonomy_map@,
            geofence_map@,
            enable_geofence,
        ).fits(),
    ensures
        outcome(r) == geofence_classification(
            scene_of(
                labels.deep_view(),
                scores@,
                country.deep_view(),
                admin1_region.deep_view(),
                taxonomy_map@,
                geofence_map@,
                enable_geofence,
            ),
        ),
{
    assert(labels.deep_view()[0] == labels[0]@);
    let rejected = match should_geofence(
        labels[0].as_str(),
        country,
        admin1_region,
        geofence_map,
        enable_geofence,
    ) {
        Ok(rejected) => rejected,
        Err(e) => {
            return Err(e);
        },
    };
    if !rejected {
        return Ok(GeofenceResult::with_provenance(labels[0].clone(), scores[0], Provenance::Classifier));
    }
    let levels = vec![
        TaxonomyLevel::Family,
        TaxonomyLevel::Order,
        TaxonomyLevel::Class,
        TaxonomyLevel::Kingdom,
    ];
    assert(levels@ =~= fallback_levels());
    let threshold = if scores[0] > 0 {
        scores[0] - 1
    } else {
        0
    };
    match roll_up_levels(
        labels,
        scores,
        country,
        admin1_region,
        &levels,
        threshold,
        taxonomy_map,
        geofence_map,
        enable_geofence,
    ) {
        Err(e) => Err(e),
        Ok(Some((taxon, total, level))) => Ok(
            GeofenceResult::with_provenance(taxon, total, Provenance::GeofenceRollup(level)),
        ),
        Ok(None) => Ok(
            GeofenceResult::with_provenance(UNKNOWN.to_owned(), scores[0], Provenance::GeofenceRollupFailed),
        ),
    }
}

} // verus!
