//! Geographic plausibility of a predicted taxon: the taxonomy index, the rule
//! store, the evaluation of a label against it and the rollup of candidates.

pub mod animal;
pub mod evaluate;
pub mod fixes;
pub mod json;
pub mod result;
pub mod rollup;
pub mod rules;
pub mod taxonomy;

pub use animal::geofence_animal_classification;
pub use evaluate::should_geofence;
pub use fixes::{apply_fixes, apply_lowered_fix, GeofenceFix};
pub use result::{GeofenceResult, Provenance};
pub use rollup::roll_up_labels_to_first_matching_level;
pub use rules::{GeofenceRuleStore, RuleKind};
pub use taxonomy::{get_ancestor_at_level, get_full_class_string, TaxonomyIndex, TaxonomyLevel};
