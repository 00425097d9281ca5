//! Whether a taxon must be rejected in a place.

use vstd::prelude::*;
use vstd::string::*;
use crate::error::{outcome, Error, ErrorView};
use crate::geofence::rules::{rules_for, GeofenceRuleStore, RuleKind, RulesView};
use crate::geofence::taxonomy::{class_key, get_full_class_string, invalid_label, is_label};
use crate::text::list_contains;

verus! {

/// Whether an allow section rejects a place. A section that names no country
/// rejects nothing. Otherwise the country must be named, and where a region is
/// given and the country lists regions, the region must be listed.
pub open spec fn allow_rejects(
    allow: Option<Map<Seq<char>, Seq<Seq<char>>>>,
    country: Seq<char>,
    admin1_region: Option<Seq<char>>,
) -> bool {
    match allow {
        Some(countries) => countries != Map::<Seq<char>, Seq<Seq<char>>>::empty() && (
        !countries.dom().contains(country) || (admin1_region matches Some(region)
            && countries[country].len() > 0 && !countries[country].contains(region))),
        None => false,
    }
}

/// Whether a block section rejects a place: the country is named, and either
/// it lists no region, which blocks all of it, or it lists the given region.
pub open spec fn block_rejects(
    block: Option<Map<Seq<char>, Seq<Seq<char>>>>,
    country: Seq<char>,
    admin1_region: Option<Seq<char>>,
) -> bool {
    match block {
        Some(countries) => countries.dom().contains(country) && (countries[country].len() == 0 || (
        admin1_region matches Some(region) && countries[country].contains(region))),
        None => false,
    }
}

/// Whether a label must be rejected in a place. Nothing is rejected while
/// geofencing is off or no country is known, whatever the label. Otherwise the
/// text must be a label, and it is rejected where its allow section or its
/// block section rejects the place; the block section is consulted even where
/// the allow section lets the place through.
pub open spec fn geofenced(
    label: Seq<char>,
    country: Option<Seq<char>>,
    admin1_region: Option<Seq<char>>,
    store: Map<Seq<char>, RulesView>,
    enabled: bool,
) -> Result<bool, ErrorView> {
    if !enabled || country is None {
        Ok(false)
    } else if !is_label(label) {
        Err(invalid_label(label))
    } else {
        let rules = rules_for(store, class_key(label));
        Ok(
            allow_rejects(rules.allow, country->0, admin1_region) || block_rejects(
                rules.block,
                country->0,
                admin1_region,
            ),
        )
    }
}

/// While geofencing is off, or no country is known, nothing is rejected and
/// nothing fails: the label is not even looked at.
pub proof fn lemma_geofence_off(
    label: Seq<char>,
    country: Option<Seq<char>>,
    admin1_region: Option<Seq<char>>,
    store: Map<Seq<char>, RulesView>,
    enabled: bool,
)
    requires
        !enabled || country is None,
    ensures
        geofenced(label, country, admin1_region, store, enabled) == Ok::<bool, ErrorView>(false),
{
}

/// A taxon without rules is rejected nowhere.
pub proof fn lemma_no_rules_no_fence(
    label: Seq<char>,
    country: Option<Seq<char>>,
    admin1_region: Option<Seq<char>>,
    store: Map<Seq<char>, RulesView>,
    enabled: bool,
)
    requires
        is_label(label),
        !store.dom().contains(class_key(label)),
    ensures
        geofenced(label, country, admin1_region, store, enabled) == Ok::<bool, ErrorView>(false),
{
}

/// Decides whether a label must be rejected in a country, or in a region of
/// it, under the rules of a store.
pub fn should_geofence(
    label: &str,
    country: Option<&str>,
    admin1_region: Option<&str>,
    geofence_map: &GeofenceRuleStore,
    enable_geofence: bool,
) -> (r: Result<bool, Error>)
    ensures
        outcome(r) == geofenced(
            label@,
            country.deep_view(),
            admin1_region.deep_view(),
            geofence_map@,
            enable_geofence,
        ),
        !enable_geofence || country is None ==> r == Ok::<bool, Error>(false),
{
    if !enable_geofence {
        return Ok(false);
    }
    let country = match country {
        Some(country) => country,
        None => {
            return Ok(false);
        },
    };
    let key = match get_full_class_string(label) {
        Ok(key) => key,
        Err(e) => {
            return Err(e);
        },
    };
    let rules = match geofence_map.rules(key.as_str()) {
        Some(rules) => rules,
        None => {
            return Ok(false);
        },
    };
    if let Some(allowed) = rules.section(RuleKind::Allow) {
        if !allowed.is_empty() {
            match allowed.regions(country) {
                None => {
                    return Ok(true);
                },
                Some(regions) => {
                    if let Some(region) = admin1_region {
                        if regions.len() > 0 && !list_contains(regions, region) {
                            return Ok(true);
                        }
                    }
                },
            }
        }
    }
    if let Some(blocked) = rules.section(RuleKind::Block) {
        if let Some(regions) = blocked.regions(country) {
            if regions.len() == 0 {
                return Ok(true);
            }
            if let Some(region) = admin1_region {
                if list_contains(regions, region) {
                    return Ok(true);
                }
            }
        }
    }
    Ok(false)
}

} // verus!
