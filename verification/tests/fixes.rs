use speciesnet::error::Error;
use speciesnet::geofence::{
    apply_fixes, apply_lowered_fix, should_geofence, GeofenceFix, GeofenceRuleStore, RuleKind,
};

const LION: &str =
    "ddf59264-185a-4d35-b647-2785792bdf54;mammalia;carnivora;felidae;panthera;leo;lion";
const LION_FC: &str = "mammalia;carnivora;felidae;panthera;leo";
const PANTHERA_GENUS_FC: &str = "mammalia;carnivora;felidae;panthera;";
const FELIDAE_FAMILY_FC: &str = "mammalia;carnivora;felidae;;";
const SAND_CAT_FC: &str = "mammalia;carnivora;felidae;felis;margarita";
const PUMA_FC: &str = "mammalia;carnivora;felidae;puma;concolor";

fn regions(codes: &[&str]) -> Vec<String> {
    codes.iter().map(|c| c.to_string()).collect()
}

fn geofence_map() -> GeofenceRuleStore {
    let mut map = GeofenceRuleStore::new();
    map.set_regions(LION_FC, RuleKind::Allow, "KEN", regions(&[]));
    map.set_regions(LION_FC, RuleKind::Allow, "TZA", regions(&[]));
    map.set_regions(PANTHERA_GENUS_FC, RuleKind::Allow, "KEN", regions(&[]));
    map.set_regions(PANTHERA_GENUS_FC, RuleKind::Allow, "USA", regions(&["AK", "CA"]));
    map.set_regions(FELIDAE_FAMILY_FC, RuleKind::Allow, "USA", regions(&[]));
    map.set_regions(FELIDAE_FAMILY_FC, RuleKind::Block, "FRA", regions(&[]));
    map.set_regions(FELIDAE_FAMILY_FC, RuleKind::Block, "USA", regions(&["NY"]));
    map.set_regions(SAND_CAT_FC, RuleKind::Block, "AUS", regions(&[]));
    map
}

fn fix(species: &str, rule: &str, country: &str, region: Option<&str>) -> GeofenceFix {
    GeofenceFix::new(
        species.to_string(),
        rule.to_string(),
        country.to_string(),
        region.map(str::to_string),
    )
}

fn listed(map: &GeofenceRuleStore, key: &str, kind: RuleKind, country: &str) -> Option<Vec<String>> {
    map.section(key, kind)?.regions(country).cloned()
}

#[test]
fn test_fix_geofence_base_fn() -> Result<(), Error> {
    let fixes = vec![
        fix(LION_FC, "allow", "USA", None),
        fix(LION_FC, "block", "THA", None),
        fix(LION_FC, "block", "TZA", None),
        fix(LION_FC, "block", "USA", Some("JFC")),
    ];
    let fixed_base = apply_fixes(&geofence_map(), &fixes)?;

    assert_eq!(
        fixed_base
            .rules(LION_FC)
            .unwrap()
            .section(RuleKind::Allow)
            .unwrap()
            .contains_country("USA"),
        true
    );
    assert_eq!(
        fixed_base
            .rules(LION_FC)
            .unwrap()
            .section(RuleKind::Block)
            .unwrap()
            .contains_country("THA"),
        true
    );
    assert_eq!(
        fixed_base
            .rules(LION_FC)
            .unwrap()
            .section(RuleKind::Block)
            .unwrap()
            .contains_country("TZA"),
        true
    );
    assert_eq!(
        fixed_base
            .rules(LION_FC)
            .unwrap()
            .section(RuleKind::Block)
            .unwrap()
            .regions("USA")
            .unwrap(),
        &vec!["JFC"]
    );
    Ok(())
}

#[test]
fn a_fix_that_is_not_of_a_species_refuses_the_batch() {
    let base = geofence_map();
    for species in [
        "mammalia;carnivora;felidae",
        "mammalia",
        "",
        "a;b;c;d;e;f",
        "id;mammalia;carnivora;felidae;panthera;leo;lion",
    ] {
        for position in 0..3 {
            let mut fixes = vec![
                fix(LION_FC, "allow", "USA", None),
                fix(PUMA_FC, "block", "GBR", None),
            ];
            fixes.insert(position, fix(species, "allow", "USA", None));
            assert_eq!(
                apply_fixes(&base, &fixes).err(),
                Some(Error::GeofenceInvalidValue(
                    "Fixes should provide only species-level rules.".to_string()
                ))
            );
        }
    }
    // The store that was handed in is as it was.
    assert_eq!(listed(&base, LION_FC, RuleKind::Allow, "USA"), None);
    assert!(base.rules(PUMA_FC).is_none());
}

#[test]
fn a_fix_with_an_unknown_rule_refuses_the_batch() {
    let base = geofence_map();
    let fixes = vec![fix(LION_FC, "allow", "USA", None), fix(LION_FC, "deny", "USA", None)];
    assert_eq!(
        apply_fixes(&base, &fixes).err(),
        Some(Error::GeofenceInvalidValue(
            "Rule types should be either `allow` or `block`.".to_string()
        ))
    );
    // The species is looked at first.
    let fixes = vec![fix("a;b", "deny", "USA", None)];
    assert_eq!(
        apply_fixes(&base, &fixes).err(),
        Some(Error::GeofenceInvalidValue(
            "Fixes should provide only species-level rules.".to_string()
        ))
    );
}

#[test]
fn species_and_rule_are_read_in_lowercase() {
    let base = geofence_map();
    let fixes = vec![
        fix("MAMMALIA;Carnivora;FELIDAE;Panthera;LEO", "ALLOW", "usa", Some("Ca")),
        fix("Mammalia;Carnivora;Felidae;Puma;Concolor", "Block", "GBR", None),
    ];
    let fixed = apply_fixes(&base, &fixes).unwrap();
    // The country and the region are taken as they are written.
    assert_eq!(listed(&fixed, LION_FC, RuleKind::Allow, "usa"), Some(regions(&["Ca"])));
    assert_eq!(listed(&fixed, LION_FC, RuleKind::Allow, "USA"), None);
    assert_eq!(listed(&fixed, PUMA_FC, RuleKind::Block, "GBR"), Some(regions(&[])));
    assert!(fixed.rules("Mammalia;Carnivora;Felidae;Puma;Concolor").is_none());
    assert_eq!(should_geofence(LION, Some("usa"), Some("Ca"), &fixed, true), Ok(false));
    assert_eq!(should_geofence(LION, Some("usa"), Some("NY"), &fixed, true), Ok(true));
}

#[test]
fn an_allow_fix_never_makes_an_allow_section() {
    let base = geofence_map();
    let fixes = vec![
        fix(PUMA_FC, "allow", "USA", None),
        fix(SAND_CAT_FC, "allow", "USA", Some("CA")),
    ];
    let fixed = apply_fixes(&base, &fixes).unwrap();
    assert!(fixed.rules(PUMA_FC).is_none());
    assert!(fixed.section(SAND_CAT_FC, RuleKind::Allow).is_none());
    assert_eq!(listed(&fixed, SAND_CAT_FC, RuleKind::Block, "AUS"), Some(regions(&[])));
}

#[test]
fn a_block_fix_makes_the_block_section() {
    let base = geofence_map();
    let fixes = vec![
        fix(PUMA_FC, "block", "USA", Some("NY")),
        fix(LION_FC, "block", "GBR", None),
    ];
    let fixed = apply_fixes(&base, &fixes).unwrap();
    assert_eq!(listed(&fixed, PUMA_FC, RuleKind::Block, "USA"), Some(regions(&["NY"])));
    assert!(fixed.section(PUMA_FC, RuleKind::Allow).is_none());
    assert_eq!(listed(&fixed, LION_FC, RuleKind::Block, "GBR"), Some(regions(&[])));
    assert_eq!(listed(&fixed, LION_FC, RuleKind::Allow, "KEN"), Some(regions(&[])));
}

#[test]
fn regions_are_united() {
    let base = geofence_map();
    let fixes = vec![
        // Joins the list.
        fix(PANTHERA_GENUS_FC.trim_end_matches(';'), "allow", "USA", Some("HI")),
        fix("mammalia;carnivora;felidae;panthera;x", "block", "USA", Some("HI")),
    ];
    assert!(apply_fixes(&base, &fixes).is_err());

    let mut base = geofence_map();
    base.set_regions(PUMA_FC, RuleKind::Allow, "USA", regions(&["AK", "CA"]));
    base.set_regions(PUMA_FC, RuleKind::Allow, "KEN", regions(&[]));
    let fixes = vec![
        // Joins the list.
        fix(PUMA_FC, "allow", "USA", Some("HI")),
        // Is in the list.
        fix(PUMA_FC, "allow", "USA", Some("AK")),
        // The whole country cannot be narrowed.
        fix(PUMA_FC, "allow", "KEN", Some("30")),
        // A list is not widened to the whole country.
        fix(PUMA_FC, "allow", "USA", None),
        fix(PUMA_FC, "allow", "USA", Some("")),
        // New countries.
        fix(PUMA_FC, "allow", "TZA", None),
        fix(PUMA_FC, "allow", "GBR", Some("ENG")),
        fix(PUMA_FC, "allow", "GBR", Some("SCT")),
    ];
    let fixed = apply_fixes(&base, &fixes).unwrap();
    assert_eq!(
        listed(&fixed, PUMA_FC, RuleKind::Allow, "USA"),
        Some(regions(&["AK", "CA", "HI"]))
    );
    assert_eq!(listed(&fixed, PUMA_FC, RuleKind::Allow, "KEN"), Some(regions(&[])));
    assert_eq!(listed(&fixed, PUMA_FC, RuleKind::Allow, "TZA"), Some(regions(&[])));
    assert_eq!(
        listed(&fixed, PUMA_FC, RuleKind::Allow, "GBR"),
        Some(regions(&["ENG", "SCT"]))
    );
    // The base is as it was.
    assert_eq!(listed(&base, PUMA_FC, RuleKind::Allow, "USA"), Some(regions(&["AK", "CA"])));
    assert_eq!(listed(&base, PUMA_FC, RuleKind::Allow, "GBR"), None);
}

#[test]
fn a_fix_keeps_what_it_is_given() {
    let fix = fix("a;b;c;d;e", "Allow", "USA", Some("NY"));
    assert_eq!(fix.species(), "a;b;c;d;e");
    assert_eq!(fix.rule(), "Allow");
    assert_eq!(fix.country_code(), "USA");
    assert_eq!(fix.admin1_region_code(), Some("NY"));
}

#[test]
fn no_fixes_change_nothing() {
    let base = geofence_map();
    let fixed = apply_fixes(&base, &vec![]).unwrap();
    assert_eq!(listed(&fixed, LION_FC, RuleKind::Allow, "KEN"), Some(regions(&[])));
    assert_eq!(
        listed(&fixed, FELIDAE_FAMILY_FC, RuleKind::Block, "USA"),
        Some(regions(&["NY"]))
    );
    assert!(fixed.rules(PUMA_FC).is_none());
}

#[test]
fn a_merged_list_holds_each_region_once() {
    let mut base = GeofenceRuleStore::new();
    base.set_regions(PUMA_FC, RuleKind::Block, "USA", regions(&["NY", "NY"]));
    base.set_regions(PUMA_FC, RuleKind::Block, "CAN", regions(&["ON", "QC", "ON", "BC", "QC"]));
    base.set_regions(PUMA_FC, RuleKind::Block, "MEX", regions(&["X", "X"]));
    base.set_regions(PUMA_FC, RuleKind::Allow, "BRA", regions(&["SP", "SP", "RJ"]));

    let fixes = vec![
        // A new region joins a list that repeats a region.
        fix(PUMA_FC, "block", "USA", Some("CA")),
        // A region that is listed: the list is written anew all the same.
        fix(PUMA_FC, "block", "CAN", Some("QC")),
        // A fix for the whole country leaves the list as it is.
        fix(PUMA_FC, "block", "MEX", None),
        fix(PUMA_FC, "allow", "BRA", Some("MG")),
    ];
    let fixed = apply_fixes(&base, &fixes).unwrap();
    assert_eq!(listed(&fixed, PUMA_FC, RuleKind::Block, "USA"), Some(regions(&["NY", "CA"])));
    assert_eq!(
        listed(&fixed, PUMA_FC, RuleKind::Block, "CAN"),
        Some(regions(&["ON", "QC", "BC"]))
    );
    assert_eq!(listed(&fixed, PUMA_FC, RuleKind::Block, "MEX"), Some(regions(&["X", "X"])));
    assert_eq!(
        listed(&fixed, PUMA_FC, RuleKind::Allow, "BRA"),
        Some(regions(&["SP", "RJ", "MG"]))
    );
    // The base keeps its lists.
    assert_eq!(listed(&base, PUMA_FC, RuleKind::Block, "USA"), Some(regions(&["NY", "NY"])));
}

#[test]
fn a_list_read_from_json_may_repeat_a_region() {
    let base = GeofenceRuleStore::from_json(
        r#"{"mammalia;carnivora;felidae;puma;concolor": {"block": {"USA": ["NY", "NY"]}}}"#,
    )
    .unwrap();
    assert_eq!(listed(&base, PUMA_FC, RuleKind::Block, "USA"), Some(regions(&["NY", "NY"])));
    let fixed = apply_fixes(&base, &vec![fix(PUMA_FC, "block", "USA", Some("CA"))]).unwrap();
    assert_eq!(listed(&fixed, PUMA_FC, RuleKind::Block, "USA"), Some(regions(&["NY", "CA"])));
    let same = apply_fixes(&base, &vec![fix(PUMA_FC, "block", "USA", Some("NY"))]).unwrap();
    assert_eq!(listed(&same, PUMA_FC, RuleKind::Block, "USA"), Some(regions(&["NY"])));
}

#[test]
fn rules_are_amended_for_a_key_and_a_kind() {
    let mut store = geofence_map();
    // The key and the kind are taken as they are.
    apply_lowered_fix(&mut store, LION_FC, RuleKind::Allow, "USA", "");
    assert_eq!(listed(&store, LION_FC, RuleKind::Allow, "USA"), Some(regions(&[])));
    apply_lowered_fix(&mut store, LION_FC, RuleKind::Allow, "USA", "CA");
    assert_eq!(listed(&store, LION_FC, RuleKind::Allow, "USA"), Some(regions(&[])));
    apply_lowered_fix(&mut store, "Upper;Case;Key;Of;Five", RuleKind::Block, "GBR", "ENG");
    assert_eq!(
        listed(&store, "Upper;Case;Key;Of;Five", RuleKind::Block, "GBR"),
        Some(regions(&["ENG"]))
    );
    assert!(store.rules("upper;case;key;of;five").is_none());
    // No allow section is made.
    apply_lowered_fix(&mut store, SAND_CAT_FC, RuleKind::Allow, "USA", "CA");
    assert!(store.section(SAND_CAT_FC, RuleKind::Allow).is_none());
    apply_lowered_fix(&mut store, "new", RuleKind::Allow, "USA", "CA");
    assert!(store.rules("new").is_none());
    // A block section is.
    apply_lowered_fix(&mut store, "new", RuleKind::Block, "USA", "");
    assert_eq!(listed(&store, "new", RuleKind::Block, "USA"), Some(regions(&[])));
    // Regions join a list in the order of the fixes.
    apply_lowered_fix(&mut store, PANTHERA_GENUS_FC, RuleKind::Allow, "USA", "HI");
    apply_lowered_fix(&mut store, PANTHERA_GENUS_FC, RuleKind::Allow, "USA", "AK");
    apply_lowered_fix(&mut store, PANTHERA_GENUS_FC, RuleKind::Allow, "USA", "");
    assert_eq!(
        listed(&store, PANTHERA_GENUS_FC, RuleKind::Allow, "USA"),
        Some(regions(&["AK", "CA", "HI"]))
    );
}
