use speciesnet::error::Error;
use speciesnet::geofence::taxonomy::{get_ancestor_at_level, get_full_class_string, TaxonomyIndex};

const BLANK: &str = "f1856211-cfb7-4a5b-9158-c0f72fd09ee6;;;;;;blank";
const BLANK_FC: &str = ";;;;";
const HUMAN: &str =
    "990ae9dd-7a59-4344-afcb-1b7b21368000;mammalia;primates;hominidae;homo;sapiens;human";
const HUMAN_FC: &str = "mammalia;primates;hominidae;homo;sapiens";
const VEHICLE: &str = "e2895ed5-780b-48f6-8a11-9e27cb594511;;;;;;vehicle";
const VEHICLE_FC: &str = ";;;;";
const LION: &str =
    "ddf59264-185a-4d35-b647-2785792bdf54;mammalia;carnivora;felidae;panthera;leo;lion";
const LION_FC: &str = "mammalia;carnivora;felidae;panthera;leo";
const PANTHERA_GENUS: &str =
    "fbb23d07-6677-43db-b650-f99ac452c50f;mammalia;carnivora;felidae;panthera;;panthera species";
const PANTHERA_GENUS_FC: &str = "mammalia;carnivora;felidae;panthera;";
const FELIDAE_FAMILY: &str =
    "df8514b0-10a5-411f-8ed6-0f415e8153a3;mammalia;carnivora;felidae;;;cat family";
const FELIDAE_FAMILY_FC: &str = "mammalia;carnivora;felidae;;";
const CARNIVORA_ORDER: &str =
    "eeeb5d26-2a47-4d01-a3de-10b33ec0aee4;mammalia;carnivora;;;;carnivorous mammal";
const CARNIVORA_ORDER_FC: &str = "mammalia;carnivora;;;";
const MAMMALIA_CLASS: &str = "f2d233e3-80e3-433d-9687-e29ecc7a467a;mammalia;;;;;mammal";
const MAMMALIA_CLASS_FC: &str = "mammalia;;;;";
const ANIMAL_KINGDOM: &str = "1f689929-883d-4dae-958c-3d57ab5b6c16;;;;;;animal";
const ANIMAL_KINGDOM_FC: &str = ";;;;";
const BROWN_BEAR: &str =
    "330bb1e9-84d6-4e41-afa9-938aee17ea29;mammalia;carnivora;ursidae;ursus;arctos;brown bear";
const POLAR_BEAR: &str =
    "e7f83bf6-df2c-4ce0-97fc-2f233df23ec4;mammalia;carnivora;ursidae;ursus;maritimus;polar bear";
const GIANT_PANDA: &str = "85662682-67c1-4ecb-ba05-ba12e2df6b65;mammalia;carnivora;ursidae;ailuropoda;melanoleuca;giant panda";
const URSUS_GENUS: &str =
    "5a0f5e3f-c634-4b86-910a-b105cb526a24;mammalia;carnivora;ursidae;ursus;;ursus species";
const URSIDAE_FAMILY: &str =
    "ec1a70f4-41c0-4aba-9150-292fb2b7a324;mammalia;carnivora;ursidae;;;bear family";

/// The taxa of the mock taxonomy, each filed under its full class string. A
/// later taxon replaces an earlier one with the same key.
fn taxonomy_map() -> TaxonomyIndex {
    let mut index = TaxonomyIndex::new();
    for label in [
        BLANK,
        HUMAN,
        VEHICLE,
        LION,
        PANTHERA_GENUS,
        FELIDAE_FAMILY,
        CARNIVORA_ORDER,
        MAMMALIA_CLASS,
        ANIMAL_KINGDOM,
        BROWN_BEAR,
        POLAR_BEAR,
        GIANT_PANDA,
        URSUS_GENUS,
        URSIDAE_FAMILY,
    ] {
        index.insert(label).unwrap();
    }
    index
}

#[test]
fn test_get_full_class_string_fn() -> Result<(), Error> {
    // Test BLANK/HUMAN/VEHICLE.
    assert_eq!(get_full_class_string(BLANK)?, BLANK_FC);
    assert_eq!(get_full_class_string(HUMAN)?, HUMAN_FC);
    assert_eq!(get_full_class_string(VEHICLE)?, VEHICLE_FC);

    // Test valid labels
    assert_eq!(get_full_class_string(LION)?, LION_FC);
    assert_eq!(get_full_class_string(PANTHERA_GENUS)?, PANTHERA_GENUS_FC);
    assert_eq!(get_full_class_string(FELIDAE_FAMILY)?, FELIDAE_FAMILY_FC);
    assert_eq!(get_full_class_string(CARNIVORA_ORDER)?, CARNIVORA_ORDER_FC);
    assert_eq!(get_full_class_string(MAMMALIA_CLASS)?, MAMMALIA_CLASS_FC);
    assert_eq!(get_full_class_string(ANIMAL_KINGDOM)?, ANIMAL_KINGDOM_FC);

    // Test invalid labels
    {
        let invalid_label = "uuid;class;order;family;genus;species";
        let invalid_label_parts = invalid_label.split(";").collect::<Vec<_>>();

        assert!(matches!(
            get_full_class_string(invalid_label),
            Err(Error::InvalidLabel(
                parts_len, label
            )) if parts_len == invalid_label_parts.len().to_string() && label == *invalid_label
        ));
    }

    {
        let invalid_label = "uuid;class;order;family;genus;species;common_name;extra";
        let invalid_label_parts = invalid_label.split(";").collect::<Vec<_>>();

        let result = get_full_class_string(invalid_label);

        assert!(matches!(
            result,
            Err(Error::InvalidLabel(parts_len, label))
            if parts_len == invalid_label_parts.len().to_string()
                && label == *invalid_label
        ));
    }

    Ok(())
}

#[test]
fn tests_test_get_full_class_string_fn() -> Result<(), Error> {
    // Test BLANK/HUMAN/VEHICLE.
    assert_eq!(get_full_class_string(BLANK)?, BLANK_FC);
    assert_eq!(get_full_class_string(HUMAN)?, HUMAN_FC);
    assert_eq!(get_full_class_string(VEHICLE)?, VEHICLE_FC);

    // Test valid labels
    assert_eq!(get_full_class_string(LION)?, LION_FC);
    assert_eq!(get_full_class_string(PANTHERA_GENUS)?, PANTHERA_GENUS_FC);
    assert_eq!(get_full_class_string(FELIDAE_FAMILY)?, FELIDAE_FAMILY_FC);
    assert_eq!(get_full_class_string(CARNIVORA_ORDER)?, CARNIVORA_ORDER_FC);
    assert_eq!(get_full_class_string(MAMMALIA_CLASS)?, MAMMALIA_CLASS_FC);
    assert_eq!(get_full_class_string(ANIMAL_KINGDOM)?, ANIMAL_KINGDOM_FC);

    // Test invalid labels
    let invalid_label = "uuid;class;order;family;genus;species";
    let invalid_label_parts = invalid_label.split(";").collect::<Vec<_>>();
    assert!(matches!(
        get_full_class_string(invalid_label),
        Err(Error::InvalidLabel(parts_len, label))
        if parts_len == invalid_label_parts.len().to_string() && label == invalid_label
    ));

    let invalid_label = "uuid;class;order;family;genus;species;common_name;extra";
    let invalid_label_parts = invalid_label.split(";").collect::<Vec<_>>();
    assert!(matches!(
        get_full_class_string(invalid_label),
        Err(Error::InvalidLabel(parts_len, label))
        if parts_len == invalid_label_parts.len().to_string() && label == invalid_label
    ));

    Ok(())
}

#[test]
fn test_get_ancestor_at_level_fn() -> Result<(), Error> {
    let taxonomy = taxonomy_map();
    let some = |label: &str| Some(label.to_string());

    // Test all ancestors of LION
    assert_eq!(get_ancestor_at_level(LION, "species", &taxonomy)?, some(LION));
    assert_eq!(get_ancestor_at_level(LION, "genus", &taxonomy)?, some(PANTHERA_GENUS));
    assert_eq!(get_ancestor_at_level(LION, "family", &taxonomy)?, some(FELIDAE_FAMILY));
    assert_eq!(get_ancestor_at_level(LION, "order", &taxonomy)?, some(CARNIVORA_ORDER));
    assert_eq!(get_ancestor_at_level(LION, "class", &taxonomy)?, some(MAMMALIA_CLASS));
    assert_eq!(get_ancestor_at_level(LION, "kingdom", &taxonomy)?, some(ANIMAL_KINGDOM));

    // Test all ancestors of PANTHERA_GENUS
    assert_eq!(get_ancestor_at_level(PANTHERA_GENUS, "species", &taxonomy)?, None);
    assert_eq!(
        get_ancestor_at_level(PANTHERA_GENUS, "genus", &taxonomy)?,
        some(PANTHERA_GENUS)
    );
    assert_eq!(
        get_ancestor_at_level(PANTHERA_GENUS, "family", &taxonomy)?,
        some(FELIDAE_FAMILY)
    );
    assert_eq!(
        get_ancestor_at_level(PANTHERA_GENUS, "order", &taxonomy)?,
        some(CARNIVORA_ORDER)
    );
    assert_eq!(
        get_ancestor_at_level(PANTHERA_GENUS, "class", &taxonomy)?,
        some(MAMMALIA_CLASS)
    );
    assert_eq!(
        get_ancestor_at_level(PANTHERA_GENUS, "kingdom", &taxonomy)?,
        some(ANIMAL_KINGDOM)
    );

    // Test all ancestors of FELIDAE_FAMILY
    assert_eq!(get_ancestor_at_level(FELIDAE_FAMILY, "species", &taxonomy)?, None);
    assert_eq!(get_ancestor_at_level(FELIDAE_FAMILY, "genus", &taxonomy)?, None);
    assert_eq!(
        get_ancestor_at_level(FELIDAE_FAMILY, "family", &taxonomy)?,
        some(FELIDAE_FAMILY)
    );
    assert_eq!(
        get_ancestor_at_level(FELIDAE_FAMILY, "order", &taxonomy)?,
        some(CARNIVORA_ORDER)
    );
    assert_eq!(
        get_ancestor_at_level(FELIDAE_FAMILY, "class", &taxonomy)?,
        some(MAMMALIA_CLASS)
    );
    assert_eq!(
        get_ancestor_at_level(FELIDAE_FAMILY, "kingdom", &taxonomy)?,
        some(ANIMAL_KINGDOM)
    );

    // Test all ancestors of CARNIVORA_ORDER
    assert_eq!(get_ancestor_at_level(CARNIVORA_ORDER, "species", &taxonomy)?, None);
    assert_eq!(get_ancestor_at_level(CARNIVORA_ORDER, "genus", &taxonomy)?, None);
    assert_eq!(get_ancestor_at_level(CARNIVORA_ORDER, "family", &taxonomy)?, None);
    assert_eq!(
        get_ancestor_at_level(CARNIVORA_ORDER, "order", &taxonomy)?,
        some(CARNIVORA_ORDER)
    );
    assert_eq!(
        get_ancestor_at_level(CARNIVORA_ORDER, "class", &taxonomy)?,
        some(MAMMALIA_CLASS)
    );
    assert_eq!(
        get_ancestor_at_level(CARNIVORA_ORDER, "kingdom", &taxonomy)?,
        some(ANIMAL_KINGDOM)
    );

    // Test all ancestors of MAMMALIA_CLASS
    assert_eq!(get_ancestor_at_level(MAMMALIA_CLASS, "species", &taxonomy)?, None);
    assert_eq!(get_ancestor_at_level(MAMMALIA_CLASS, "genus", &taxonomy)?, None);
    assert_eq!(get_ancestor_at_level(MAMMALIA_CLASS, "family", &taxonomy)?, None);
    assert_eq!(get_ancestor_at_level(MAMMALIA_CLASS, "order", &taxonomy)?, None);
    assert_eq!(
        get_ancestor_at_level(MAMMALIA_CLASS, "class", &taxonomy)?,
        some(MAMMALIA_CLASS)
    );
    assert_eq!(
        get_ancestor_at_level(MAMMALIA_CLASS, "kingdom", &taxonomy)?,
        some(ANIMAL_KINGDOM)
    );

    // Test all ancestors of ANIMAL_KINGDOM
    assert_eq!(get_ancestor_at_level(ANIMAL_KINGDOM, "species", &taxonomy)?, None);
    assert_eq!(get_ancestor_at_level(ANIMAL_KINGDOM, "genus", &taxonomy)?, None);
    assert_eq!(get_ancestor_at_level(ANIMAL_KINGDOM, "family", &taxonomy)?, None);
    assert_eq!(get_ancestor_at_level(ANIMAL_KINGDOM, "order", &taxonomy)?, None);
    assert_eq!(get_ancestor_at_level(ANIMAL_KINGDOM, "class", &taxonomy)?, None);
    assert_eq!(
        get_ancestor_at_level(ANIMAL_KINGDOM, "kingdom", &taxonomy)?,
        some(ANIMAL_KINGDOM)
    );

    // Test all ancestors of BLANK
    assert_eq!(get_ancestor_at_level(BLANK, "species", &taxonomy)?, None);
    assert_eq!(get_ancestor_at_level(BLANK, "genus", &taxonomy)?, None);
    assert_eq!(get_ancestor_at_level(BLANK, "family", &taxonomy)?, None);
    assert_eq!(get_ancestor_at_level(BLANK, "order", &taxonomy)?, None);
    assert_eq!(get_ancestor_at_level(BLANK, "class", &taxonomy)?, None);
    assert_eq!(get_ancestor_at_level(BLANK, "kingdom", &taxonomy)?, None);

    // Test all ancestors of HUMAN, when its genus, family and order are missing from
    // the mock taxonomy mapping
    assert_eq!(get_ancestor_at_level(HUMAN, "species", &taxonomy)?, some(HUMAN));
    assert_eq!(get_ancestor_at_level(HUMAN, "genus", &taxonomy)?, None);
    assert_eq!(get_ancestor_at_level(HUMAN, "family", &taxonomy)?, None);
    assert_eq!(get_ancestor_at_level(HUMAN, "order", &taxonomy)?, None);
    assert_eq!(get_ancestor_at_level(HUMAN, "class", &taxonomy)?, some(MAMMALIA_CLASS));
    assert_eq!(get_ancestor_at_level(HUMAN, "kingdom", &taxonomy)?, some(ANIMAL_KINGDOM));

    // Test all ancestors of VEHICLE
    assert_eq!(get_ancestor_at_level(VEHICLE, "species", &taxonomy)?, None);
    assert_eq!(get_ancestor_at_level(VEHICLE, "genus", &taxonomy)?, None);
    assert_eq!(get_ancestor_at_level(VEHICLE, "family", &taxonomy)?, None);
    assert_eq!(get_ancestor_at_level(VEHICLE, "order", &taxonomy)?, None);
    assert_eq!(get_ancestor_at_level(VEHICLE, "class", &taxonomy)?, None);
    assert_eq!(get_ancestor_at_level(VEHICLE, "kingdom", &taxonomy)?, None);

    // Test all ancestors of an unseen species
    let unseen_species = "uuid;class;order;family;genus;species;common_name";
    assert_eq!(get_ancestor_at_level(unseen_species, "species", &taxonomy)?, None);
    assert_eq!(get_ancestor_at_level(unseen_species, "genus", &taxonomy)?, None);
    assert_eq!(get_ancestor_at_level(unseen_species, "family", &taxonomy)?, None);
    assert_eq!(get_ancestor_at_level(unseen_species, "order", &taxonomy)?, None);
    assert_eq!(get_ancestor_at_level(unseen_species, "class", &taxonomy)?, None);
    assert_eq!(
        get_ancestor_at_level(unseen_species, "kingdom", &taxonomy)?,
        some(ANIMAL_KINGDOM)
    );

    // Test invalid labels
    {
        let invalid_label = "uuid;class;order;family;genus;species";
        let invalid_label_parts = invalid_label.split(";").collect::<Vec<_>>();

        let result = get_ancestor_at_level(invalid_label, "kingdom", &taxonomy);

        assert!(matches!(
            result,
            Err(Error::InvalidLabel(len, label))
            if len == invalid_label_parts.len().to_string() &&
                label == invalid_label
        ));
    }

    {
        let invalid_label = "uuid;class;order;family;genus;species;common_name;extra";
        let invalid_label_parts = invalid_label.split(";").collect::<Vec<_>>();

        let result = get_ancestor_at_level(invalid_label, "kingdom", &taxonomy);

        assert!(matches!(
            result,
            Err(Error::InvalidLabel(len, label))
            if len == invalid_label_parts.len().to_string() &&
                label == invalid_label
        ));
    }

    // Test invalid taxonomy level name
    {
        let invalid_taxonomy_level = "incorrect_name";

        let result = get_ancestor_at_level(LION, invalid_taxonomy_level, &taxonomy);

        assert!(matches!(
            result,
            Err(Error::InvalidTaxonomyLevel(level)) if level == *invalid_taxonomy_level
        ));
    }

    Ok(())
}

#[test]
fn label_is_checked_before_level() {
    let taxonomy = taxonomy_map();
    let result = get_ancestor_at_level("a;b", "incorrect_name", &taxonomy);
    assert!(matches!(
        result,
        Err(Error::InvalidLabel(len, label)) if len == "2" && label == "a;b"
    ));
}

#[test]
fn field_counts_are_written_in_decimal() {
    let many = "x;".repeat(122);
    assert!(matches!(
        get_full_class_string(&many),
        Err(Error::InvalidLabel(len, label)) if len == "123" && label == many
    ));
    assert!(matches!(
        get_full_class_string(""),
        Err(Error::InvalidLabel(len, label)) if len == "1" && label.is_empty()
    ));
    let ten = ";".repeat(9);
    assert!(matches!(
        get_full_class_string(&ten),
        Err(Error::InvalidLabel(len, _)) if len == "10"
    ));
}

#[test]
fn labels_may_hold_any_characters() {
    assert_eq!(
        get_full_class_string("id;mammalia;carnívora;félidae;panthera;león;león").unwrap(),
        "mammalia;carnívora;félidae;panthera;león"
    );
    let mut index = TaxonomyIndex::new();
    index.insert("1;鳥綱;;;;;bird").unwrap();
    assert_eq!(
        get_ancestor_at_level("2;鳥綱;スズメ目;;;;sparrows", "class", &index).unwrap(),
        Some("1;鳥綱;;;;;bird".to_string())
    );
}

#[test]
fn a_gap_in_the_ranks_has_no_ancestor_there() {
    let mut index = TaxonomyIndex::new();
    index.insert("1;mammalia;carnivora;;;;order").unwrap();
    index.insert("2;mammalia;carnivora;;panthera;;gap").unwrap();
    let gap = "3;mammalia;carnivora;;panthera;leo;lion with a gap";
    assert_eq!(
        get_ancestor_at_level(gap, "genus", &index).unwrap(),
        Some("2;mammalia;carnivora;;panthera;;gap".to_string())
    );
    assert_eq!(get_ancestor_at_level(gap, "family", &index).unwrap(), None);
    assert_eq!(
        get_ancestor_at_level(gap, "order", &index).unwrap(),
        Some("1;mammalia;carnivora;;;;order".to_string())
    );
}

#[test]
fn kingdom_is_missing_only_without_class() {
    let taxonomy = taxonomy_map();
    for (label, expected) in [
        (LION, true),
        (MAMMALIA_CLASS, true),
        (ANIMAL_KINGDOM, true),
        (BLANK, false),
        (VEHICLE, false),
        ("x;;o;f;g;s;n", false),
        ("x;c;;;;;n", true),
    ] {
        let found = get_ancestor_at_level(label, "kingdom", &taxonomy).unwrap();
        assert_eq!(found.is_some(), expected, "{}", label);
    }
    let empty = TaxonomyIndex::new();
    assert_eq!(get_ancestor_at_level(LION, "kingdom", &empty).unwrap(), None);
}

#[test]
fn index_is_built_from_lines() {
    let lines: Vec<String> = [BLANK, LION, VEHICLE, ANIMAL_KINGDOM, FELIDAE_FAMILY]
        .iter()
        .map(|l| l.to_string())
        .collect();
    let index = TaxonomyIndex::from_labels(&lines).unwrap();
    assert_eq!(index.get(LION_FC), Some(&LION.to_string()));
    assert_eq!(index.get(FELIDAE_FAMILY_FC), Some(&FELIDAE_FAMILY.to_string()));
    assert_eq!(index.get(";;;;"), Some(&ANIMAL_KINGDOM.to_string()));
    assert_eq!(index.get(HUMAN_FC), None);

    let unknown = "f2efdae9-efb8-48fb-8a91-eccf79ab4ffb;no cv result;no cv result;no cv result;no cv result;no cv result;no cv result";
    let lines = vec![unknown.to_string(), BLANK.to_string(), VEHICLE.to_string()];
    let index = TaxonomyIndex::from_labels(&lines).unwrap();
    assert_eq!(index.get(";;;;"), None);
    assert_eq!(
        index.get("no cv result;no cv result;no cv result;no cv result;no cv result"),
        None
    );

    let lines = vec![LION.to_string(), "not a label".to_string(), "a;b".to_string()];
    assert!(matches!(
        TaxonomyIndex::from_labels(&lines),
        Err(Error::InvalidLabel(len, label)) if len == "1" && label == "not a label"
    ));
}

#[test]
fn a_later_label_replaces_an_earlier_one() {
    let mut index = TaxonomyIndex::new();
    index.insert("1;a;b;c;d;e;first").unwrap();
    index.insert("2;a;b;c;d;e;second").unwrap();
    assert_eq!(index.get("a;b;c;d;e"), Some(&"2;a;b;c;d;e;second".to_string()));
    assert!(matches!(
        index.insert("a;b;c"),
        Err(Error::InvalidLabel(len, label)) if len == "3" && label == "a;b;c"
    ));
    assert_eq!(index.get("a;b;c;d;e"), Some(&"2;a;b;c;d;e;second".to_string()));
}

#[test]
fn error_messages() {
    assert_eq!(
        Error::InvalidLabel("6".to_string(), "a;b;c;d;e;f".to_string()).message(),
        "Expected label made of 7 parts, but found only 6: a;b;c;d;e;f."
    );
    assert_eq!(
        Error::InvalidTaxonomyLevel("tribe".to_string()).message(),
        "Expected these taxonomy levels: `species`, `genus`, `family`, `order`, `class`, `kingdom`, but found: tribe."
    );
    assert_eq!(Error::GeofenceInvalidValue("x".to_string()).message(), "x");
    assert_eq!(
        Error::EmptyClassifications.message(),
        "`classifications` cannot be empty"
    );
}

#[test]
fn in_a_complete_taxonomy_an_ancestor_has_its_own_ancestors() {
    // Every taxon of this table comes with all the taxa above it.
    let mut index = TaxonomyIndex::new();
    for label in [
        ANIMAL_KINGDOM,
        MAMMALIA_CLASS,
        CARNIVORA_ORDER,
        FELIDAE_FAMILY,
        PANTHERA_GENUS,
        LION,
        URSIDAE_FAMILY,
        URSUS_GENUS,
        BROWN_BEAR,
        POLAR_BEAR,
    ] {
        index.insert(label).unwrap();
    }
    let levels = ["species", "genus", "family", "order", "class", "kingdom"];
    for label in [
        LION,
        PANTHERA_GENUS,
        FELIDAE_FAMILY,
        CARNIVORA_ORDER,
        MAMMALIA_CLASS,
        ANIMAL_KINGDOM,
        BROWN_BEAR,
        POLAR_BEAR,
        GIANT_PANDA,
        HUMAN,
        BLANK,
        "x;mammalia;carnivora;felidae;panthera;onca;jaguar",
    ] {
        let mut found = false;
        for level in levels {
            let ancestor = get_ancestor_at_level(label, level, &index).unwrap();
            if found {
                assert!(ancestor.is_some(), "{} at {}", label, level);
            }
            found = found || ancestor.is_some();
        }
    }
}
