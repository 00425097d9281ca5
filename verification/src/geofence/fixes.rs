//! Amendments to the geofence rules. A fix names a species, a kind of rule, a
//! country and possibly a region; a batch of fixes is merged into a store as a
//! whole or not at all.

use vstd::prelude::*;
use vstd::string::*;
use crate::error::{outcome, Error, ErrorView};
use crate::geofence::evaluate::geofenced;
use crate::geofence::rules::{
    countries_of, rules_for, section_for, with_regions, GeofenceRuleStore, RuleKind, RulesView,
};
use crate::geofence::taxonomy::{class_key, is_label};
use crate::text::{
    distinct, distinct_texts, lemma_distinct, list_contains, split, split_text, text_eq,
};

verus! {

/// The text that `str::to_lowercase` returns for a text.
pub uninterp spec fn lowercase_of(text: Seq<char>) -> Seq<char>;

/// `str::to_lowercase` of the standard library: the lowercase equivalent of a
/// text, as Unicode defines it. The result depends on the text alone.
pub assume_specification[ str::to_lowercase ](text: &str) -> (r: String)
    ensures
        r@ == lowercase_of(text@),
;

/// One amendment to the geofence rules.
#[derive(Debug)]
pub struct GeofenceFix {
    species: String,
    rule: String,
    country_code: String,
    admin1_region_code: Option<String>,
}

/// The mathematical content of a `GeofenceFix`.
pub struct FixView {
    pub species: Seq<char>,
    pub rule: Seq<char>,
    pub country_code: Seq<char>,
    pub admin1_region_code: Option<Seq<char>>,
}

impl DeepView for GeofenceFix {
    type V = FixView;

    closed spec fn deep_view(&self) -> FixView {
        FixView {
            species: self.species@,
            rule: self.rule@,
            country_code: self.country_code@,
            admin1_region_code: self.admin1_region_code.deep_view(),
        }
    }
}

impl View for GeofenceFix {
    type V = FixView;

    open spec fn view(&self) -> FixView {
        self.deep_view()
    }
}

impl GeofenceFix {
    /// A fix for a species, given by its full class string.
    pub fn new(
        species: String,
        rule: String,
        country_code: String,
        admin1_region_code: Option<String>,
    ) -> (r: Self)
        ensures
            r@ == (FixView {
                species: species@,
                rule: rule@,
                country_code: country_code@,
                admin1_region_code: admin1_region_code.deep_view(),
            }),
    {
        GeofenceFix { species, rule, country_code, admin1_region_code }
    }

    /// The full class string of the species, as it was written.
    pub fn species(&self) -> (r: &str)
        ensures
            r@ == self@.species,
    {
        self.species.as_str()
    }

    /// The kind of rule, as it was written.
    pub fn rule(&self) -> (r: &str)
        ensures
            r@ == self@.rule,
    {
        self.rule.as_str()
    }

    /// The country that the fix speaks of.
    pub fn country_code(&self) -> (r: &str)
        ensures
            r@ == self@.country_code,
    {
        self.country_code.as_str()
    }

    /// The region that the fix speaks of, if it names one.
    pub fn admin1_region_code(&self) -> (r: Option<&str>)
        ensures
            r.deep_view() == self@.admin1_region_code,
    {
        match &self.admin1_region_code {
            Some(region) => Some(region.as_str()),
            None => None,
        }
    }
}

impl FixView {
    /// The key of the rules that the fix amends: the species in lowercase.
    pub open spec fn key(self) -> Seq<char> {
        lowercase_of(self.species)
    }

    /// The kind of rule that the fix amends, where it names one.
    pub open spec fn kind(self) -> Option<RuleKind> {
        if lowercase_of(self.rule) == "allow"@ {
            Some(RuleKind::Allow)
        } else if lowercase_of(self.rule) == "block"@ {
            Some(RuleKind::Block)
        } else {
            None
        }
    }

    /// The region that the fix speaks of; the empty text where it speaks of
    /// the whole country.
    pub open spec fn region(self) -> Seq<char> {
        match self.admin1_region_code {
            Some(region) => region,
            None => Seq::empty(),
        }
    }

    /// Whether the fix speaks of a species: whether its key has five fields.
    pub open spec fn species_level(self) -> bool {
        split(self.key(), ';').len() == 5
    }

    /// Why the fix is refused, if it is.
    pub open spec fn failure(self) -> Option<ErrorView> {
        if !self.species_level() {
            Some(
                ErrorView::GeofenceInvalidValue(
                    "Fixes should provide only species-level rules."@,
                ),
            )
        } else if self.kind() is None {
            Some(
                ErrorView::GeofenceInvalidValue(
                    "Rule types should be either `allow` or `block`."@,
                ),
            )
        } else {
            None
        }
    }
}

/// The list of regions that a fix gives to its country, or `None` where the
/// section stays as it is. A country that the section does not name is added:
/// whole, or with the one region. A country that it names is left as it is if
/// it is whole or if the fix speaks of the whole country. Else its list
/// becomes the union of the list and the region: the regions of the list,
/// each once in the order in which they first occur, then the region of the
/// fix unless it is among them.
pub open spec fn merged_regions(
    section: Option<Map<Seq<char>, Seq<Seq<char>>>>,
    country: Seq<char>,
    region: Seq<char>,
) -> Option<Seq<Seq<char>>> {
    let countries = countries_of(section);
    if countries.dom().contains(country) {
        let listed = countries[country];
        if region.len() == 0 || listed.len() == 0 {
            None
        } else {
            Some(distinct(listed.push(region)))
        }
    } else if region.len() == 0 {
        Some(Seq::empty())
    } else {
        Some(seq![region])
    }
}

/// The store after the rules of one kind of the taxon filed under `key` have
/// been amended for a country and a region; the empty region stands for the
/// whole country. Allow rules are amended only where the taxon has an allow
/// section: none is ever made. A block section is made where it is missing.
pub open spec fn amended(
    store: Map<Seq<char>, RulesView>,
    key: Seq<char>,
    kind: RuleKind,
    country: Seq<char>,
    region: Seq<char>,
) -> Map<Seq<char>, RulesView> {
    let section = section_for(store, key, kind);
    if kind == RuleKind::Allow && section is None {
        store
    } else {
        match merged_regions(section, country, region) {
            Some(regions) => with_regions(store, key, kind, country, regions),
            None => store,
        }
    }
}

/// The store after one fix that is not refused: the rules of the kind that
/// the fix names are amended for the taxon filed under the key of the fix.
pub open spec fn apply_fix(store: Map<Seq<char>, RulesView>, fix: FixView) -> Map<
    Seq<char>,
    RulesView,
> {
    amended(store, fix.key(), fix.kind()->0, fix.country_code, fix.region())
}

/// The store after the fixes from position `from` on, taken in order, or the
/// failure of the first of them that is refused.
pub open spec fn apply_from(store: Map<Seq<char>, RulesView>, fixes: Seq<FixView>, from: int)
    -> Result<Map<Seq<char>, RulesView>, ErrorView>
    decreases fixes.len() - from,
{
    if from < 0 || from >= fixes.len() {
        Ok(store)
    } else {
        match fixes[from].failure() {
            Some(e) => Err(e),
            None => apply_from(apply_fix(store, fixes[from]), fixes, from + 1),
        }
    }
}

/// The store after a batch of fixes, or the failure of the first fix that is
/// refused.
pub open spec fn fixed(store: Map<Seq<char>, RulesView>, fixes: Seq<FixView>) -> Result<
    Map<Seq<char>, RulesView>,
    ErrorView,
> {
    apply_from(store, fixes, 0)
}

/// A batch that holds a fix whose key does not have exactly five fields is
/// refused as a whole, whatever else it holds.
pub proof fn lemma_species_level_only(store: Map<Seq<char>, RulesView>, fixes: Seq<FixView>, i: int)
    requires
        0 <= i < fixes.len(),
        !fixes[i].species_level(),
    ensures
        fixed(store, fixes) is Err,
{
    lemma_refused_from(store, fixes, 0, i);
}

/// A refused fix at or after `from` makes the fixes from `from` on fail.
proof fn lemma_refused_from(store: Map<Seq<char>, RulesView>, fixes: Seq<FixView>, from: int, i: int)
    requires
        0 <= from <= i < fixes.len(),
        fixes[i].failure() is Some,
    ensures
        apply_from(store, fixes, from) is Err,
    decreases i - from,
{
    if from < i && fixes[from].failure() is None {
        lemma_refused_from(apply_fix(store, fixes[from]), fixes, from + 1, i);
    }
}

/// A fix leaves the rules of every other taxon as they are.
pub proof fn lemma_fix_is_local(store: Map<Seq<char>, RulesView>, fix: FixView, key: Seq<char>)
    requires
        fix.kind() is Some,
        key != fix.key(),
    ensures
        apply_fix(store, fix).dom().contains(key) == store.dom().contains(key),
        rules_for(apply_fix(store, fix), key) == rules_for(store, key),
{
}

/// An allow fix changes nothing for a taxon that has no allow section: it
/// never makes one.
pub proof fn lemma_allow_needs_section(store: Map<Seq<char>, RulesView>, fix: FixView)
    requires
        fix.kind() == Some(RuleKind::Allow),
        section_for(store, fix.key(), RuleKind::Allow) is None,
    ensures
        apply_fix(store, fix) == store,
{
}

/// After a block fix the taxon has a block section that names the country of
/// the fix, and its allow section is as it was.
pub proof fn lemma_block_names_country(store: Map<Seq<char>, RulesView>, fix: FixView)
    requires
        fix.kind() == Some(RuleKind::Block),
    ensures
        section_for(apply_fix(store, fix), fix.key(), RuleKind::Block) matches Some(countries)
            && countries.dom().contains(fix.country_code),
        section_for(apply_fix(store, fix), fix.key(), RuleKind::Allow) == section_for(
            store,
            fix.key(),
            RuleKind::Allow,
        ),
{
}

/// A fix never narrows a country that is listed whole, and never widens a
/// list of regions to the whole country. It keeps every region that is
/// listed and adds none but its own.
pub proof fn lemma_fix_keeps_extent(store: Map<Seq<char>, RulesView>, fix: FixView)
    requires
        fix.kind() matches Some(kind) && section_for(store, fix.key(), kind) matches Some(
            countries,
        ) && countries.dom().contains(fix.country_code),
    ensures
        ({
            let kind = fix.kind()->0;
            let before = section_for(store, fix.key(), kind)->0[fix.country_code];
            let after = section_for(apply_fix(store, fix), fix.key(), kind)->0[fix.country_code];
            &&& section_for(apply_fix(store, fix), fix.key(), kind) is Some
            &&& (before.len() == 0 <==> after.len() == 0)
            &&& forall|region: Seq<char>| before.contains(region) ==> after.contains(region)
            &&& forall|region: Seq<char>|
                after.contains(region) ==> before.contains(region) || region == fix.region()
            &&& fix.region().len() > 0 && before.len() > 0 ==> after.contains(fix.region())
        }),
{
    let kind = fix.kind()->0;
    let before = section_for(store, fix.key(), kind)->0[fix.country_code];
    lemma_merged_is_union(before, fix.region());
}

/// The union of a list and a region holds the regions of the list and the
/// region, nothing else and nothing twice; the regions of the list come in
/// the order in which they first occur in it.
pub proof fn lemma_merged_is_union(listed: Seq<Seq<char>>, region: Seq<char>)
    ensures
        ({
            let merged = distinct(listed.push(region));
            &&& merged.no_duplicates()
            &&& merged.len() > 0
            &&& merged.contains(region)
            &&& forall|other: Seq<char>| listed.contains(other) ==> merged.contains(other)
            &&& forall|other: Seq<char>|
                merged.contains(other) ==> listed.contains(other) || other == region
            &&& merged == if distinct(listed).contains(region) {
                distinct(listed)
            } else {
                distinct(listed).push(region)
            }
        }),
{
    let grown = listed.push(region);
    let merged = distinct(grown);
    lemma_distinct(grown);
    assert(grown.drop_last() == listed);
    assert(grown[listed.len() as int] == region);
    assert(grown.contains(region));
    assert forall|other: Seq<char>| listed.contains(other) implies merged.contains(other) by {
        let at = choose|at: int| 0 <= at < listed.len() && listed[at] == other;
        assert(grown[at] == other);
        assert(grown.contains(other));
    }
    assert forall|other: Seq<char>| merged.contains(other) implies listed.contains(other) || other
        == region by {
        assert(grown.contains(other));
        let at = choose|at: int| 0 <= at < grown.len() && grown[at] == other;
        if at < listed.len() {
            assert(listed[at] == other);
        }
    }
}

/// After a fix that names a region of a country whose list is not empty, the
/// list of that country holds no region twice, whatever it held before.
pub proof fn lemma_fix_leaves_no_repeats(store: Map<Seq<char>, RulesView>, fix: FixView)
    requires
        fix.kind() matches Some(kind) && section_for(store, fix.key(), kind) matches Some(
            countries,
        ) && countries.dom().contains(fix.country_code) && countries[fix.country_code].len() > 0,
        fix.region().len() > 0,
    ensures
        section_for(apply_fix(store, fix), fix.key(), fix.kind()->0) matches Some(countries)
            && countries.dom().contains(fix.country_code)
            && countries[fix.country_code].no_duplicates(),
{
    let kind = fix.kind()->0;
    let before = section_for(store, fix.key(), kind)->0[fix.country_code];
    lemma_merged_is_union(before, fix.region());
}

/// After a fix that blocks a whole country, the species is rejected in that
/// country, whatever the region.
pub proof fn lemma_blocked_country_rejects(
    store: Map<Seq<char>, RulesView>,
    fix: FixView,
    label: Seq<char>,
    admin1_region: Option<Seq<char>>,
)
    requires
        fix.kind() == Some(RuleKind::Block),
        fix.region().len() == 0,
        is_label(label),
        class_key(label) == fix.key(),
        !(section_for(store, fix.key(), RuleKind::Block) matches Some(countries)
            && countries.dom().contains(fix.country_code)),
    ensures
        geofenced(label, Some(fix.country_code), admin1_region, apply_fix(store, fix), true) == Ok::<
            bool,
            ErrorView,
        >(true),
{
}

/// Amends the rules of one kind of the taxon filed under `key` for a country
/// and a region, as `amended` defines it. The key and the kind are taken as
/// they are: this is what a fix does once its species and its rule have been
/// read.
pub fn apply_lowered_fix(
    store: &mut GeofenceRuleStore,
    key: &str,
    kind: RuleKind,
    country: &str,
    region: &str,
)
    ensures
        final(store)@ == amended(old(store)@, key@, kind, country@, region@),
{
    let section = store.section(key, kind);
    let amend = match kind {
        RuleKind::Allow => section.is_some(),
        RuleKind::Block => true,
    };
    if !amend {
        return;
    }
    let listed = match section {
        Some(section) => section.regions(country),
        None => None,
    };
    let merged = match listed {
        Some(listed) => {
            if region.is_empty() || listed.len() == 0 {
                None
            } else {
                let mut regions = distinct_texts(listed);
                proof {
                    lemma_merged_is_union(listed.deep_view(), region@);
                }
                if !list_contains(&regions, region) {
                    let ghost before = regions.deep_view();
                    let added = region.to_owned();
                    regions.push(added);
                    assert(regions.deep_view() == before.push(added@));
                }
                Some(regions)
            }
        },
        None => {
            let mut regions: Vec<String> = Vec::new();
            if !region.is_empty() {
                regions.push(region.to_owned());
            }
            assert(regions.deep_view() == if region@.len() == 0 {
                Seq::<Seq<char>>::empty()
            } else {
                seq![region@]
            });
            Some(regions)
        },
    };
    assert(merged.deep_view() == merged_regions(
        section_for(store@, key@, kind),
        country@,
        region@,
    ));
    if let Some(regions) = merged {
        store.set_regions(key, kind, country, regions);
    }
}

/// Merges a batch of fixes into a copy of a store. The store that is handed
/// in is never changed, and where a fix is refused no store comes back.
pub fn apply_fixes(base: &GeofenceRuleStore, fixes: &Vec<GeofenceFix>) -> (r: Result<
    GeofenceRuleStore,
    Error,
>)
    ensures
        outcome(r) == fixed(base@, fixes.deep_view()),
{
    let mut store = base.copy();
    let mut i: usize = 0;
    while i < fixes.len()
        invariant
            i <= fixes.len(),
            fixed(base@, fixes.deep_view()) == apply_from(store@, fixes.deep_view(), i as int),
        decreases fixes.len() - i,
    {
        let fix = &fixes[i];
        assert(fixes.deep_view()[i as int] == fix@);
        let key = fix.species.as_str().to_lowercase();
        let fields = split_text(key.as_str(), ';');
        if fields.len() != 5 {
            return Err(
                Error::GeofenceInvalidValue(
                    "Fixes should provide only species-level rules.".to_owned(),
                ),
            );
        }
        let rule = fix.rule.as_str().to_lowercase();
        let kind = if text_eq(rule.as_str(), "allow") {
            RuleKind::Allow
        } else if text_eq(rule.as_str(), "block") {
            RuleKind::Block
        } else {
            return Err(
                Error::GeofenceInvalidValue(
                    "Rule types should be either `allow` or `block`.".to_owned(),
                ),
            );
        };
        let region = match &fix.admin1_region_code {
            Some(region) => region.as_str(),
            None => "",
        };
        proof {
            reveal_strlit("");
            assert(region@ == fix@.region());
        }
        apply_lowered_fix(&mut store, key.as_str(), kind, fix.country_code.as_str(), region);
        i = i + 1;
    }
    Ok(store)
}

} // verus!
