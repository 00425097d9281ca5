//! Reading the geofence rules from JSON: an object that maps a full class
//! string to an object with the keys `allow` and `block`, each of which maps a
//! country to a list of regions.

use std::collections::BTreeMap;
use vstd::prelude::*;
use vstd::string::*;
use crate::error::{outcome, Error, ErrorView};
use crate::geofence::rules::{
    with_regions, with_section, GeofenceRuleStore, RuleKind, RulesView,
};
use crate::text::text_eq;

verus! {

/// What `serde_json::from_str` makes of a text that is read as a map of maps
/// of maps of lists of texts: the value, each map as the list of its entries
/// in the order of their keys, or the account that `serde_json` gives of its
/// failure.
pub uninterp spec fn rules_in(text: Seq<char>) -> Result<
    Seq<(Seq<char>, Seq<(Seq<char>, Seq<(Seq<char>, Seq<Seq<char>>)>)>)>,
    Seq<char>,
>;

/// `serde_json::from_str`, reading three nested `BTreeMap`s with lists of
/// texts at the bottom. What it returns depends on the text alone. A failure
/// is handed on as the text that `serde_json` displays for it.
#[verifier::external_body]
fn read_rules(text: &str) -> (r: Result<
    Vec<(String, Vec<(String, Vec<(String, Vec<String>)>)>)>,
    String,
>)
    ensures
        match r {
            Ok(entries) => rules_in(text@) == Ok::<
                Seq<(Seq<char>, Seq<(Seq<char>, Seq<(Seq<char>, Seq<Seq<char>>)>)>)>,
                Seq<char>,
            >(entries.deep_view()),
            Err(account) => rules_in(text@) == Err::<
                Seq<(Seq<char>, Seq<(Seq<char>, Seq<(Seq<char>, Seq<Seq<char>>)>)>)>,
                Seq<char>,
            >(account@),
        },
{
    let parsed: Result<BTreeMap<String, BTreeMap<String, BTreeMap<String, Vec<String>>>>, _> =
        serde_json::from_str(text);
    match parsed {
        Ok(taxa) => Ok(
            taxa.into_iter().map(
                |(key, kinds)| (key, kinds.into_iter().map(|(k, c)| (k, c.into_iter().collect())).collect()),
            ).collect(),
        ),
        Err(failure) => Err(failure.to_string()),
    }
}

/// What `from_json` returns for a text.
pub open spec fn rules_of_json(text: Seq<char>) -> Result<Map<Seq<char>, RulesView>, ErrorView> {
    match rules_in(text) {
        Ok(entries) => Ok(store_of(entries)),
        Err(account) => Err(ErrorView::DeserializeError(account)),
    }
}

/// The kind of rule that a key of a taxon's object stands for.
pub open spec fn kind_of(name: Seq<char>) -> Option<RuleKind> {
    if name == "allow"@ {
        Some(RuleKind::Allow)
    } else if name == "block"@ {
        Some(RuleKind::Block)
    } else {
        None
    }
}

/// The store with the countries of one section added in order.
pub open spec fn with_countries(
    store: Map<Seq<char>, RulesView>,
    key: Seq<char>,
    kind: RuleKind,
    countries: Seq<(Seq<char>, Seq<Seq<char>>)>,
) -> Map<Seq<char>, RulesView>
    decreases countries.len(),
{
    if countries.len() == 0 {
        store
    } else {
        with_regions(
            with_countries(store, key, kind, countries.drop_last()),
            key,
            kind,
            countries.last().0,
            countries.last().1,
        )
    }
}

/// The store with the sections of one taxon added in order. A section is
/// there even where it names no country; a key that names no kind of rule is
/// passed over.
pub open spec fn with_sections(
    store: Map<Seq<char>, RulesView>,
    key: Seq<char>,
    sections: Seq<(Seq<char>, Seq<(Seq<char>, Seq<Seq<char>>)>)>,
) -> Map<Seq<char>, RulesView>
    decreases sections.len(),
{
    if sections.len() == 0 {
        store
    } else {
        let before = with_sections(store, key, sections.drop_last());
        match kind_of(sections.last().0) {
            Some(kind) => with_countries(
                with_section(before, key, kind),
                key,
                kind,
                sections.last().1,
            ),
            None => before,
        }
    }
}

/// The store that a list of taxa with their sections stands for.
pub open spec fn store_of(
    entries: Seq<(Seq<char>, Seq<(Seq<char>, Seq<(Seq<char>, Seq<Seq<char>>)>)>)>,
) -> Map<Seq<char>, RulesView>
    decreases entries.len(),
{
    if entries.len() == 0 {
        Map::empty()
    } else {
        with_sections(store_of(entries.drop_last()), entries.last().0, entries.last().1)
    }
}

impl GeofenceRuleStore {
    /// Adds the countries of one section.
    fn add_countries(&mut self, key: &str, kind: RuleKind, countries: &Vec<(String, Vec<String>)>)
        ensures
            final(self)@ == with_countries(old(self)@, key@, kind, countries.deep_view()),
    {
        let ghost all = countries.deep_view();
        let ghost start = self@;
        let mut i: usize = 0;
        assert(all.take(0) == Seq::<(Seq<char>, Seq<Seq<char>>)>::empty());
        while i < countries.len()
            invariant
                i <= countries.len(),
                all == countries.deep_view(),
                self@ == with_countries(start, key@, kind, all.take(i as int)),
            decreases countries.len() - i,
        {
            proof {
                let upto = all.take(i as int + 1);
                assert(upto.drop_last() == all.take(i as int));
                assert(upto.last() == countries[i as int].deep_view());
            }
            let regions = countries[i].1.clone();
            assert(regions.deep_view() == countries[i as int].1.deep_view());
            self.set_regions(key, kind, countries[i].0.as_str(), regions);
            i = i + 1;
        }
        assert(all.take(i as int) == all);
    }

    /// Adds the sections of one taxon.
    fn add_sections(&mut self, key: &str, sections: &Vec<(String, Vec<(String, Vec<String>)>)>)
        ensures
            final(self)@ == with_sections(old(self)@, key@, sections.deep_view()),
    {
        let ghost all = sections.deep_view();
        let ghost start = self@;
        let mut i: usize = 0;
        assert(all.take(0) == Seq::<(Seq<char>, Seq<(Seq<char>, Seq<Seq<char>>)>)>::empty());
        while i < sections.len()
            invariant
                i <= sections.len(),
                all == sections.deep_view(),
                self@ == with_sections(start, key@, all.take(i as int)),
            decreases sections.len() - i,
        {
            proof {
                let upto = all.take(i as int + 1);
                assert(upto.drop_last() == all.take(i as int));
                assert(upto.last() == sections[i as int].deep_view());
            }
            let name = sections[i].0.as_str();
            if text_eq(name, "allow") {
                self.add_section(key, RuleKind::Allow);
                self.add_countries(key, RuleKind::Allow, &sections[i].1);
            } else if text_eq(name, "block") {
                self.add_section(key, RuleKind::Block);
                self.add_countries(key, RuleKind::Block, &sections[i].1);
            }
            i = i + 1;
        }
        assert(all.take(i as int) == all);
    }

    /// Builds the store that a list of taxa with their sections stands for.
    pub fn from_entries(entries: &Vec<(String, Vec<(String, Vec<(String, Vec<String>)>)>)>) -> (r:
        Self)
        ensures
            r@ == store_of(entries.deep_view()),
    {
        let ghost all = entries.deep_view();
        let mut store = GeofenceRuleStore::new();
        let mut i: usize = 0;
        assert(all.take(0) == Seq::<
            (Seq<char>, Seq<(Seq<char>, Seq<(Seq<char>, Seq<Seq<char>>)>)>),
        >::empty());
        while i < entries.len()
            invariant
                i <= entries.len(),
                all == entries.deep_view(),
                store@ == store_of(all.take(i as int)),
            decreases entries.len() - i,
        {
            proof {
                let upto = all.take(i as int + 1);
                assert(upto.drop_last() == all.take(i as int));
                assert(upto.last() == entries[i as int].deep_view());
            }
            store.add_sections(entries[i].0.as_str(), &entries[i].1);
            i = i + 1;
        }
        assert(all.take(i as int) == all);
        store
    }

    /// Reads the store from the text of a rule file. A text that does not
    /// hold rules is reported with the reader's account of it.
    pub fn from_json(text: &str) -> (r: Result<Self, Error>)
        ensures
            outcome(r) == rules_of_json(text@),
    {
        match read_rules(text) {
            Ok(entries) => Ok(GeofenceRuleStore::from_entries(&entries)),
            Err(account) => Err(Error::DeserializeError(account)),
        }
    }
}

} // verus!
