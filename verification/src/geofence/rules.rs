//! The geofence rule store: for a taxon's full class string, the countries in
//! which it is allowed and those in which it is blocked, each with a list of
//! regions. An empty list of regions stands for the whole country.

use vstd::prelude::*;
use vstd::string::*;
use crate::lookup::{
    find, lemma_table_empty, lemma_table_push, lemma_table_same, lemma_table_update, position, table,
    Entry,
};

verus! {

/// The two kinds of rule that a taxon can have.
#[derive(Clone, Copy, Debug, PartialEq, Eq, Structural)]
pub enum RuleKind {
    Allow,
    Block,
}

/// The mathematical content of a taxon's rules: for each kind, the section if
/// there is one, as a map from country to list of regions.
pub struct RulesView {
    pub allow: Option<Map<Seq<char>, Seq<Seq<char>>>>,
    pub block: Option<Map<Seq<char>, Seq<Seq<char>>>>,
}

impl RulesView {
    /// Rules without any section.
    pub open spec fn unconstrained() -> RulesView {
        RulesView { allow: None, block: None }
    }

    /// The section of one kind.
    pub open spec fn section(self, kind: RuleKind) -> Option<Map<Seq<char>, Seq<Seq<char>>>> {
        match kind {
            RuleKind::Allow => self.allow,
            RuleKind::Block => self.block,
        }
    }

    /// The same rules with the section of one kind replaced.
    pub open spec fn with_section(
        self,
        kind: RuleKind,
        countries: Map<Seq<char>, Seq<Seq<char>>>,
    ) -> RulesView {
        match kind {
            RuleKind::Allow => RulesView { allow: Some(countries), block: self.block },
            RuleKind::Block => RulesView { allow: self.allow, block: Some(countries) },
        }
    }
}

/// The rules of a taxon in a store: a taxon that the store does not hold is
/// unconstrained.
pub open spec fn rules_for(store: Map<Seq<char>, RulesView>, key: Seq<char>) -> RulesView {
    if store.dom().contains(key) {
        store[key]
    } else {
        RulesView::unconstrained()
    }
}

/// The section of one kind of a taxon in a store.
pub open spec fn section_for(store: Map<Seq<char>, RulesView>, key: Seq<char>, kind: RuleKind)
    -> Option<Map<Seq<char>, Seq<Seq<char>>>> {
    rules_for(store, key).section(kind)
}

/// A section, or the empty one where there is none.
pub open spec fn countries_of(section: Option<Map<Seq<char>, Seq<Seq<char>>>>) -> Map<
    Seq<char>,
    Seq<Seq<char>>,
> {
    match section {
        Some(countries) => countries,
        None => Map::empty(),
    }
}

/// The store in which the taxon has a section of the given kind: the one it
/// had, or an empty one.
pub open spec fn with_section(store: Map<Seq<char>, RulesView>, key: Seq<char>, kind: RuleKind)
    -> Map<Seq<char>, RulesView> {
    let rules = rules_for(store, key);
    store.insert(key, rules.with_section(kind, countries_of(rules.section(kind))))
}

/// The store in which the section of the given kind of the taxon lists
/// `regions` for `country`, in place of what it listed for that country.
pub open spec fn with_regions(
    store: Map<Seq<char>, RulesView>,
    key: Seq<char>,
    kind: RuleKind,
    country: Seq<char>,
    regions: Seq<Seq<char>>,
) -> Map<Seq<char>, RulesView> {
    let rules = rules_for(store, key);
    store.insert(
        key,
        rules.with_section(kind, countries_of(rules.section(kind)).insert(country, regions)),
    )
}

/// The rules of one kind for one taxon: countries, each with its regions.
pub struct RuleSection {
    countries: Vec<Entry<Vec<String>>>,
}

impl DeepView for RuleSection {
    type V = Map<Seq<char>, Seq<Seq<char>>>;

    closed spec fn deep_view(&self) -> Map<Seq<char>, Seq<Seq<char>>> {
        table(self.countries@)
    }
}

impl View for RuleSection {
    type V = Map<Seq<char>, Seq<Seq<char>>>;

    open spec fn view(&self) -> Map<Seq<char>, Seq<Seq<char>>> {
        self.deep_view()
    }
}

impl RuleSection {
    /// A section that names no country.
    pub fn new() -> (r: Self)
        ensures
            r@ == Map::<Seq<char>, Seq<Seq<char>>>::empty(),
    {
        let r = RuleSection { countries: Vec::new() };
        proof {
            lemma_table_empty(r.countries@);
        }
        r
    }

    /// Whether the section names no country.
    pub fn is_empty(&self) -> (r: bool)
        ensures
            r == (self@ == Map::<Seq<char>, Seq<Seq<char>>>::empty()),
    {
        proof {
            lemma_table_empty(self.countries@);
        }
        self.countries.len() == 0
    }

    /// Whether the section names a country.
    pub fn contains_country(&self, country: &str) -> (r: bool)
        ensures
            r == self@.dom().contains(country@),
    {
        position(&self.countries, country).is_some()
    }

    /// The regions that the section lists for a country.
    pub fn regions(&self, country: &str) -> (r: Option<&Vec<String>>)
        ensures
            match r {
                Some(regions) => self@.dom().contains(country@) && self@[country@]
                    == regions.deep_view(),
                None => !self@.dom().contains(country@),
            },
    {
        match position(&self.countries, country) {
            Some(i) => Some(&self.countries[i].value),
            None => None,
        }
    }

    /// Lists `regions` for `country`, in place of what was listed for it.
    pub fn set_regions(&mut self, country: &str, regions: Vec<String>)
        ensures
            final(self)@ == old(self)@.insert(country@, regions.deep_view()),
    {
        let ghost before = self.countries@;
        match position(&self.countries, country) {
            Some(i) => {
                self.countries[i].value = regions;
                proof {
                    lemma_table_update(before, self.countries@, i as int);
                }
            },
            None => {
                let entry = Entry { key: country.to_owned(), value: regions };
                self.countries.push(entry);
                proof {
                    lemma_table_push(before, entry);
                }
            },
        }
    }

    /// A section with the same content.
    pub fn copy(&self) -> (r: Self)
        ensures
            r@ == self@,
    {
        let mut countries: Vec<Entry<Vec<String>>> = Vec::new();
        let mut i: usize = 0;
        while i < self.countries.len()
            invariant
                i <= self.countries.len(),
                countries.len() == i,
                forall|j: int| 0 <= j < i ==> countries[j].key@ == self.countries[j].key@,
                forall|j: int|
                    0 <= j < i ==> countries[j].value.deep_view()
                        == self.countries[j].value.deep_view(),
            decreases self.countries.len() - i,
        {
            let key = self.countries[i].key.clone();
            let value = self.countries[i].value.clone();
            assert(value@ =~= self.countries[i as int].value@);
            countries.push(Entry { key, value });
            i = i + 1;
        }
        proof {
            lemma_table_same(self.countries@, countries@);
        }
        RuleSection { countries }
    }
}

/// The rules of one taxon: an allow section, a block section, both or none.
pub struct TaxonRules {
    allow: Option<RuleSection>,
    block: Option<RuleSection>,
}

impl DeepView for TaxonRules {
    type V = RulesView;

    closed spec fn deep_view(&self) -> RulesView {
        RulesView { allow: self.allow.deep_view(), block: self.block.deep_view() }
    }
}

impl View for TaxonRules {
    type V = RulesView;

    open spec fn view(&self) -> RulesView {
        self.deep_view()
    }
}

impl TaxonRules {
    /// Rules without any section.
    pub fn new() -> (r: Self)
        ensures
            r@ == RulesView::unconstrained(),
    {
        TaxonRules { allow: None, block: None }
    }

    /// The section of one kind, if there is one.
    pub fn section(&self, kind: RuleKind) -> (r: Option<&RuleSection>)
        ensures
            r.deep_view() == self@.section(kind),
    {
        match kind {
            RuleKind::Allow => self.allow.as_ref(),
            RuleKind::Block => self.block.as_ref(),
        }
    }

    /// Takes the section of one kind out of the rules, or makes an empty one.
    fn take_section(&mut self, kind: RuleKind) -> (r: RuleSection)
        ensures
            r@ == countries_of(old(self)@.section(kind)),
            forall|countries: Map<Seq<char>, Seq<Seq<char>>>|
                final(self)@.with_section(kind, countries) == old(self)@.with_section(
                    kind,
                    countries,
                ),
    {
        let taken = match kind {
            RuleKind::Allow => self.allow.take(),
            RuleKind::Block => self.block.take(),
        };
        match taken {
            Some(section) => section,
            None => RuleSection::new(),
        }
    }

    /// Puts a section of one kind into the rules.
    fn put_section(&mut self, kind: RuleKind, section: RuleSection)
        ensures
            final(self)@ == old(self)@.with_section(kind, section@),
    {
        match kind {
            RuleKind::Allow => {
                self.allow = Some(section);
            },
            RuleKind::Block => {
                self.block = Some(section);
            },
        }
    }

    /// Rules with the same content.
    pub fn copy(&self) -> (r: Self)
        ensures
            r@ == self@,
    {
        let allow = match &self.allow {
            Some(section) => Some(section.copy()),
            None => None,
        };
        let block = match &self.block {
            Some(section) => Some(section.copy()),
            None => None,
        };
        TaxonRules { allow, block }
    }
}

/// The geofence rules of every taxon that has any.
pub struct GeofenceRuleStore {
    entries: Vec<Entry<TaxonRules>>,
}

impl View for GeofenceRuleStore {
    type V = Map<Seq<char>, RulesView>;

    closed spec fn view(&self) -> Map<Seq<char>, RulesView> {
        table(self.entries@)
    }
}

impl DeepView for GeofenceRuleStore {
    type V = Map<Seq<char>, RulesView>;

    open spec fn deep_view(&self) -> Map<Seq<char>, RulesView> {
        self@
    }
}

impl GeofenceRuleStore {
    /// A store without rules.
    pub fn new() -> (r: Self)
        ensures
            r@ == Map::<Seq<char>, RulesView>::empty(),
    {
        let r = GeofenceRuleStore { entries: Vec::new() };
        proof {
            lemma_table_empty(r.entries@);
        }
        r
    }

    /// The rules of a taxon, if the store holds any.
    pub fn rules(&self, key: &str) -> (r: Option<&TaxonRules>)
        ensures
            match r {
                Some(rules) => self@.dom().contains(key@) && self@[key@] == rules@,
                None => !self@.dom().contains(key@),
            },
    {
        match position(&self.entries, key) {
            Some(i) => Some(&self.entries[i].value),
            None => None,
        }
    }

    /// The section of one kind of a taxon, if the store holds one.
    pub fn section(&self, key: &str, kind: RuleKind) -> (r: Option<&RuleSection>)
        ensures
            r.deep_view() == section_for(self@, key@, kind),
    {
        match self.rules(key) {
            Some(rules) => rules.section(kind),
            None => None,
        }
    }

    /// The position of the rules of a taxon, which are made, without any
    /// section, where the store holds none.
    fn slot(&mut self, key: &str) -> (i: usize)
        ensures
            i < final(self).entries.len(),
            final(self).entries[i as int].key@ == key@,
            find(final(self).entries@, key@) == Some(i as int),
            final(self).entries[i as int].value@ == rules_for(old(self)@, key@),
            final(self)@ == old(self)@.insert(key@, rules_for(old(self)@, key@)),
    {
        match position(&self.entries, key) {
            Some(i) => {
                assert(self@ =~= self@.insert(key@, rules_for(self@, key@)));
                i
            },
            None => {
                let ghost before = self.entries@;
                let entry = Entry { key: key.to_owned(), value: TaxonRules::new() };
                self.entries.push(entry);
                proof {
                    lemma_table_push(before, entry);
                    assert(self.entries@.drop_last() == before);
                }
                self.entries.len() - 1
            },
        }
    }

    /// Gives the taxon a section of the given kind, empty, unless it has one.
    pub fn add_section(&mut self, key: &str, kind: RuleKind)
        ensures
            final(self)@ == with_section(old(self)@, key@, kind),
    {
        let i = self.slot(key);
        let ghost before = self.entries@;
        let mut rules = TaxonRules::new();
        std::mem::swap(&mut self.entries[i].value, &mut rules);
        let section = rules.take_section(kind);
        rules.put_section(kind, section);
        self.entries[i].value = rules;
        proof {
            lemma_table_update(before, self.entries@, i as int);
            assert(self@ =~= with_section(old(self)@, key@, kind));
        }
    }

    /// Lists `regions` for `country` in the section of the given kind of the
    /// taxon, in place of what it listed for that country. The section, and
    /// the taxon's rules, are made where they are missing.
    pub fn set_regions(&mut self, key: &str, kind: RuleKind, country: &str, regions: Vec<String>)
        ensures
            final(self)@ == with_regions(old(self)@, key@, kind, country@, regions.deep_view()),
    {
        let i = self.slot(key);
        let ghost before = self.entries@;
        let mut rules = TaxonRules::new();
        std::mem::swap(&mut self.entries[i].value, &mut rules);
        let mut section = rules.take_section(kind);
        section.set_regions(country, regions);
        rules.put_section(kind, section);
        self.entries[i].value = rules;
        proof {
            lemma_table_update(before, self.entries@, i as int);
            assert(self@ =~= with_regions(old(self)@, key@, kind, country@, regions.deep_view()));
        }
    }

    /// A store with the same content.
    pub fn copy(&self) -> (r: Self)
        ensures
            r@ == self@,
    {
        let mut entries: Vec<Entry<TaxonRules>> = Vec::new();
        let mut i: usize = 0;
        while i < self.entries.len()
            invariant
                i <= self.entries.len(),
                entries.len() == i,
                forall|j: int| 0 <= j < i ==> entries[j].key@ == self.entries[j].key@,
                forall|j: int|
                    0 <= j < i ==> entries[j].value.deep_view() == self.entries[j].value.deep_view(),
            decreases self.entries.len() - i,
        {
            let key = self.entries[i].key.clone();
            let value = self.entries[i].value.copy();
            entries.push(Entry { key, value });
            i = i + 1;
        }
        proof {
            lemma_table_same(self.entries@, entries@);
        }
        GeofenceRuleStore { entries }
    }
}

} // verus!
