//! Labels, taxonomy levels and the index that maps a taxon's key to its label.
//!
//! A label is a text of seven fields separated by semicolons:
//! `id;class;order;family;genus;species;common name`. The five fields in the
//! middle, joined again, are the label's full class string.

use vstd::prelude::*;
use vstd::string::*;
use crate::constants::classification::{ANIMAL, BLANK, UNKNOWN, VEHICLE};
use crate::error::{outcome, Error, ErrorView};
use crate::lookup::{
    lemma_table_push, lemma_table_update, position, table, Entry,
};
use crate::text::{
    decimal, decimal_text, join, join_text, lemma_split_join, lemma_split_pieces, split, split_text,
    text_eq,
};

verus! {

/// A rank of the taxonomy, from the finest to the coarsest.
#[derive(Clone, Copy, Debug, PartialEq, Eq, Structural)]
pub enum TaxonomyLevel {
    Species,
    Genus,
    Family,
    Order,
    Class,
    Kingdom,
}

impl TaxonomyLevel {
    /// The level that a name stands for.
    pub open spec fn from_name(name: Seq<char>) -> Option<TaxonomyLevel> {
        if name == "species"@ {
            Some(TaxonomyLevel::Species)
        } else if name == "genus"@ {
            Some(TaxonomyLevel::Genus)
        } else if name == "family"@ {
            Some(TaxonomyLevel::Family)
        } else if name == "order"@ {
            Some(TaxonomyLevel::Order)
        } else if name == "class"@ {
            Some(TaxonomyLevel::Class)
        } else if name == "kingdom"@ {
            Some(TaxonomyLevel::Kingdom)
        } else {
            None
        }
    }

    /// The name of the level.
    pub open spec fn name(self) -> Seq<char> {
        match self {
            TaxonomyLevel::Species => "species"@,
            TaxonomyLevel::Genus => "genus"@,
            TaxonomyLevel::Family => "family"@,
            TaxonomyLevel::Order => "order"@,
            TaxonomyLevel::Class => "class"@,
            TaxonomyLevel::Kingdom => "kingdom"@,
        }
    }

    /// How many of a label's five middle fields a key of this level keeps:
    /// also the position, among the seven fields, of the level's own field.
    pub open spec fn depth(self) -> nat {
        match self {
            TaxonomyLevel::Species => 5,
            TaxonomyLevel::Genus => 4,
            TaxonomyLevel::Family => 3,
            TaxonomyLevel::Order => 2,
            TaxonomyLevel::Class => 1,
            TaxonomyLevel::Kingdom => 0,
        }
    }

    /// Reads a level name.
    pub fn parse(name: &str) -> (r: Option<TaxonomyLevel>)
        ensures
            r == Self::from_name(name@),
    {
        if text_eq(name, "species") {
            Some(TaxonomyLevel::Species)
        } else if text_eq(name, "genus") {
            Some(TaxonomyLevel::Genus)
        } else if text_eq(name, "family") {
            Some(TaxonomyLevel::Family)
        } else if text_eq(name, "order") {
            Some(TaxonomyLevel::Order)
        } else if text_eq(name, "class") {
            Some(TaxonomyLevel::Class)
        } else if text_eq(name, "kingdom") {
            Some(TaxonomyLevel::Kingdom)
        } else {
            None
        }
    }

    /// The name of the level.
    pub fn as_str(&self) -> (r: &'static str)
        ensures
            r@ == self.name(),
    {
        match self {
            TaxonomyLevel::Species => "species",
            TaxonomyLevel::Genus => "genus",
            TaxonomyLevel::Family => "family",
            TaxonomyLevel::Order => "order",
            TaxonomyLevel::Class => "class",
            TaxonomyLevel::Kingdom => "kingdom",
        }
    }

    /// How many of a label's five middle fields a key of this level keeps.
    pub fn kept_fields(&self) -> (r: usize)
        ensures
            r == self.depth(),
    {
        match self {
            TaxonomyLevel::Species => 5,
            TaxonomyLevel::Genus => 4,
            TaxonomyLevel::Family => 3,
            TaxonomyLevel::Order => 2,
            TaxonomyLevel::Class => 1,
            TaxonomyLevel::Kingdom => 0,
        }
    }
}

/// The fields of a label.
pub open spec fn label_fields(label: Seq<char>) -> Seq<Seq<char>> {
    split(label, ';')
}

/// Whether a text is a label: whether it has exactly seven fields.
pub open spec fn is_label(label: Seq<char>) -> bool {
    label_fields(label).len() == 7
}

/// The failure reported for a text that is not a label.
pub open spec fn invalid_label(label: Seq<char>) -> ErrorView {
    ErrorView::InvalidLabel(decimal(label_fields(label).len()), label)
}

/// The key of a taxon at a given depth: the first `depth` of the five middle
/// fields, then empty fields up to five, joined by semicolons.
pub open spec fn level_key(middle: Seq<Seq<char>>, depth: nat) -> Seq<char> {
    join(middle.take(depth as int) + Seq::new((5 - depth) as nat, |i: int| Seq::<char>::empty()), seq![';'])
}

/// The full class string of a label: its five middle fields.
pub open spec fn class_key(label: Seq<char>) -> Seq<char> {
    join(label_fields(label).subrange(1, 6), seq![';'])
}

/// The key under which the ancestor of `label` at `level` is looked up.
pub open spec fn ancestor_key(label: Seq<char>, level: TaxonomyLevel) -> Seq<char> {
    level_key(label_fields(label).subrange(1, 6), level.depth())
}

/// Whether `label` is placed at `level` at all. At every level but the kingdom
/// the level's own field must be filled. At the kingdom the class must be
/// filled, except for the label that stands for an unclassified animal.
pub open spec fn has_rank(label: Seq<char>, level: TaxonomyLevel) -> bool {
    if level == TaxonomyLevel::Kingdom {
        label_fields(label)[1].len() > 0 || label == ANIMAL@
    } else {
        label_fields(label)[level.depth() as int].len() > 0
    }
}

/// The ancestor of a label at a level in a table of taxa, if it has one.
pub open spec fn ancestor(
    label: Seq<char>,
    level: TaxonomyLevel,
    taxa: Map<Seq<char>, Seq<char>>,
) -> Option<Seq<char>> {
    let key = ancestor_key(label, level);
    if has_rank(label, level) && taxa.dom().contains(key) {
        Some(taxa[key])
    } else {
        None
    }
}

/// What `get_full_class_string` returns for a text.
pub open spec fn full_class_string(label: Seq<char>) -> Result<Seq<char>, ErrorView> {
    if is_label(label) {
        Ok(class_key(label))
    } else {
        Err(invalid_label(label))
    }
}

/// What `get_ancestor_at_level` returns: a text that is no label is reported
/// first, then a level name that is not known.
pub open spec fn ancestor_at_level(
    label: Seq<char>,
    level_name: Seq<char>,
    taxa: Map<Seq<char>, Seq<char>>,
) -> Result<Option<Seq<char>>, ErrorView> {
    if !is_label(label) {
        Err(invalid_label(label))
    } else {
        match TaxonomyLevel::from_name(level_name) {
            None => Err(ErrorView::InvalidTaxonomyLevel(level_name)),
            Some(level) => Ok(ancestor(label, level, taxa)),
        }
    }
}

/// Extracts the full class string of a label.
pub fn get_full_class_string(label: &str) -> (r: Result<String, Error>)
    ensures
        outcome(r) == full_class_string(label@),
{
    let fields = split_text(label, ';');
    if fields.len() != 7 {
        return Err(Error::InvalidLabel(decimal_text(fields.len()), label.to_owned()));
    }
    Ok(middle_key(&fields, 5))
}

/// Builds the key of depth `depth` from the fields of a label.
fn middle_key(fields: &Vec<String>, depth: usize) -> (r: String)
    requires
        fields.len() == 7,
        depth <= 5,
    ensures
        r@ == level_key(fields.deep_view().subrange(1, 6), depth as nat),
        depth == 5 ==> r@ == join(fields.deep_view().subrange(1, 6), seq![';']),
{
    proof {
        reveal_strlit(";");
        assert(";"@ =~= seq![';']);
    }
    let ghost middle = fields.deep_view().subrange(1, 6);
    let mut parts: Vec<String> = Vec::new();
    let mut i: usize = 0;
    while i < 5
        invariant
            i <= 5,
            depth <= 5,
            fields.len() == 7,
            middle == fields.deep_view().subrange(1, 6),
            parts.len() == i,
            forall|j: int|
                0 <= j < i ==> #[trigger] parts[j]@ == (if j < depth {
                    middle[j]
                } else {
                    Seq::<char>::empty()
                }),
        decreases 5 - i,
    {
        if i < depth {
            parts.push(fields[i + 1].clone());
        } else {
            parts.push(String::new());
        }
        i = i + 1;
    }
    proof {
        let padded = middle.take(depth as int) + Seq::new(
            (5 - depth) as nat,
            |i: int| Seq::<char>::empty(),
        );
        assert(parts.deep_view().subrange(0, 5) =~= padded);
        if depth == 5 {
            assert(padded =~= middle);
        }
    }
    join_text(&parts, 0, 5, ";")
}

/// Whether a label is one of those that the index leaves out: they stand for
/// outcomes that have no place in the taxonomy.
pub open spec fn is_excluded(label: Seq<char>) -> bool {
    label == BLANK@ || label == VEHICLE@ || label == UNKNOWN@
}

/// The table built from a list of labels, taken in order: excluded labels are
/// passed over, a text that is no label stops the build, and a label replaces
/// an earlier one with the same full class string.
pub open spec fn index_of(labels: Seq<Seq<char>>) -> Result<Map<Seq<char>, Seq<char>>, ErrorView>
    decreases labels.len(),
{
    if labels.len() == 0 {
        Ok(Map::empty())
    } else {
        match index_of(labels.drop_last()) {
            Err(e) => Err(e),
            Ok(taxa) => {
                let label = labels.last();
                if is_excluded(label) {
                    Ok(taxa)
                } else if !is_label(label) {
                    Err(invalid_label(label))
                } else {
                    Ok(taxa.insert(class_key(label), label))
                }
            },
        }
    }
}

/// The taxa that the engine knows, each filed under its full class string.
pub struct TaxonomyIndex {
    entries: Vec<Entry<String>>,
}

impl View for TaxonomyIndex {
    type V = Map<Seq<char>, Seq<char>>;

    closed spec fn view(&self) -> Map<Seq<char>, Seq<char>> {
        table(self.entries@)
    }
}

impl DeepView for TaxonomyIndex {
    type V = Map<Seq<char>, Seq<char>>;

    open spec fn deep_view(&self) -> Map<Seq<char>, Seq<char>> {
        self@
    }
}

impl TaxonomyIndex {
    #[verifier::type_invariant]
    spec fn filed_by_class(&self) -> bool {
        forall|i: int|
            0 <= i < self.entries.len() ==> is_label(#[trigger] self.entries[i].value@)
                && class_key(self.entries[i].value@) == self.entries[i].key@
    }

    /// An index without taxa.
    pub fn new() -> (r: Self)
        ensures
            r@ == Map::<Seq<char>, Seq<char>>::empty(),
    {
        let r = TaxonomyIndex { entries: Vec::new() };
        assert(r@ =~= Map::<Seq<char>, Seq<char>>::empty());
        r
    }

    /// Files a label under its full class string, in place of what was there.
    /// A text that is no label is reported and leaves the index as it was.
    pub fn insert(&mut self, label: &str) -> (r: Result<(), Error>)
        ensures
            match r {
                Ok(_) => is_label(label@) && final(self)@ == old(self)@.insert(
                    class_key(label@),
                    label@,
                ),
                Err(e) => !is_label(label@) && e@ == invalid_label(label@) && final(self)@ == old(
                    self,
                )@,
            },
    {
        proof {
            use_type_invariant(&*self);
        }
        let key = match get_full_class_string(label) {
            Ok(key) => key,
            Err(e) => {
                return Err(e);
            },
        };
        let mut entries: Vec<Entry<String>> = Vec::new();
        std::mem::swap(&mut self.entries, &mut entries);
        let ghost before = entries@;
        match position(&entries, key.as_str()) {
            Some(i) => {
                entries[i].value = label.to_owned();
                proof {
                    lemma_table_update(before, entries@, i as int);
                }
            },
            None => {
                let entry = Entry { key, value: label.to_owned() };
                entries.push(entry);
                proof {
                    lemma_table_push(before, entry);
                }
            },
        }
        self.entries = entries;
        Ok(())
    }

    /// Builds the index from the lines of a taxonomy list, as `index_of`
    /// defines it.
    pub fn from_labels(labels: &Vec<String>) -> (r: Result<Self, Error>)
        ensures
            outcome(r) == index_of(labels.deep_view()),
    {
        let mut index = TaxonomyIndex::new();
        let mut i: usize = 0;
        let ghost all = labels.deep_view();
        assert(all.take(0) == Seq::<Seq<char>>::empty());
        while i < labels.len()
            invariant
                i <= labels.len(),
                all == labels.deep_view(),
                index_of(all.take(i as int)) == Ok::<Map<Seq<char>, Seq<char>>, ErrorView>(index@),
            decreases labels.len() - i,
        {
            let label = labels[i].as_str();
            proof {
                let upto = all.take(i as int + 1);
                assert(upto.drop_last() == all.take(i as int));
                assert(upto.last() == label@);
            }
            if !(text_eq(label, BLANK) || text_eq(label, VEHICLE) || text_eq(label, UNKNOWN)) {
                match index.insert(label) {
                    Ok(_) => {},
                    Err(e) => {
                        proof {
                            lemma_index_of_fails(all, i as int + 1);
                        }
                        return Err(e);
                    },
                }
            }
            i = i + 1;
        }
        assert(all.take(i as int) == all);
        Ok(index)
    }

    /// The label filed under a key.
    pub fn get(&self, key: &str) -> (r: Option<&String>)
        ensures
            match r {
                Some(label) => self@.dom().contains(key@) && self@[key@] == label@ && is_label(
                    label@,
                ) && class_key(label@) == key@,
                None => !self@.dom().contains(key@),
            },
    {
        proof {
            use_type_invariant(self);
        }
        match position(&self.entries, key) {
            Some(i) => Some(&self.entries[i].value),
            None => None,
        }
    }
}

/// A build that fails on the first `n` labels fails in the same way on all of
/// them.
pub proof fn lemma_index_of_fails(labels: Seq<Seq<char>>, n: int)
    requires
        0 <= n <= labels.len(),
        index_of(labels.take(n)) is Err,
    ensures
        index_of(labels) == index_of(labels.take(n)),
    decreases labels.len(),
{
    if n < labels.len() {
        let init = labels.drop_last();
        assert(init.take(n) == labels.take(n));
        lemma_index_of_fails(init, n);
    } else {
        assert(labels.take(n) == labels);
    }
}

/// Finds the taxon that is the ancestor of a label at a level.
///
/// The ancestor at family level of `id;class;order;family;genus;species;name`
/// is the taxon filed under `class;order;family;;`.
pub fn get_ancestor_at_level(label: &str, taxonomy_level: &str, taxonomy_map: &TaxonomyIndex) -> (r:
    Result<Option<String>, Error>)
    ensures
        outcome(r) == ancestor_at_level(label@, taxonomy_level@, taxonomy_map@),
        r matches Ok(Some(taxon)) ==> is_label(taxon@),
{
    let fields = split_text(label, ';');
    if fields.len() != 7 {
        return Err(Error::InvalidLabel(decimal_text(fields.len()), label.to_owned()));
    }
    match TaxonomyLevel::parse(taxonomy_level) {
        None => Err(Error::InvalidTaxonomyLevel(taxonomy_level.to_owned())),
        Some(level) => Ok(ancestor_of_fields(label, &fields, level, taxonomy_map)),
    }
}

/// The ancestor of a label whose fields are at hand.
pub(crate) fn ancestor_of_fields(
    label: &str,
    fields: &Vec<String>,
    level: TaxonomyLevel,
    taxonomy_map: &TaxonomyIndex,
) -> (r: Option<String>)
    requires
        fields.deep_view() == label_fields(label@),
        is_label(label@),
    ensures
        r.deep_view() == ancestor(label@, level, taxonomy_map@),
        r matches Some(found) ==> is_label(found@),
{
    let depth = level.kept_fields();
    let placed = if depth == 0 {
        !fields[1].as_str().is_empty() || text_eq(label, ANIMAL)
    } else {
        !fields[depth].as_str().is_empty()
    };
    if !placed {
        return None;
    }
    let key = middle_key(fields, depth);
    match taxonomy_map.get(key.as_str()) {
        Some(found) => Some(found.clone()),
        None => None,
    }
}

/// The key of the kingdom: five empty fields.
pub open spec fn kingdom_key() -> Seq<char> {
    level_key(Seq::empty(), 0)
}

/// The key that a key of the table has at a depth: its first `depth` fields,
/// then empty fields up to five.
pub open spec fn key_ancestor(key: Seq<char>, depth: nat) -> Seq<char> {
    level_key(split(key, ';'), depth)
}

/// Whether a key of the table is placed at a depth: whether its field of that
/// depth is filled. Every key is placed at depth 0, the kingdom.
pub open spec fn key_has_rank(key: Seq<char>, depth: nat) -> bool {
    depth == 0 || split(key, ';')[depth - 1].len() > 0
}

/// Whether a table is complete: whether, with a taxon, it holds that taxon's
/// ancestor at every depth at which the taxon is placed.
pub open spec fn complete(taxa: Map<Seq<char>, Seq<char>>) -> bool {
    forall|key: Seq<char>, depth: nat|
        taxa.dom().contains(key) && depth <= 5 && key_has_rank(key, depth)
            ==> taxa.dom().contains(#[trigger] key_ancestor(key, depth))
}

/// Every level is read back from its name.
pub proof fn lemma_level_names(level: TaxonomyLevel)
    ensures
        TaxonomyLevel::from_name(level.name()) == Some(level),
{
    reveal_strlit("species");
    reveal_strlit("genus");
    reveal_strlit("family");
    reveal_strlit("order");
    reveal_strlit("class");
    reveal_strlit("kingdom");
    assert("species"@.len() == 7 && "species"@[0] == 's');
    assert("genus"@.len() == 5 && "genus"@[0] == 'g');
    assert("family"@.len() == 6);
    assert("order"@.len() == 5 && "order"@[0] == 'o');
    assert("class"@.len() == 5 && "class"@[0] == 'c');
    assert("kingdom"@.len() == 7 && "kingdom"@[0] == 'k');
}

/// The key of the kingdom is written with four semicolons.
pub proof fn lemma_kingdom_key_text()
    ensures
        kingdom_key() == ";;;;"@,
{
    reveal_strlit(";;;;");
    let blanks = Seq::new(5, |i: int| Seq::<char>::empty());
    assert(Seq::<Seq<char>>::empty().take(0) + blanks =~= blanks);
    let sep = seq![';'];
    assert(blanks.drop_last().drop_last().drop_last().drop_last() =~= seq![Seq::<char>::empty()]);
    assert(join(blanks.drop_last().drop_last().drop_last().drop_last(), sep) =~= Seq::<char>::empty());
    assert(join(blanks.drop_last().drop_last().drop_last(), sep) =~= seq![';']);
    assert(join(blanks.drop_last().drop_last(), sep) =~= seq![';', ';']);
    assert(join(blanks.drop_last(), sep) =~= seq![';', ';', ';']);
    assert(join(blanks, sep) =~= seq![';', ';', ';', ';']);
    assert(";;;;"@ =~= seq![';', ';', ';', ';']);
}

/// At the kingdom every label is looked up under the same key.
pub proof fn lemma_kingdom_key(label: Seq<char>)
    ensures
        ancestor_key(label, TaxonomyLevel::Kingdom) == kingdom_key(),
{
    let middle = label_fields(label).subrange(1, 6);
    assert(middle.take(0) =~= Seq::<Seq<char>>::empty().take(0));
}

/// In a table that holds the kingdom, a label has no ancestor at the kingdom
/// exactly when its class is empty and it is not the label of the animal that
/// could not be placed.
pub proof fn lemma_kingdom_ancestor(label: Seq<char>, taxa: Map<Seq<char>, Seq<char>>)
    requires
        is_label(label),
        taxa.dom().contains(kingdom_key()),
    ensures
        ancestor_at_level(label, "kingdom"@, taxa) == Ok::<Option<Seq<char>>, ErrorView>(None) <==> (
        label_fields(label)[1].len() == 0 && label != ANIMAL@),
{
    lemma_level_names(TaxonomyLevel::Kingdom);
    lemma_kingdom_key(label);
}

/// In a complete table, a label that has an ancestor at a level has one at
/// every coarser level at which it is placed: a genus implies a family, a
/// family an order, an order a class and a class a kingdom.
pub proof fn lemma_ancestors_are_monotonic(
    label: Seq<char>,
    fine: TaxonomyLevel,
    coarse: TaxonomyLevel,
    taxa: Map<Seq<char>, Seq<char>>,
)
    requires
        is_label(label),
        complete(taxa),
        coarse.depth() < fine.depth(),
        ancestor(label, fine, taxa) is Some,
        has_rank(label, coarse),
    ensures
        ancestor(label, coarse, taxa) is Some,
{
    let fields = label_fields(label);
    let middle = fields.subrange(1, 6);
    let kept = fine.depth();
    let wanted = coarse.depth();
    let blanks = Seq::new((5 - kept) as nat, |i: int| Seq::<char>::empty());
    let parts = middle.take(kept as int) + blanks;
    let key = ancestor_key(label, fine);
    assert(key == join(parts, seq![';']));
    lemma_split_pieces(label, ';');
    assert forall|k: int| 0 <= k < parts.len() implies !(#[trigger] parts[k]).contains(';') by {
        if k < kept {
            assert(parts[k] == fields[k + 1]);
        } else {
            assert(parts[k] == Seq::<char>::empty());
        }
    }
    lemma_split_join(parts, ';');
    assert(split(key, ';') == parts);
    assert(parts.take(wanted as int) =~= middle.take(wanted as int));
    assert(key_ancestor(key, wanted) == ancestor_key(label, coarse));
    if wanted > 0 {
        assert(parts[wanted - 1] == fields[wanted as int]);
    }
    assert(key_has_rank(key, wanted));
    assert(taxa.dom().contains(key));
}

} // verus!
