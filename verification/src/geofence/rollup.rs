//! Rolling a ranked list of candidates up the taxonomy: at each level the
//! scores of the candidates that share an ancestor are added, and the best
//! ancestor that the place permits is taken if its sum clears a threshold.
//!
//! A score is a fixed-point number: a count of units of which
//! `SCORE_UNITS_PER_ONE` make up the score 1.

use vstd::prelude::*;
use vstd::string::*;
use crate::error::{outcome, Error, ErrorView};
use crate::geofence::evaluate::{geofenced, should_geofence};
use crate::geofence::result::Provenance;
use crate::geofence::rules::{GeofenceRuleStore, RulesView};
use crate::geofence::taxonomy::{
    ancestor, ancestor_of_fields, invalid_label, is_label, label_fields, TaxonomyIndex,
    TaxonomyLevel,
};
use crate::text::{decimal_text, join, join_text, split_text, text_eq};

verus! {

/// The number of units that make up the score 1.
pub const SCORE_UNITS_PER_ONE: u64 = 10_000_000_000;

/// The sum of the first `n` scores.
pub open spec fn total_score(scores: Seq<u64>, n: int) -> int
    decreases n,
{
    if n <= 0 {
        0
    } else {
        total_score(scores, n - 1) + scores[n - 1]
    }
}

/// The sum of those of the first `n` scores whose candidate has `taxon` as its
/// ancestor.
pub open spec fn share(
    ancestors: Seq<Option<Seq<char>>>,
    scores: Seq<u64>,
    taxon: Seq<char>,
    n: int,
) -> int
    decreases n,
{
    if n <= 0 {
        0
    } else {
        share(ancestors, scores, taxon, n - 1) + if ancestors[n - 1] == Some(taxon) {
            scores[n - 1] as int
        } else {
            0
        }
    }
}

/// A share is never negative and never more than the sum of all scores.
pub proof fn lemma_share_bounds(
    ancestors: Seq<Option<Seq<char>>>,
    scores: Seq<u64>,
    taxon: Seq<char>,
    n: int,
    m: int,
)
    requires
        n <= m,
    ensures
        0 <= share(ancestors, scores, taxon, n) <= total_score(scores, n) <= total_score(scores, m),
    decreases m,
{
    if m <= 0 {
    } else if n < m {
        lemma_share_bounds(ancestors, scores, taxon, n, m - 1);
    } else {
        lemma_share_bounds(ancestors, scores, taxon, n - 1, n - 1);
    }
}

/// The first of the first `n` texts that is no label.
pub open spec fn first_malformed(labels: Seq<Seq<char>>, n: int) -> Option<int>
    decreases n,
{
    if n <= 0 {
        None
    } else {
        match first_malformed(labels, n - 1) {
            Some(i) => Some(i),
            None => if is_label(labels[n - 1]) {
                None
            } else {
                Some(n - 1)
            },
        }
    }
}

/// What a rollup reads: the candidates, the place and the two tables.
pub struct Scene {
    pub labels: Seq<Seq<char>>,
    pub scores: Seq<u64>,
    pub country: Option<Seq<char>>,
    pub admin1_region: Option<Seq<char>>,
    pub taxa: Map<Seq<char>, Seq<char>>,
    pub rules: Map<Seq<char>, RulesView>,
    pub geofence: bool,
}

/// The scene made of the given parts.
pub open spec fn scene_of(
    labels: Seq<Seq<char>>,
    scores: Seq<u64>,
    country: Option<Seq<char>>,
    admin1_region: Option<Seq<char>>,
    taxa: Map<Seq<char>, Seq<char>>,
    rules: Map<Seq<char>, RulesView>,
    geofence: bool,
) -> Scene {
    Scene { labels, scores, country, admin1_region, taxa, rules, geofence }
}

impl Scene {
    /// The number of candidates: a label without a score, or a score without a
    /// label, is no candidate.
    pub open spec fn count(self) -> int {
        if self.labels.len() <= self.scores.len() {
            self.labels.len() as int
        } else {
            self.scores.len() as int
        }
    }

    /// Whether the scores of the candidates can be added in 64 bits.
    pub open spec fn fits(self) -> bool {
        total_score(self.scores, self.count()) <= u64::MAX
    }

    /// The first candidate whose label is no label.
    pub open spec fn malformed(self) -> Option<int> {
        first_malformed(self.labels, self.count())
    }

    /// The ancestor of each candidate at a level.
    pub open spec fn ancestors(self, level: TaxonomyLevel) -> Seq<Option<Seq<char>>> {
        Seq::new(self.count() as nat, |i: int| ancestor(self.labels[i], level, self.taxa))
    }

    /// The score that a taxon gathers at a level: the sum of the scores of the
    /// candidates of which it is the ancestor.
    pub open spec fn rolled(self, level: TaxonomyLevel, taxon: Seq<char>) -> int {
        share(self.ancestors(level), self.scores, taxon, self.count())
    }

    /// Whether the place permits a taxon.
    pub open spec fn permitted(self, taxon: Seq<char>) -> bool {
        geofenced(taxon, self.country, self.admin1_region, self.rules, self.geofence) == Ok::<
            bool,
            ErrorView,
        >(false)
    }

    /// The score gathered by the ancestor of candidate `lead`, or 0 where
    /// there is no such candidate.
    pub open spec fn lead_score(self, level: TaxonomyLevel, lead: Option<int>) -> int {
        match lead {
            Some(i) => self.rolled(level, self.ancestors(level)[i]->0),
            None => 0,
        }
    }

    /// The candidate whose ancestor leads among the first `n`: candidates are
    /// taken in order, and one takes the lead if its ancestor is permitted and
    /// has gathered more than the ancestor in the lead, or more than 0 while
    /// nobody leads. So among permitted ancestors with the highest score the
    /// one that occurs first leads.
    pub open spec fn leader(self, level: TaxonomyLevel, n: int) -> Option<int>
        decreases n,
    {
        if n <= 0 {
            None
        } else {
            let before = self.leader(level, n - 1);
            match self.ancestors(level)[n - 1] {
                Some(taxon) => if self.rolled(level, taxon) > self.lead_score(level, before)
                    && self.permitted(taxon) {
                    Some(n - 1)
                } else {
                    before
                },
                None => before,
            }
        }
    }

    /// The rollup at one level: the leading ancestor with its score, if the
    /// score is above the threshold.
    pub open spec fn rollup_at(self, level: TaxonomyLevel, threshold: u64) -> Option<
        (Seq<char>, u64),
    > {
        let lead = self.leader(level, self.count());
        if lead is Some && self.lead_score(level, lead) > threshold {
            Some((self.ancestors(level)[lead->0]->0, self.lead_score(level, lead) as u64))
        } else {
            None
        }
    }

    /// The first rollup that succeeds, trying the levels from position `from`
    /// on in the order given.
    pub open spec fn rollup_from(self, levels: Seq<TaxonomyLevel>, threshold: u64, from: int)
        -> Option<(Seq<char>, u64, TaxonomyLevel)>
        decreases levels.len() - from,
    {
        if from < 0 || from >= levels.len() {
            None
        } else {
            match self.rollup_at(levels[from], threshold) {
                Some((taxon, score)) => Some((taxon, score, levels[from])),
                None => self.rollup_from(levels, threshold, from + 1),
            }
        }
    }

    /// The rollup over a list of levels. Without levels there is nothing to
    /// do. Otherwise a candidate whose label is no label fails the rollup,
    /// the first of them being reported.
    pub open spec fn rollup(self, levels: Seq<TaxonomyLevel>, threshold: u64) -> Result<
        Option<(Seq<char>, u64, TaxonomyLevel)>,
        ErrorView,
    > {
        if levels.len() == 0 {
            Ok(None)
        } else {
            match self.malformed() {
                Some(i) => Err(invalid_label(self.labels[i])),
                None => Ok(self.rollup_from(levels, threshold, 0)),
            }
        }
    }
}

/// The candidate that leads among the first `n` has a permitted ancestor
/// with a score above 0, and no permitted ancestor of any of them has a
/// higher score. Where nobody leads, no permitted ancestor has a score above
/// 0.
pub proof fn lemma_leader_is_best(scene: Scene, level: TaxonomyLevel, n: int)
    requires
        0 <= n <= scene.count(),
    ensures
        match scene.leader(level, n) {
            Some(i) => 0 <= i < n && scene.ancestors(level)[i] is Some && scene.permitted(
                scene.ancestors(level)[i]->0,
            ) && scene.lead_score(level, Some(i)) > 0,
            None => true,
        },
        forall|j: int|
            0 <= j < n && (#[trigger] scene.ancestors(level)[j]) is Some && scene.permitted(
                scene.ancestors(level)[j]->0,
            ) ==> scene.rolled(level, scene.ancestors(level)[j]->0) <= scene.lead_score(
                level,
                scene.leader(level, n),
            ),
    decreases n,
{
    if n > 0 {
        lemma_leader_is_best(scene, level, n - 1);
    }
}

/// A rollup that succeeds at a level gives a permitted ancestor of a
/// candidate, with the score that the ancestor gathers; that score is above
/// the threshold, and no permitted ancestor of a candidate gathers more.
pub proof fn lemma_rollup_is_best(scene: Scene, level: TaxonomyLevel, threshold: u64)
    requires
        scene.fits(),
        scene.rollup_at(level, threshold) is Some,
    ensures
        ({
            let (taxon, score) = scene.rollup_at(level, threshold)->0;
            &&& scene.permitted(taxon)
            &&& score == scene.rolled(level, taxon)
            &&& score > threshold
            &&& exists|i: int|
                0 <= i < scene.count() && #[trigger] scene.ancestors(level)[i] == Some(taxon)
            &&& forall|j: int|
                0 <= j < scene.count() && (#[trigger] scene.ancestors(level)[j]) is Some
                    && scene.permitted(scene.ancestors(level)[j]->0) ==> scene.rolled(
                    level,
                    scene.ancestors(level)[j]->0,
                ) <= score
        }),
{
    lemma_leader_is_best(scene, level, scene.count());
    let lead = scene.leader(level, scene.count())->0;
    let taxon = scene.ancestors(level)[lead]->0;
    lemma_share_bounds(scene.ancestors(level), scene.scores, taxon, scene.count(), scene.count());
    assert(scene.ancestors(level)[lead] == Some(taxon));
}

/// Adds the scores of the candidates whose ancestor is `taxon`.
fn rolled_total(ancestors: &Vec<Option<String>>, scores: &[u64], n: usize, taxon: &str) -> (r: u64)
    requires
        n <= ancestors.len(),
        n <= scores.len(),
        total_score(scores@, n as int) <= u64::MAX,
    ensures
        r == share(ancestors.deep_view(), scores@, taxon@, n as int),
{
    let mut sum: u64 = 0;
    let mut j: usize = 0;
    while j < n
        invariant
            j <= n,
            n <= ancestors.len(),
            n <= scores.len(),
            total_score(scores@, n as int) <= u64::MAX,
            sum == share(ancestors.deep_view(), scores@, taxon@, j as int),
        decreases n - j,
    {
        proof {
            lemma_share_bounds(ancestors.deep_view(), scores@, taxon@, j as int + 1, n as int);
        }
        let same = match &ancestors[j] {
            Some(found) => text_eq(found.as_str(), taxon),
            None => false,
        };
        assert(same == (ancestors.deep_view()[j as int] == Some(taxon@)));
        if same {
            sum = sum + scores[j];
        }
        j = j + 1;
    }
    sum
}

/// Rolls the candidates up to one level.
fn roll_up_at(
    labels: &[String],
    fields: &Vec<Vec<String>>,
    scores: &[u64],
    level: TaxonomyLevel,
    threshold: u64,
    country: Option<&str>,
    admin1_region: Option<&str>,
    taxonomy_map: &TaxonomyIndex,
    geofence_map: &GeofenceRuleStore,
    enable_geofence: bool,
) -> (r: Option<(String, u64)>)
    requires
        fields.len() <= labels.len(),
        fields.len() <= scores.len(),
        fields.len() == labels.len() || fields.len() == scores.len(),
        forall|i: int|
            0 <= i < fields.len() ==> is_label(#[trigger] labels[i]@) && fields[i].deep_view()
                == label_fields(labels[i]@),
        scene_of(
            labels.deep_view(),
            scores@,
            country.deep_view(),
            admin1_region.deep_view(),
            taxonomy_map@,
            geofence_map@,
            enable_geofence,
        ).fits(),
    ensures
        r.deep_view() == scene_of(
            labels.deep_view(),
            scores@,
            country.deep_view(),
            admin1_region.deep_view(),
            taxonomy_map@,
            geofence_map@,
            enable_geofence,
        ).rollup_at(level, threshold),
{
    let ghost scene = scene_of(
        labels.deep_view(),
        scores@,
        country.deep_view(),
        admin1_region.deep_view(),
        taxonomy_map@,
        geofence_map@,
        enable_geofence,
    );
    let n = fields.len();
    assert(n == scene.count());
    let mut ancestors: Vec<Option<String>> = Vec::new();
    let mut i: usize = 0;
    while i < n
        invariant
            i <= n,
            n == fields.len(),
            n == scene.count(),
            n <= labels.len(),
            scene.labels == labels.deep_view(),
            scene.taxa == taxonomy_map@,
            forall|k: int|
                0 <= k < fields.len() ==> is_label(#[trigger] labels[k]@) && fields[k].deep_view()
                    == label_fields(labels[k]@),
            ancestors.len() == i,
            forall|k: int|
                0 <= k < i ==> #[trigger] ancestors[k].deep_view() == scene.ancestors(level)[k],
            forall|k: int|
                0 <= k < i ==> (#[trigger] ancestors[k] matches Some(found) ==> is_label(found@)),
        decreases n - i,
    {
        assert(is_label(labels[i as int]@));
        let found = ancestor_of_fields(labels[i].as_str(), &fields[i], level, taxonomy_map);
        assert(scene.labels[i as int] == labels[i as int]@);
        ancestors.push(found);
        i = i + 1;
    }
    assert(ancestors.deep_view() =~= scene.ancestors(level));
    let mut lead: Option<usize> = None;
    let mut lead_score: u64 = 0;
    i = 0;
    while i < n
        invariant
            i <= n,
            n == scene.count(),
            n <= scores.len(),
            scene.fits(),
            scene.scores == scores@,
            scene == scene_of(
                labels.deep_view(),
                scores@,
                country.deep_view(),
                admin1_region.deep_view(),
                taxonomy_map@,
                geofence_map@,
                enable_geofence,
            ),
            ancestors.len() == n,
            ancestors.deep_view() == scene.ancestors(level),
            forall|k: int|
                0 <= k < n ==> (#[trigger] ancestors[k] matches Some(found) ==> is_label(found@)),
            match lead {
                Some(b) => b < i && scene.leader(level, i as int) == Some(b as int)
                    && ancestors[b as int] is Some,
                None => scene.leader(level, i as int) is None,
            },
            lead_score == scene.lead_score(level, scene.leader(level, i as int)),
        decreases n - i,
    {
        assert(ancestors.deep_view()[i as int] == ancestors[i as int].deep_view());
        match &ancestors[i] {
            Some(taxon) => {
                let total = rolled_total(&ancestors, scores, n, taxon.as_str());
                if total > lead_score {
                    match should_geofence(
                        taxon.as_str(),
                        country,
                        admin1_region,
                        geofence_map,
                        enable_geofence,
                    ) {
                        Ok(rejected) => {
                            if !rejected {
                                lead = Some(i);
                                lead_score = total;
                            }
                        },
                        Err(_) => {
                            assert(false);
                        },
                    }
                }
            },
            None => {},
        }
        i = i + 1;
    }
    match lead {
        Some(b) => {
            if lead_score > threshold {
                assert(ancestors.deep_view()[b as int] == ancestors[b as int].deep_view());
                match &ancestors[b] {
                    Some(taxon) => Some((taxon.clone(), lead_score)),
                    None => None,
                }
            } else {
                None
            }
        },
        None => None,
    }
}

/// Splits the label of every candidate, or reports the first that is no
/// label.
fn candidate_fields(labels: &[String], n: usize) -> (r: Result<Vec<Vec<String>>, Error>)
    requires
        n <= labels.len(),
    ensures
        match r {
            Ok(fields) => first_malformed(labels.deep_view(), n as int) is None && fields.len() == n
                && forall|i: int|
                0 <= i < n ==> is_label(#[trigger] labels[i]@) && fields[i].deep_view()
                    == label_fields(labels[i]@),
            Err(e) => first_malformed(labels.deep_view(), n as int) matches Some(i) && e@
                == invalid_label(labels.deep_view()[i]),
        },
{
    let mut fields: Vec<Vec<String>> = Vec::new();
    let mut i: usize = 0;
    while i < n
        invariant
            i <= n,
            n <= labels.len(),
            fields.len() == i,
            first_malformed(labels.deep_view(), i as int) is None,
            forall|k: int|
                0 <= k < i ==> is_label(#[trigger] labels[k]@) && fields[k].deep_view()
                    == label_fields(labels[k]@),
        decreases n - i,
    {
        let parts = split_text(labels[i].as_str(), ';');
        assert(labels.deep_view()[i as int] == labels[i as int]@);
        if parts.len() != 7 {
            proof {
                lemma_first_malformed_stays(labels.deep_view(), i as int + 1, n as int);
            }
            return Err(
                Error::InvalidLabel(decimal_text(parts.len()), labels[i].as_str().to_owned()),
            );
        }
        fields.push(parts);
        i = i + 1;
    }
    Ok(fields)
}

/// Once a text that is no label has been found, looking further finds the
/// same one.
proof fn lemma_first_malformed_stays(labels: Seq<Seq<char>>, n: int, m: int)
    requires
        n <= m,
        first_malformed(labels, n) is Some,
    ensures
        first_malformed(labels, m) == first_malformed(labels, n),
    decreases m - n,
{
    if n < m {
        lemma_first_malformed_stays(labels, n, m - 1);
    }
}

/// Rolls the candidates up to the first of the given levels at which an
/// ancestor that the place permits gathers more than the threshold.
pub fn roll_up_levels(
    labels: &[String],
    scores: &[u64],
    country: Option<&str>,
    admin1_region: Option<&str>,
    levels: &Vec<TaxonomyLevel>,
    threshold: u64,
    taxonomy_map: &TaxonomyIndex,
    geofence_map: &GeofenceRuleStore,
    enable_geofence: bool,
) -> (r: Result<Option<(String, u64, TaxonomyLevel)>, Error>)
    requires
        scene_of(
            labels.deep_view(),
            scores@,
            country.deep_view(),
            admin1_region.deep_view(),
            taxonomy_map@,
            geofence_map@,
            enable_geofence,
        ).fits(),
    ensures
        match r {
            Ok(Some((taxon, score, level))) => scene_of(
                labels.deep_view(),
                scores@,
                country.deep_view(),
                admin1_region.deep_view(),
                taxonomy_map@,
                geofence_map@,
                enable_geofence,
            ).rollup(levels@, threshold) == Ok::<
                Option<(Seq<char>, u64, TaxonomyLevel)>,
                ErrorView,
            >(Some((taxon@, score, level))),
            Ok(None) => scene_of(
                labels.deep_view(),
                scores@,
                country.deep_view(),
                admin1_region.deep_view(),
                taxonomy_map@,
                geofence_map@,
                enable_geofence,
            ).rollup(levels@, threshold) == Ok::<
                Option<(Seq<char>, u64, TaxonomyLevel)>,
                ErrorView,
            >(None),
            Err(e) => scene_of(
                labels.deep_view(),
                scores@,
                country.deep_view(),
                admin1_region.deep_view(),
                taxonomy_map@,
                geofence_map@,
                enable_geofence,
            ).rollup(levels@, threshold) == Err::<
                Option<(Seq<char>, u64, TaxonomyLevel)>,
                ErrorView,
            >(e@),
        },
{
    let ghost scene = scene_of(
        labels.deep_view(),
        scores@,
        country.deep_view(),
        admin1_region.deep_view(),
        taxonomy_map@,
        geofence_map@,
        enable_geofence,
    );
    if levels.len() == 0 {
        return Ok(None);
    }
    let n = if labels.len() <= scores.len() {
        labels.len()
    } else {
        scores.len()
    };
    let fields = match candidate_fields(labels, n) {
        Ok(fields) => fields,
        Err(e) => {
            return Err(e);
        },
    };
    let mut at: usize = 0;
    while at < levels.len()
        invariant
            at <= levels.len(),
            fields.len() == n,
            n <= labels.len(),
            n <= scores.len(),
            n == labels.len() || n == scores.len(),
            forall|i: int|
                0 <= i < n ==> is_label(#[trigger] labels[i]@) && fields[i].deep_view()
                    == label_fields(labels[i]@),
            scene == scene_of(
                labels.deep_view(),
                scores@,
                country.deep_view(),
                admin1_region.deep_view(),
                taxonomy_map@,
                geofence_map@,
                enable_geofence,
            ),
            scene.fits(),
            scene.malformed() is None,
            scene.rollup_from(levels@, threshold, 0) == scene.rollup_from(
                levels@,
                threshold,
                at as int,
            ),
        decreases levels.len() - at,
    {
        let level = levels[at];
        match roll_up_at(
            labels,
            &fields,
            scores,
            level,
            threshold,
            country,
            admin1_region,
            taxonomy_map,
            geofence_map,
            enable_geofence,
        ) {
            Some((taxon, score)) => {
                return Ok(Some((taxon, score, level)));
            },
            None => {},
        }
        at = at + 1;
    }
    Ok(None)
}

/// Those of the names that are not names of levels, in the order given.
pub open spec fn unknown_levels(names: Seq<Seq<char>>) -> Seq<Seq<char>>
    decreases names.len(),
{
    if names.len() == 0 {
        Seq::empty()
    } else if TaxonomyLevel::from_name(names.last()) is None {
        unknown_levels(names.drop_last()).push(names.last())
    } else {
        unknown_levels(names.drop_last())
    }
}

/// The levels that a list of level names stands for.
pub open spec fn levels_of(names: Seq<Seq<char>>) -> Seq<TaxonomyLevel> {
    Seq::new(names.len(), |i: int| TaxonomyLevel::from_name(names[i])->0)
}

/// The failure reported for a list of names that holds unknown ones: it
/// names each of them.
pub open spec fn unexpected_levels(names: Seq<Seq<char>>) -> ErrorView {
    ErrorView::GeofenceInvalidValue(
        "Unexpected target taxonomy level(s): "@ + join(unknown_levels(names), ", "@)
            + ". Expected only from the set: species, genus, family, order, class, kingdom."@,
    )
}

/// The provenance of a rollup to a level, as a tag.
pub open spec fn rollup_source(level: TaxonomyLevel) -> Seq<char> {
    Provenance::Rollup(level).text()
}

/// What `roll_up_labels_to_first_matching_level` returns. A name that is no
/// level name fails the call before anything else is looked at.
pub open spec fn roll_up(scene: Scene, level_names: Seq<Seq<char>>, threshold: u64) -> Result<
    Option<(Seq<char>, u64, Seq<char>)>,
    ErrorView,
> {
    if unknown_levels(level_names).len() > 0 {
        Err(unexpected_levels(level_names))
    } else {
        match scene.rollup(levels_of(level_names), threshold) {
            Err(e) => Err(e),
            Ok(None) => Ok(None),
            Ok(Some((taxon, score, level))) => Ok(Some((taxon, score, rollup_source(level)))),
        }
    }
}

/// The scores, in the order of the candidates, of those of the first `n`
/// candidates whose ancestor is `taxon`.
pub open spec fn scores_under(
    ancestors: Seq<Option<Seq<char>>>,
    scores: Seq<u64>,
    taxon: Seq<char>,
    n: int,
) -> Seq<u64>
    decreases n,
{
    if n <= 0 {
        Seq::empty()
    } else if ancestors[n - 1] == Some(taxon) {
        scores_under(ancestors, scores, taxon, n - 1).push(scores[n - 1])
    } else {
        scores_under(ancestors, scores, taxon, n - 1)
    }
}

/// The sum of a list of scores.
pub open spec fn sum(values: Seq<u64>) -> int
    decreases values.len(),
{
    if values.len() == 0 {
        0
    } else {
        sum(values.drop_last()) + values.last()
    }
}

/// The share of a taxon is the sum of the scores of the candidates of which
/// it is the ancestor: each of them is in the sum once, and no other
/// candidate is in it.
pub proof fn lemma_share_is_sum(
    ancestors: Seq<Option<Seq<char>>>,
    scores: Seq<u64>,
    taxon: Seq<char>,
    n: int,
)
    ensures
        share(ancestors, scores, taxon, n) == sum(scores_under(ancestors, scores, taxon, n)),
    decreases n,
{
    if n > 0 {
        lemma_share_is_sum(ancestors, scores, taxon, n - 1);
        if ancestors[n - 1] == Some(taxon) {
            let before = scores_under(ancestors, scores, taxon, n - 1);
            assert(before.push(scores[n - 1]).drop_last() == before);
        }
    }
}

/// The two lists in which the candidates at the positions `i` and `j` have
/// changed places.
pub open spec fn swapped<T>(list: Seq<T>, i: int, j: int) -> Seq<T> {
    list.update(i, list[j]).update(j, list[i])
}

/// The share of a taxon does not depend on the order of the candidates:
/// where two candidates change places, every share stays what it was.
pub proof fn lemma_share_ignores_order(
    ancestors: Seq<Option<Seq<char>>>,
    scores: Seq<u64>,
    taxon: Seq<char>,
    i: int,
    j: int,
    n: int,
)
    requires
        0 <= i < n,
        0 <= j < n,
        n <= ancestors.len(),
        n <= scores.len(),
    ensures
        share(swapped(ancestors, i, j), swapped(scores, i, j), taxon, n) == share(
            ancestors,
            scores,
            taxon,
            n,
        ),
{
    if i < j {
        lemma_share_swapped(ancestors, scores, taxon, i, j, n);
    } else if j < i {
        lemma_share_swapped(ancestors, scores, taxon, j, i, n);
        assert(swapped(ancestors, i, j) =~= swapped(ancestors, j, i));
        assert(swapped(scores, i, j) =~= swapped(scores, j, i));
    } else {
        assert(swapped(ancestors, i, j) =~= ancestors);
        assert(swapped(scores, i, j) =~= scores);
    }
}

/// The scene in which the candidates at the positions `i` and `j` have
/// changed places.
pub open spec fn reordered(scene: Scene, i: int, j: int) -> Scene {
    Scene {
        labels: swapped(scene.labels, i, j),
        scores: swapped(scene.scores, i, j),
        ..scene
    }
}

/// The score that a taxon gathers at a level does not depend on the order
/// of the candidates: it is the same after two of them have changed places.
pub proof fn lemma_rolled_ignores_order(
    scene: Scene,
    level: TaxonomyLevel,
    taxon: Seq<char>,
    i: int,
    j: int,
)
    requires
        0 <= i < scene.count(),
        0 <= j < scene.count(),
    ensures
        reordered(scene, i, j).count() == scene.count(),
        reordered(scene, i, j).rolled(level, taxon) == scene.rolled(level, taxon),
{
    let other = reordered(scene, i, j);
    assert(other.ancestors(level) =~= swapped(scene.ancestors(level), i, j));
    lemma_share_ignores_order(scene.ancestors(level), scene.scores, taxon, i, j, scene.count());
}

/// What the candidate at position `at` adds to the share of a taxon.
spec fn part(ancestors: Seq<Option<Seq<char>>>, scores: Seq<u64>, taxon: Seq<char>, at: int) -> int {
    if ancestors[at] == Some(taxon) {
        scores[at] as int
    } else {
        0
    }
}

/// After a change of places of the candidates at `i` and `j`, the share over
/// the first `n` candidates differs only while `n` lies between the two.
proof fn lemma_share_swapped(
    ancestors: Seq<Option<Seq<char>>>,
    scores: Seq<u64>,
    taxon: Seq<char>,
    i: int,
    j: int,
    n: int,
)
    requires
        0 <= i < j,
        j < ancestors.len(),
        j < scores.len(),
        0 <= n <= ancestors.len(),
        n <= scores.len(),
    ensures
        share(swapped(ancestors, i, j), swapped(scores, i, j), taxon, n) == share(
            ancestors,
            scores,
            taxon,
            n,
        ) + if i < n <= j {
            part(ancestors, scores, taxon, j) - part(ancestors, scores, taxon, i)
        } else {
            0
        },
    decreases n,
{
    if n > 0 {
        lemma_share_swapped(ancestors, scores, taxon, i, j, n - 1);
    }
}

/// The first rollup that succeeds from a position on is the rollup at one of
/// the levels from that position on.
proof fn lemma_rollup_level(scene: Scene, levels: Seq<TaxonomyLevel>, threshold: u64, from: int)
    requires
        0 <= from,
        scene.rollup_from(levels, threshold, from) is Some,
    ensures
        ({
            let (taxon, score, level) = scene.rollup_from(levels, threshold, from)->0;
            exists|at: int|
                from <= at < levels.len() && #[trigger] levels[at] == level && scene.rollup_at(
                    level,
                    threshold,
                ) == Some((taxon, score))
        }),
    decreases levels.len() - from,
{
    if from < levels.len() {
        match scene.rollup_at(levels[from], threshold) {
            Some(_) => {
                let (taxon, score, level) = scene.rollup_from(levels, threshold, from)->0;
                assert(levels[from] == level);
            },
            None => {
                lemma_rollup_level(scene, levels, threshold, from + 1);
            },
        }
    }
}

/// What a rollup returns: the score is exactly the sum of the scores of the
/// candidates whose ancestor, at the level that the provenance names, is the
/// taxon returned. That level is one of the levels asked for, the taxon is
/// the ancestor of a candidate and is permitted, and the score is above the
/// threshold.
pub proof fn lemma_rollup_score_is_sum(scene: Scene, level_names: Seq<Seq<char>>, threshold: u64)
    requires
        scene.fits(),
        roll_up(scene, level_names, threshold) matches Ok(Some(_)),
    ensures
        ({
            let (taxon, score, source) = roll_up(scene, level_names, threshold)->Ok_0->0;
            exists|at: int|
                {
                    let level = #[trigger] levels_of(level_names)[at];
                    &&& 0 <= at < level_names.len()
                    &&& TaxonomyLevel::from_name(level_names[at]) == Some(level)
                    &&& source == rollup_source(level)
                    &&& score == sum(
                        scores_under(scene.ancestors(level), scene.scores, taxon, scene.count()),
                    )
                    &&& score > threshold
                    &&& scene.permitted(taxon)
                    &&& scene.ancestors(level).contains(Some(taxon))
                }
        }),
{
    let levels = levels_of(level_names);
    lemma_known_levels(level_names);
    let found = scene.rollup(levels, threshold)->Ok_0->0;
    lemma_rollup_level(scene, levels, threshold, 0);
    let at = choose|at: int|
        0 <= at < levels.len() && #[trigger] levels[at] == found.2 && scene.rollup_at(
            found.2,
            threshold,
        ) == Some((found.0, found.1));
    let level = levels[at];
    lemma_rollup_is_best(scene, level, threshold);
    lemma_share_is_sum(scene.ancestors(level), scene.scores, found.0, scene.count());
    let who = choose|who: int|
        0 <= who < scene.count() && #[trigger] scene.ancestors(level)[who] == Some(found.0);
    assert(scene.ancestors(level).contains(Some(found.0)));
}

/// Where no name is unknown, every name is the name of a level.
pub proof fn lemma_known_levels(names: Seq<Seq<char>>)
    requires
        unknown_levels(names).len() == 0,
    ensures
        forall|at: int| 0 <= at < names.len() ==> TaxonomyLevel::from_name(#[trigger] names[at]) is Some,
    decreases names.len(),
{
    if names.len() > 0 {
        let init = names.drop_last();
        if TaxonomyLevel::from_name(names.last()) is None {
            assert(unknown_levels(names).len() == unknown_levels(init).len() + 1);
        }
        lemma_known_levels(init);
        assert forall|at: int| 0 <= at < names.len() implies TaxonomyLevel::from_name(
            #[trigger] names[at],
        ) is Some by {
            if at < init.len() {
                assert(init[at] == names[at]);
            }
        }
    }
}

/// Reads a list of level names, or reports those that are not known.
pub fn parse_levels(names: &Vec<String>) -> (r: Result<Vec<TaxonomyLevel>, Error>)
    ensures
        match r {
            Ok(levels) => unknown_levels(names.deep_view()).len() == 0 && levels@ == levels_of(
                names.deep_view(),
            ),
            Err(e) => unknown_levels(names.deep_view()).len() > 0 && e@ == unexpected_levels(
                names.deep_view(),
            ),
        },
{
    let mut levels: Vec<TaxonomyLevel> = Vec::new();
    let mut unknown: Vec<String> = Vec::new();
    let mut i: usize = 0;
    let ghost all = names.deep_view();
    assert(all.take(0) == Seq::<Seq<char>>::empty());
    assert(unknown.deep_view() == Seq::<Seq<char>>::empty());
    while i < names.len()
        invariant
            i <= names.len(),
            all == names.deep_view(),
            unknown.deep_view() == unknown_levels(all.take(i as int)),
            unknown.len() == 0 ==> levels@ == levels_of(all.take(i as int)),
        decreases names.len() - i,
    {
        proof {
            let upto = all.take(i as int + 1);
            assert(upto.drop_last() == all.take(i as int));
            assert(upto.last() == names[i as int]@);
        }
        let ghost seen = unknown.deep_view();
        match TaxonomyLevel::parse(names[i].as_str()) {
            Some(level) => {
                levels.push(level);
                proof {
                    if unknown.len() == 0 {
                        assert(levels@ =~= levels_of(all.take(i as int + 1)));
                    }
                }
            },
            None => {
                let name = names[i].clone();
                unknown.push(name);
                assert(unknown.deep_view() == seen.push(name@));
            },
        }
        i = i + 1;
    }
    assert(all.take(i as int) == all);
    if unknown.len() > 0 {
        let mut message = "Unexpected target taxonomy level(s): ".to_owned();
        let listed = join_text(&unknown, 0, unknown.len(), ", ");
        assert(unknown.deep_view().subrange(0, unknown.len() as int) == unknown.deep_view());
        message.append(listed.as_str());
        message.append(
            ". Expected only from the set: species, genus, family, order, class, kingdom.",
        );
        Err(Error::GeofenceInvalidValue(message))
    } else {
        Ok(levels)
    }
}

/// Rolls prediction labels up to the first taxonomy level at which an
/// ancestor gathers more than the threshold.
///
/// `labels` and `scores` hold the candidates in rank order. The levels are
/// tried in the order given; each must be one of `species`, `genus`,
/// `family`, `order`, `class` and `kingdom`. The result holds the ancestor,
/// its score and the provenance `classifier+rollup_to_` followed by the level.
pub fn roll_up_labels_to_first_matching_level(
    labels: &[String],
    scores: &[u64],
    country: Option<&str>,
    admin1_region: Option<&str>,
    target_taxonomy_levels: &Vec<String>,
    non_blank_threshold: &u64,
    taxonomy_map: &TaxonomyIndex,
    geofence_map: &GeofenceRuleStore,
    enable_geofence: bool,
) -> (r: Result<Option<(String, u64, String)>, Error>)
    requires
        scene_of(
            labels.deep_view(),
            scores@,
            country.deep_view(),
            admin1_region.deep_view(),
            taxonomy_map@,
            geofence_map@,
            enable_geofence,
        ).fits(),
    ensures
        outcome(r) == roll_up(
            scene_of(
                labels.deep_view(),
                scores@,
                country.deep_view(),
                admin1_region.deep_view(),
                taxonomy_map@,
                geofence_map@,
                enable_geofence,
            ),
            target_taxonomy_levels.deep_view(),
            *non_blank_threshold,
        ),
{
    let levels = match parse_levels(target_taxonomy_levels) {
        Ok(levels) => levels,
        Err(e) => {
            return Err(e);
        },
    };
    match roll_up_levels(
        labels,
        scores,
        country,
        admin1_region,
        &levels,
        *non_blank_threshold,
        taxonomy_map,
        geofence_map,
        enable_geofence,
    ) {
        Ok(Some((taxon, score, level))) => Ok(Some((taxon, score, Provenance::Rollup(level).tag()))),
        Ok(None) => Ok(None),
        Err(e) => Err(e),
    }
}

/// Whether the scores of the candidates can be added in 64 bits: what the
/// rollup asks of its caller.
pub fn scores_fit(labels: &[String], scores: &[u64]) -> (r: bool)
    ensures
        r == (total_score(
            scores@,
            if labels.len() <= scores.len() {
                labels.len() as int
            } else {
                scores.len() as int
            },
        ) <= u64::MAX),
{
    let n = if labels.len() <= scores.len() {
        labels.len()
    } else {
        scores.len()
    };
    let mut sum: u64 = 0;
    let mut i: usize = 0;
    while i < n
        invariant
            i <= n,
            n <= scores.len(),
            n == labels.len() || n == scores.len(),
            n <= labels.len(),
            sum == total_score(scores@, i as int),
        decreases n - i,
    {
        if scores[i] > u64::MAX - sum {
            proof {
                lemma_total_grows(scores@, i as int + 1, n as int);
            }
            return false;
        }
        sum = sum + scores[i];
        i = i + 1;
    }
    true
}

/// The sum of more scores is no less.
pub proof fn lemma_total_grows(scores: Seq<u64>, n: int, m: int)
    requires
        n <= m,
    ensures
        total_score(scores, n) <= total_score(scores, m),
    decreases m - n,
{
    if n < m {
        lemma_total_grows(scores, n, m - 1);
    }
}

} // verus!
