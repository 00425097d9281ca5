//! Ranking candidates by score: the highest score first and, among equal
//! scores, the candidate that came first.

use vstd::prelude::*;
use vstd::string::*;
use crate::classifier::classification::Classification;

verus! {

/// Whether the candidate at position `i` ranks before the one at position
/// `j`.
pub open spec fn ranks_before(scores: Seq<u64>, i: int, j: int) -> bool {
    scores[i] > scores[j] || (scores[i] == scores[j] && i < j)
}

/// Whether `picked` lists the positions of the best `n` of the first `upto`
/// candidates, best first: all of them where there are no more than `n`.
/// Every position that is listed ranks before every position that is not.
pub open spec fn is_top(scores: Seq<u64>, upto: int, n: nat, picked: Seq<usize>) -> bool {
    &&& picked.len() == (if n <= upto {
        n as int
    } else {
        upto
    })
    &&& forall|a: int| 0 <= a < picked.len() ==> 0 <= #[trigger] picked[a] < upto
    &&& forall|a: int, b: int|
        0 <= a < b < picked.len() ==> ranks_before(
            scores,
            #[trigger] picked[a] as int,
            #[trigger] picked[b] as int,
        )
    &&& forall|j: usize, a: int|
        j < upto && 0 <= a < picked.len() && !picked.contains(j) ==> #[trigger] ranks_before(
            scores,
            picked[a] as int,
            j as int,
        )
}

/// While there are no more candidates than places, every candidate is listed.
spec fn lists_all(upto: int, n: nat, picked: Seq<usize>) -> bool {
    upto <= n ==> forall|j: usize| j < upto ==> #[trigger] picked.contains(j)
}

/// The list after the candidate at position `i` has taken the place `at`: the
/// last of the list leaves where the list would grow beyond `n`.
spec fn placed(picked: Seq<usize>, at: int, i: usize, n: nat) -> Seq<usize> {
    let grown = picked.insert(at, i);
    if grown.len() > n {
        grown.drop_last()
    } else {
        grown
    }
}

/// Placing the next candidate behind those with a score no lower, and before
/// those with a lower score, keeps the list the list of the best.
proof fn lemma_placed(scores: Seq<u64>, i: usize, n: nat, picked: Seq<usize>, at: int)
    requires
        i < scores.len(),
        is_top(scores, i as int, n, picked),
        lists_all(i as int, n, picked),
        0 <= at <= picked.len(),
        at < n,
        forall|a: int| 0 <= a < at ==> scores[#[trigger] picked[a] as int] >= scores[i as int],
        at < picked.len() ==> scores[picked[at] as int] < scores[i as int],
    ensures
        is_top(scores, i + 1, n, placed(picked, at, i, n)),
        lists_all(i + 1, n, placed(picked, at, i, n)),
{
    let grown = picked.insert(at, i);
    let after = placed(picked, at, i, n);
    assert forall|a: int| 0 <= a < grown.len() implies 0 <= #[trigger] grown[a] < i + 1 by {
        if a < at {
            assert(grown[a] == picked[a]);
        } else if a > at {
            assert(grown[a] == picked[a - 1]);
        }
    }
    assert forall|a: int, b: int| 0 <= a < b < grown.len() implies ranks_before(
        scores,
        #[trigger] grown[a] as int,
        #[trigger] grown[b] as int,
    ) by {
        if b < at {
            assert(grown[a] == picked[a] && grown[b] == picked[b]);
        } else if b == at {
            assert(grown[a] == picked[a]);
        } else if a < at {
            assert(grown[a] == picked[a] && grown[b] == picked[b - 1]);
        } else if a == at {
            assert(grown[b] == picked[b - 1]);
            if b - 1 > at {
                assert(ranks_before(scores, picked[at] as int, picked[b - 1] as int));
            }
        } else {
            assert(grown[a] == picked[a - 1] && grown[b] == picked[b - 1]);
        }
    }
    assert forall|j: usize| j < i && picked.contains(j) implies #[trigger] grown.contains(j) by {
        let a = choose|a: int| 0 <= a < picked.len() && picked[a] == j;
        if a < at {
            assert(grown[a] == j);
        } else {
            assert(grown[a + 1] == j);
        }
    }
    assert(grown[at] == i);
    assert forall|j: usize, a: int|
        j < i + 1 && 0 <= a < grown.len() && !grown.contains(j) implies #[trigger] ranks_before(
        scores,
        grown[a] as int,
        j as int,
    ) by {
        assert(j != i);
        assert(!picked.contains(j));
        if i as int <= n {
            assert(picked.contains(j));
        }
        assert(picked.len() == n);
        if at < picked.len() {
            assert(ranks_before(scores, picked[at] as int, j as int));
        }
        if a < at {
            assert(grown[a] == picked[a]);
            assert(ranks_before(scores, picked[a] as int, j as int));
        } else if a > at {
            assert(grown[a] == picked[a - 1]);
            assert(ranks_before(scores, picked[a - 1] as int, j as int));
        }
    }
    if grown.len() > n {
        let gone = grown.last();
        assert(after == grown.drop_last());
        assert forall|j: usize, a: int|
            j < i + 1 && 0 <= a < after.len() && !after.contains(j) implies #[trigger] ranks_before(
            scores,
            after[a] as int,
            j as int,
        ) by {
            assert(after[a] == grown[a]);
            if grown.contains(j) {
                let b = choose|b: int| 0 <= b < grown.len() && grown[b] == j;
                if b < after.len() {
                    assert(after[b] == j);
                }
                assert(b == grown.len() - 1);
                assert(ranks_before(scores, grown[a] as int, grown[b] as int));
            } else {
                assert(ranks_before(scores, grown[a] as int, j as int));
            }
        }
        assert forall|a: int, b: int| 0 <= a < b < after.len() implies ranks_before(
            scores,
            #[trigger] after[a] as int,
            #[trigger] after[b] as int,
        ) by {
            assert(after[a] == grown[a] && after[b] == grown[b]);
        }
        assert forall|a: int| 0 <= a < after.len() implies 0 <= #[trigger] after[a] < i + 1 by {
            assert(after[a] == grown[a]);
        }
    } else {
        if i + 1 <= n {
            assert forall|j: usize| j < i + 1 implies #[trigger] grown.contains(j) by {
                if j < i {
                    assert(picked.contains(j));
                }
            }
        }
    }
}

/// Leaving the next candidate out, when the list is full and none of the
/// listed has a lower score, keeps the list the list of the best.
proof fn lemma_passed(scores: Seq<u64>, i: usize, n: nat, picked: Seq<usize>)
    requires
        i < scores.len(),
        is_top(scores, i as int, n, picked),
        picked.len() == n,
        forall|a: int|
            0 <= a < picked.len() ==> scores[#[trigger] picked[a] as int] >= scores[i as int],
    ensures
        is_top(scores, i + 1, n, picked),
        lists_all(i + 1, n, picked),
{
    assert forall|j: usize, a: int|
        j < i + 1 && 0 <= a < picked.len() && !picked.contains(j) implies #[trigger] ranks_before(
        scores,
        picked[a] as int,
        j as int,
    ) by {
        if j == i {
            assert(scores[picked[a] as int] >= scores[i as int]);
        }
    }
}

/// Two lists of the best agree at a position up to which they agree.
proof fn lemma_top_agrees_at(
    scores: Seq<u64>,
    upto: int,
    n: nat,
    one: Seq<usize>,
    other: Seq<usize>,
    at: int,
)
    requires
        is_top(scores, upto, n, one),
        is_top(scores, upto, n, other),
        0 <= at < one.len(),
        forall|b: int| 0 <= b < at ==> one[b] == other[b],
    ensures
        ranks_before(scores, other[at] as int, one[at] as int) || one[at] == other[at],
{
    if one[at] != other[at] {
        if other.contains(one[at]) {
            let c = choose|c: int| 0 <= c < other.len() && other[c] == one[at];
            if c < at {
                assert(one[c] == one[at]);
                assert(ranks_before(scores, one[c] as int, one[at] as int));
            }
            assert(ranks_before(scores, other[at] as int, other[c] as int));
        } else {
            assert(ranks_before(scores, other[at] as int, one[at] as int));
        }
    }
}

/// Two lists of the best agree on their first `k` positions.
proof fn lemma_top_agrees(
    scores: Seq<u64>,
    upto: int,
    n: nat,
    one: Seq<usize>,
    other: Seq<usize>,
    k: int,
)
    requires
        is_top(scores, upto, n, one),
        is_top(scores, upto, n, other),
        0 <= k <= one.len(),
    ensures
        forall|b: int| 0 <= b < k ==> one[b] == other[b],
    decreases k,
{
    if k > 0 {
        lemma_top_agrees(scores, upto, n, one, other, k - 1);
        lemma_top_agrees_at(scores, upto, n, one, other, k - 1);
        lemma_top_agrees_at(scores, upto, n, other, one, k - 1);
    }
}

/// There is one list of the best and no other: what `is_top` says of a list
/// leaves nothing open, not even among candidates with equal scores.
pub proof fn lemma_top_is_unique(
    scores: Seq<u64>,
    upto: int,
    n: nat,
    one: Seq<usize>,
    other: Seq<usize>,
)
    requires
        is_top(scores, upto, n, one),
        is_top(scores, upto, n, other),
    ensures
        one == other,
{
    lemma_top_agrees(scores, upto, n, one, other, one.len() as int);
    assert(one =~= other);
}

/// The positions of the best `n` candidates, best first.
pub fn top_positions(scores: &[u64], n: usize) -> (picked: Vec<usize>)
    ensures
        is_top(scores@, scores.len() as int, n as nat, picked@),
{
    let mut picked: Vec<usize> = Vec::new();
    let mut i: usize = 0;
    while i < scores.len()
        invariant
            i <= scores.len(),
            is_top(scores@, i as int, n as nat, picked@),
            lists_all(i as int, n as nat, picked@),
        decreases scores.len() - i,
    {
        let mut at: usize = 0;
        while at < picked.len() && scores[picked[at]] >= scores[i]
            invariant
                at <= picked.len(),
                i < scores.len(),
                is_top(scores@, i as int, n as nat, picked@),
                forall|a: int| 0 <= a < at ==> scores[#[trigger] picked[a] as int] >= scores[i as int],
            decreases picked.len() - at,
        {
            at = at + 1;
        }
        if at < n {
            proof {
                lemma_placed(scores@, i, n as nat, picked@, at as int);
            }
            picked.insert(at, i);
            if picked.len() > n {
                picked.pop();
            }
        } else {
            proof {
                lemma_passed(scores@, i, n as nat, picked@);
            }
        }
        i = i + 1;
    }
    picked
}

/// The scores of a list of candidates.
pub open spec fn scores_of(candidates: Seq<(Seq<char>, u64)>) -> Seq<u64> {
    Seq::new(candidates.len(), |i: int| candidates[i].1)
}

/// The candidates at the positions listed.
pub open spec fn chosen(candidates: Seq<(Seq<char>, u64)>, picked: Seq<usize>) -> Seq<
    (Seq<char>, u64),
> {
    Seq::new(picked.len(), |a: int| candidates[picked[a] as int])
}

/// The content of a list of candidates.
pub open spec fn contents(candidates: Seq<Classification>) -> Seq<(Seq<char>, u64)> {
    Seq::new(candidates.len(), |i: int| candidates[i]@)
}

/// Whether `best` holds the best `n` of the candidates, best first.
pub open spec fn are_top(
    candidates: Seq<(Seq<char>, u64)>,
    n: nat,
    best: Seq<(Seq<char>, u64)>,
) -> bool {
    exists|picked: Seq<usize>|
        {
            &&& #[trigger] is_top(scores_of(candidates), candidates.len() as int, n, picked)
            &&& best == chosen(candidates, picked)
        }
}

/// Pairs each label with the score at the same position. A label without a
/// score, or a score without a label, is left out.
pub fn map_labels_to_classifications(labels: &[String], classifications: &[u64]) -> (r: Vec<
    Classification,
>)
    ensures
        r.len() == if labels.len() <= classifications.len() {
            labels.len()
        } else {
            classifications.len()
        },
        forall|i: int| 0 <= i < r.len() ==> #[trigger] r[i]@ == (labels[i]@, classifications[i]),
{
    let mut r: Vec<Classification> = Vec::new();
    let mut i: usize = 0;
    while i < labels.len() && i < classifications.len()
        invariant
            i <= labels.len(),
            i <= classifications.len(),
            r.len() == i,
            forall|k: int| 0 <= k < i ==> #[trigger] r[k]@ == (labels[k]@, classifications[k]),
        decreases labels.len() - i,
    {
        r.push(Classification::new(labels[i].clone(), classifications[i]));
        i = i + 1;
    }
    r
}

/// The best `n` of the candidates, best first: the highest score first and,
/// among equal scores, the candidate that came first.
pub fn pick_top_n_from(classifications: Vec<Classification>, n: usize) -> (r: Vec<Classification>)
    ensures
        are_top(contents(classifications@), n as nat, contents(r@)),
{
    let ghost candidates = contents(classifications@);
    let mut scores: Vec<u64> = Vec::new();
    let mut i: usize = 0;
    while i < classifications.len()
        invariant
            i <= classifications.len(),
            scores.len() == i,
            forall|k: int| 0 <= k < i ==> scores[k] == (#[trigger] classifications[k])@.1,
        decreases classifications.len() - i,
    {
        scores.push(*classifications[i].score());
        i = i + 1;
    }
    assert(scores@ =~= scores_of(candidates));
    let picked = top_positions(scores.as_slice(), n);
    let mut best: Vec<Classification> = Vec::new();
    let mut a: usize = 0;
    while a < picked.len()
        invariant
            a <= picked.len(),
            best.len() == a,
            forall|k: int| 0 <= k < picked.len() ==> 0 <= #[trigger] picked[k] < classifications.len(),
            forall|k: int| 0 <= k < a ==> (#[trigger] best[k])@ == classifications[picked[k] as int]@,
        decreases picked.len() - a,
    {
        let chosen = &classifications[picked[a]];
        best.push(Classification::new(chosen.label().clone(), *chosen.score()));
        a = a + 1;
    }
    assert(contents(best@) =~= chosen(candidates, picked@));
    best
}

} // verus!
