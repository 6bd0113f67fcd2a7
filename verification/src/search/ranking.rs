//! Ranking of hits: by descending score, hits of equal score in the order in
//! which they were found.

use vstd::prelude::*;
use crate::search::{scored_views, ScoredSnippet, ScoredView};

verus! {

/// Where a hit with the given score goes into a ranked sequence: behind every
/// hit that scores at least as much, before the first that scores less.
pub open spec fn insertion_point(ranked: Seq<ScoredView>, score: nat) -> int
    decreases ranked.len(),
{
    if ranked.len() == 0 {
        0
    } else if ranked.last().score >= score {
        ranked.len() as int
    } else {
        insertion_point(ranked.drop_last(), score)
    }
}

/// The hits in ranked order.
pub open spec fn rank(hits: Seq<ScoredView>) -> Seq<ScoredView>
    decreases hits.len(),
{
    if hits.len() == 0 {
        Seq::empty()
    } else {
        let earlier = rank(hits.drop_last());
        earlier.insert(insertion_point(earlier, hits.last().score), hits.last())
    }
}

/// For each place in the ranked order, the index that the hit had before.
pub open spec fn rank_order(hits: Seq<ScoredView>) -> Seq<int>
    decreases hits.len(),
{
    if hits.len() == 0 {
        Seq::empty()
    } else {
        let earlier = rank(hits.drop_last());
        rank_order(hits.drop_last()).insert(
            insertion_point(earlier, hits.last().score),
            hits.len() - 1,
        )
    }
}

/// No hit scores more than one before it.
pub open spec fn is_ranked(hits: Seq<ScoredView>) -> bool {
    forall|i: int, j: int| 0 <= i < j < hits.len() ==> hits[i].score >= hits[j].score
}

/// The insertion point lies within the sequence, and splits a ranked sequence
/// into the hits that score at least as much and those that score less.
pub proof fn lemma_insertion_point(ranked: Seq<ScoredView>, score: nat)
    ensures
        0 <= insertion_point(ranked, score) <= ranked.len(),
        forall|k: int|
            insertion_point(ranked, score) <= k < ranked.len() ==> ranked[k].score < score,
        is_ranked(ranked) ==> forall|k: int|
            0 <= k < insertion_point(ranked, score) ==> ranked[k].score >= score,
    decreases ranked.len(),
{
    let p = insertion_point(ranked, score);
    if ranked.len() > 0 && ranked.last().score < score {
        let front = ranked.drop_last();
        lemma_insertion_point(front, score);
        assert forall|k: int| p <= k < ranked.len() implies ranked[k].score < score by {
            if k < front.len() {
                assert(front[k] == ranked[k]);
            }
        }
        if is_ranked(ranked) {
            assert forall|i: int, j: int| 0 <= i < j < front.len() implies front[i].score
                >= front[j].score by {
                assert(front[i] == ranked[i] && front[j] == ranked[j]);
            }
            assert forall|k: int| 0 <= k < p implies ranked[k].score >= score by {
                assert(front[k] == ranked[k]);
            }
        }
    } else if ranked.len() > 0 {
        if is_ranked(ranked) {
            assert forall|k: int| 0 <= k < p implies ranked[k].score >= score by {
                if k < ranked.len() - 1 {
                    assert(ranked[k].score >= ranked[ranked.len() - 1].score);
                }
            }
        }
    }
}

/// The ranked order is a reordering of the hits in which scores never rise
/// and hits of equal score keep the order that they had.
pub proof fn lemma_rank_is_stable(hits: Seq<ScoredView>)
    ensures
        rank(hits).len() == hits.len(),
        rank_order(hits).len() == hits.len(),
        forall|k: int|
            0 <= k < hits.len() ==> 0 <= #[trigger] rank_order(hits)[k] < hits.len() && rank(
                hits,
            )[k] == hits[rank_order(hits)[k]],
        forall|i: int, j: int|
            0 <= i < j < hits.len() ==> rank(hits)[i].score > rank(hits)[j].score || (rank(
                hits,
            )[i].score == rank(hits)[j].score && rank_order(hits)[i] < rank_order(hits)[j]),
        forall|n: int| 0 <= n < hits.len() ==> #[trigger] rank_order(hits).contains(n),
        is_ranked(rank(hits)),
    decreases hits.len(),
{
    if hits.len() > 0 {
        let before = hits.drop_last();
        let last = hits.last();
        let ranked = rank(before);
        let order = rank_order(before);
        let p = insertion_point(ranked, last.score);
        lemma_rank_is_stable(before);
        lemma_insertion_point(ranked, last.score);
        let out = rank(hits);
        let out_order = rank_order(hits);
        assert(out == ranked.insert(p, last));
        assert(out_order == order.insert(p, hits.len() - 1));
        assert forall|k: int| 0 <= k < hits.len() implies 0 <= #[trigger] out_order[k]
            < hits.len() && out[k] == hits[out_order[k]] by {
            if k < p {
                assert(out_order[k] == order[k]);
            } else if k > p {
                assert(out_order[k] == order[k - 1]);
            }
        }
        assert forall|i: int, j: int| 0 <= i < j < hits.len() implies out[i].score
            > out[j].score || (out[i].score == out[j].score && out_order[i] < out_order[j]) by {
            let a = if i < p { i } else { i - 1 };
            let b = if j < p { j } else { j - 1 };
            if i != p && j != p {
                assert(out[i] == ranked[a] && out_order[i] == order[a]);
                assert(out[j] == ranked[b] && out_order[j] == order[b]);
            } else if j == p {
                assert(out[i] == ranked[i] && out_order[i] == order[i]);
            } else {
                assert(out[j] == ranked[j - 1]);
            }
        }
        assert forall|n: int| 0 <= n < hits.len() implies #[trigger] out_order.contains(n) by {
            if n == hits.len() - 1 {
                assert(out_order[p] == n);
            } else {
                assert(order.contains(n));
                let k = choose|k: int| 0 <= k < order.len() && order[k] == n;
                if k < p {
                    assert(out_order[k] == n);
                } else {
                    assert(out_order[k + 1] == n);
                }
            }
        }
    }
}

/// Ranks the hits in place.
pub fn rank_hits(hits: &mut Vec<ScoredSnippet>)
    ensures
        scored_views(final(hits)@) == rank(scored_views(old(hits)@)),
{
    let ghost found = scored_views(hits@);
    let mut i: usize = 0;
    assert(found.take(0) =~= Seq::<ScoredView>::empty());
    while i < hits.len()
        invariant
            i <= hits.len(),
            hits.len() == found.len(),
            scored_views(hits@).take(i as int) == rank(found.take(i as int)),
            scored_views(hits@).skip(i as int) == found.skip(i as int),
        decreases hits.len() - i,
    {
        let ghost views = scored_views(hits@);
        let ghost ranked = views.take(i as int);
        let score = hits[i].score;
        let mut p: usize = i;
        assert(ranked.take(p as int) =~= ranked);
        while p > 0 && hits[p - 1].score < score
            invariant
                p <= i < hits.len(),
                views == scored_views(hits@),
                ranked == views.take(i as int),
                insertion_point(ranked.take(p as int), score as nat) == insertion_point(
                    ranked,
                    score as nat,
                ),
            decreases p,
        {
            assert(ranked.take(p as int).last() == views[p - 1]);
            assert(ranked.take(p as int).drop_last() =~= ranked.take(p - 1));
            p -= 1;
        }
        proof {
            if p > 0 {
                assert(ranked.take(p as int).last() == views[p - 1]);
            }
            assert(insertion_point(ranked, score as nat) == p);
            assert(found.take(i + 1).drop_last() =~= found.take(i as int));
            assert(found.take(i + 1).last() == found.skip(i as int)[0]);
            assert(views[i as int] == views.skip(i as int)[0]);
        }
        let hit = hits.remove(i);
        hits.insert(p, hit);
        proof {
            let now = scored_views(hits@);
            assert(now.take(i + 1) =~= ranked.insert(p as int, views[i as int]));
            let rest = found.skip(i + 1);
            assert forall|k: int| 0 <= k < rest.len() implies now.skip(i + 1)[k]
                == #[trigger] rest[k] by {
                assert(now[i + 1 + k] == views[i + 1 + k]);
                assert(views.skip(i as int)[k + 1] == found.skip(i as int)[k + 1]);
            }
            assert(now.skip(i + 1) =~= found.skip(i + 1));
        }
        i += 1;
    }
    assert(scored_views(hits@).take(i as int) =~= scored_views(hits@));
    assert(found.take(i as int) =~= found);
}

} // verus!
