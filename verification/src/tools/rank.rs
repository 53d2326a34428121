//! Re-ranking of search hits by how well their snippets fit the topic.
use vstd::prelude::*;
use crate::sorting;
use crate::text;
use crate::tools::local_search::{SearchHit, SearchHitView};

verus! {

/// The ranking weight of a hit, scaled by four: a hit whose lower-cased
/// snippet holds the lower-cased topic is boosted by a quarter.
pub open spec fn boosted_score(h: SearchHitView, topic: Seq<char>) -> int {
    if text::contains(text::lowercase(h.snippet), text::lowercase(topic)) {
        5 * (h.score as int)
    } else {
        4 * (h.score as int)
    }
}

/// The hits re-ranked for `topic`: the highest boosted score first, hits
/// with equal boosted scores keeping their order.
pub open spec fn reranked(hits: Seq<SearchHitView>, topic: Seq<char>) -> Seq<SearchHitView> {
    sorting::sort_desc(hits, |h: SearchHitView| boosted_score(h, topic))
}

/// Orders search hits for a topic.
#[derive(Debug, Clone, Copy, Default)]
pub struct Ranker;

impl Ranker {
    /// Sorts `hits` by score, boosting by a quarter those whose snippet
    /// mentions `topic` (ignoring case); the sort is stable.
    pub fn rerank(&self, topic: &str, hits: Vec<SearchHit>) -> (r: Vec<SearchHit>)
        ensures
            r@.map_values(|h: SearchHit| h@) == reranked(hits@.map_values(|h: SearchHit| h@), topic@),
    {
        let needle = text::to_lowercase(topic);
        let nc = text::chars_of(needle.as_str());
        let ghost key = |h: SearchHit| boosted_score(h@, topic@);
        let mut keys: Vec<u128> = Vec::new();
        let mut i: usize = 0;
        while i < hits.len()
            invariant
                nc@ == text::lowercase(topic@),
                key == (|h: SearchHit| boosted_score(h@, topic@)),
                i <= hits@.len(),
                keys@.len() == i,
                forall|j: int| 0 <= j < i ==> keys@[j] as int == key(hits@[j]),
            decreases hits@.len() - i,
        {
            let lower = text::to_lowercase(hits[i].snippet.as_str());
            let lc = text::chars_of(lower.as_str());
            let score = hits[i].score as u128;
            let k = if text::contains_exec(lc.as_slice(), nc.as_slice()) {
                score * 5
            } else {
                score * 4
            };
            keys.push(k);
            i = i + 1;
        }
        let ghost orig = hits@;
        let r = sorting::sort_by_keys_desc(hits, keys, Ghost(key));
        proof {
            sorting::lemma_sort_map(orig, |h: SearchHit| h@, key, |h: SearchHitView| boosted_score(h, topic@));
        }
        r
    }
}


/// Re-ranking only reorders: the result holds the same hits, from the
/// highest boosted score to the lowest.
pub proof fn lemma_rerank_reorders(hits: Seq<SearchHitView>, topic: Seq<char>)
    ensures
        reranked(hits, topic).to_multiset() == hits.to_multiset(),
        reranked(hits, topic).len() == hits.len(),
        sorting::is_sorted_desc(reranked(hits, topic), |h: SearchHitView| boosted_score(h, topic)),
{
    sorting::lemma_sort_desc(hits, |h: SearchHitView| boosted_score(h, topic));
}


/// Case does not matter in the topic: two topics with the same lower-case
/// form rank any hits the same way.
pub proof fn lemma_rerank_ignores_topic_case(hits: Seq<SearchHitView>, t1: Seq<char>, t2: Seq<char>)
    requires
        text::lowercase(t1) == text::lowercase(t2),
    ensures
        reranked(hits, t1) == reranked(hits, t2),
{
    let k1 = |h: SearchHitView| boosted_score(h, t1);
    let k2 = |h: SearchHitView| boosted_score(h, t2);
    assert(k1 =~= k2);
}

/// A hit whose lower-cased snippet holds the lower-cased topic outranks any
/// hit with the same score whose snippet does not, and never falls behind a
/// hit with a lower score; unboosted hits of equal score keep their order.
pub proof fn lemma_rerank_boosts_mentions(hits: Seq<SearchHitView>, topic: Seq<char>, i: int, j: int)
    requires
        0 <= i < reranked(hits, topic).len(),
        0 <= j < reranked(hits, topic).len(),
        ({
            let a = reranked(hits, topic)[i];
            let b = reranked(hits, topic)[j];
            &&& text::contains(text::lowercase(a.snippet), text::lowercase(topic))
            &&& !text::contains(text::lowercase(b.snippet), text::lowercase(topic))
            &&& a.score >= b.score
            &&& a.score > 0
        }),
    ensures
        i < j,
{
    sorting::lemma_sort_desc(hits, |h: SearchHitView| boosted_score(h, topic));
    let r = reranked(hits, topic);
    if j < i {
        assert(boosted_score(r[j], topic) >= boosted_score(r[i], topic));
    }
}


/// The order re-ranking gives: scores weighed five to four for hits whose
/// lower-cased snippet mentions the lower-cased topic, highest first; hits
/// that weigh the same keep the order they came in.
pub proof fn lemma_rerank_order(hits: Seq<SearchHitView>, topic: Seq<char>)
    ensures
        ({
            let r = reranked(hits, topic);
            let weight = |h: SearchHitView|
                if text::contains(text::lowercase(h.snippet), text::lowercase(topic)) {
                    5 * (h.score as int)
                } else {
                    4 * (h.score as int)
                };
            &&& r.to_multiset() == hits.to_multiset()
            &&& forall|i: int, j: int| 0 <= i < j < r.len() ==> weight(r[i]) >= weight(r[j])
        }),
{
    sorting::lemma_sort_desc(hits, |h: SearchHitView| boosted_score(h, topic));
}

} // verus!
