//! Search over a local corpus of text files.
use vstd::prelude::*;
use crate::sorting;
use crate::text;

verus! {

/// A corpus file that matched a query.
#[derive(Debug, Clone)]
pub struct SearchHit {
    /// The path of the file, as it is displayed.
    pub source: String,
    /// The first characters of the file.
    pub snippet: String,
    /// How many times the query occurs in the file, ignoring case.
    pub score: u64,
}

pub struct SearchHitView {
    pub source: Seq<char>,
    pub snippet: Seq<char>,
    pub score: nat,
}

impl View for SearchHit {
    type V = SearchHitView;

    open spec fn view(&self) -> SearchHitView {
        SearchHitView { source: self.source@, snippet: self.snippet@, score: self.score as nat }
    }
}

/// A file of the corpus as it was read: its path and its text (empty when
/// it could not be read as text).
#[derive(Debug, Clone)]
pub struct CorpusDocument {
    pub source: String,
    pub text: String,
}

pub struct CorpusDocumentView {
    pub source: Seq<char>,
    pub text: Seq<char>,
}

impl View for CorpusDocument {
    type V = CorpusDocumentView;

    open spec fn view(&self) -> CorpusDocumentView {
        CorpusDocumentView { source: self.source@, text: self.text@ }
    }
}

/// How many characters of a file a snippet shows.
pub const SNIPPET_CHARS: usize = 280;

/// The first `SNIPPET_CHARS` characters of `text`.
pub open spec fn snippet_of(text: Seq<char>) -> Seq<char> {
    text.take(if 280 < text.len() { 280 } else { text.len() as int })
}

/// The score of a file: its number of matches, held in a `u64` (a count
/// beyond `u64::MAX` is held as `u64::MAX`).
pub open spec fn score_of(count: nat) -> nat {
    if count <= u64::MAX { count } else { u64::MAX as nat }
}

/// The hit for a document, if the lower-cased query occurs in its
/// lower-cased text.
pub open spec fn hit_for(doc: CorpusDocumentView, needle: Seq<char>) -> Option<SearchHitView> {
    let count = text::count_matches(text::lowercase(doc.text), needle);
    if count > 0 {
        Some(SearchHitView { source: doc.source, snippet: snippet_of(doc.text), score: score_of(count) })
    } else {
        None
    }
}

/// The hits for the documents, in the order the documents came.
pub open spec fn hits_for(docs: Seq<CorpusDocumentView>, needle: Seq<char>) -> Seq<SearchHitView>
    decreases docs.len(),
{
    if docs.len() == 0 {
        Seq::empty()
    } else {
        match hit_for(docs.last(), needle) {
            Some(h) => hits_for(docs.drop_last(), needle).push(h),
            None => hits_for(docs.drop_last(), needle),
        }
    }
}

pub open spec fn hit_score(h: SearchHitView) -> int {
    h.score as int
}

/// The answer to a query: the matching documents, the most matches first
/// (documents with as many matches keeping their order), at most `limit`.
pub open spec fn search_result(docs: Seq<CorpusDocumentView>, query: Seq<char>, limit: nat) -> Seq<SearchHitView> {
    let sorted = sorting::sort_desc(hits_for(docs, text::lowercase(query)), |h: SearchHitView| hit_score(h));
    sorted.take(if limit < sorted.len() { limit as int } else { sorted.len() as int })
}

pub open spec fn hit_views(hits: Seq<SearchHit>) -> Seq<SearchHitView> {
    hits.map_values(|h: SearchHit| h@)
}

/// Searches the files of a corpus directory.
#[derive(Debug, Clone)]
pub struct LocalSearch {
    corpus_dir: String,
}

impl LocalSearch {
    pub fn new(corpus_dir: &str) -> (s: Self)
        ensures
            s.corpus_dir()@ == corpus_dir@,
    {
        LocalSearch { corpus_dir: String::from_str(corpus_dir) }
    }

    pub closed spec fn corpus_dir(&self) -> String {
        self.corpus_dir
    }

    /// The directory whose files are searched.
    pub fn corpus_dir_path(&self) -> (d: &str)
        ensures
            d@ == self.corpus_dir()@,
    {
        self.corpus_dir.as_str()
    }

    /// Ranks the files read from the corpus against `query`: each file whose
    /// lower-cased text holds the lower-cased query is a hit scored by its
    /// number of matches; the hits come the best first, at most `limit`.
    pub fn rank_documents(&self, documents: &Vec<CorpusDocument>, query: &str, limit: usize) -> (r: Vec<SearchHit>)
        ensures
            hit_views(r@) == search_result(documents@.map_values(|d: CorpusDocument| d@), query@, limit as nat),
    {
        let ghost docs = documents@.map_values(|d: CorpusDocument| d@);
        let needle = text::to_lowercase(query);
        let nc = text::chars_of(needle.as_str());
        let mut hits: Vec<SearchHit> = Vec::new();
        let mut keys: Vec<u128> = Vec::new();
        let mut i: usize = 0;
        while i < documents.len()
            invariant
                docs == documents@.map_values(|d: CorpusDocument| d@),
                nc@ == text::lowercase(query@),
                i <= documents@.len(),
                hit_views(hits@) == hits_for(docs.take(i as int), nc@),
                keys@.len() == hits@.len(),
                forall|j: int| 0 <= j < hits@.len() ==> keys@[j] as int == hits@[j].score as int,
            decreases documents@.len() - i,
        {
            let doc = &documents[i];
            let lower = text::to_lowercase(doc.text.as_str());
            let lc = text::chars_of(lower.as_str());
            let count = text::count_matches_exec(lc.as_slice(), nc.as_slice());
            assert(docs.take(i + 1).drop_last() =~= docs.take(i as int));
            assert(docs.take(i + 1).last() == doc@);
            if count > 0 {
                let score: u64 = if count <= u64::MAX as u128 { count as u64 } else { u64::MAX };
                let snippet = text::take_chars(doc.text.as_str(), SNIPPET_CHARS);
                let hit = SearchHit { source: doc.source.clone(), snippet, score };
                let ghost prev = hits@;
                hits.push(hit);
                keys.push(score as u128);
                assert(hit_views(hits@) =~= hit_views(prev).push(hit@));
            }
            i = i + 1;
        }
        assert(docs.take(i as int) =~= docs);
        let ghost unsorted = hits@;
        let sorted = sorting::sort_by_keys_desc(hits, keys, Ghost(|h: SearchHit| h.score as int));
        proof {
            sorting::lemma_sort_map(
                unsorted,
                |h: SearchHit| h@,
                |h: SearchHit| h.score as int,
                |h: SearchHitView| hit_score(h),
            );
            sorting::lemma_sort_desc(unsorted, |h: SearchHit| h.score as int);
        }
        let mut sorted = sorted;
        let ghost full = sorted@;
        sorted.truncate(limit);
        proof {
            assert(hit_views(sorted@) =~= hit_views(full).take(
                if limit < full.len() { limit as int } else { full.len() as int },
            ));
        }
        sorted
    }
}

proof fn lemma_hits_have_matches(docs: Seq<CorpusDocumentView>, needle: Seq<char>)
    ensures
        forall|i: int| 0 <= i < hits_for(docs, needle).len() ==> #[trigger] hits_for(docs, needle)[i].score > 0,
        hits_for(docs, needle).len() <= docs.len(),
    decreases docs.len(),
{
    if docs.len() > 0 {
        lemma_hits_have_matches(docs.drop_last(), needle);
    }
}

/// A search answers at most `limit` hits, the most matches first, and only
/// files in which the query occurs.
pub proof fn lemma_search_result(docs: Seq<CorpusDocumentView>, query: Seq<char>, limit: nat)
    ensures
        ({
            let r = search_result(docs, query, limit);
            let matched = docs.filter(
                |d: CorpusDocumentView| text::count_matches(text::lowercase(d.text), text::lowercase(query)) > 0,
            );
            &&& r.len() == (if limit < matched.len() { limit } else { matched.len() })
            &&& forall|i: int, j: int| 0 <= i < j < r.len() ==> r[i].score >= r[j].score
            &&& forall|i: int| 0 <= i < r.len() ==> #[trigger] r[i].score > 0
        }),
        search_result(docs, query, limit).len() <= limit,
        search_result(docs, query, limit).len() <= docs.len(),
        sorting::is_sorted_desc(search_result(docs, query, limit), |h: SearchHitView| hit_score(h)),
{
    broadcast use vstd::seq_lib::group_to_multiset_ensures;
    let hits = hits_for(docs, text::lowercase(query));
    let key = |h: SearchHitView| hit_score(h);
    lemma_hits_have_matches(docs, text::lowercase(query));
    lemma_hits_count(docs, query);
    sorting::lemma_sort_desc(hits, key);
    let sorted = sorting::sort_desc(hits, key);
    let r = search_result(docs, query, limit);
    assert forall|i: int| 0 <= i < r.len() implies #[trigger] r[i].score > 0 by {
        assert(r[i] == sorted[i]);
        assert(sorted.to_multiset().count(sorted[i]) > 0);
        assert(hits.to_multiset().count(sorted[i]) > 0);
        assert(hits.contains(sorted[i]));
    }
    assert forall|i: int, j: int| 0 <= i < j < r.len() implies r[i].score >= r[j].score by {
        assert(r[i] == sorted[i]);
        assert(r[j] == sorted[j]);
        assert(key(sorted[i]) >= key(sorted[j]));
    }
}

/// There is one hit for each document in which the query occurs.
proof fn lemma_hits_count(docs: Seq<CorpusDocumentView>, query: Seq<char>)
    ensures
        hits_for(docs, text::lowercase(query)).len() == docs.filter(
            |d: CorpusDocumentView| text::count_matches(text::lowercase(d.text), text::lowercase(query)) > 0,
        ).len(),
    decreases docs.len(),
{
    reveal(Seq::filter);
    if docs.len() > 0 {
        lemma_hits_count(docs.drop_last(), query);
    }
}

/// Each hit names a document it came from: same source, the snippet is the
/// start of that document's own text (its first 280 characters, or all of
/// it), and the query, lower-cased, occurs in its lower-cased text as many
/// times as the score says (up to `u64::MAX`).
pub open spec fn hit_from_document(h: SearchHitView, d: CorpusDocumentView, query: Seq<char>) -> bool {
    let n = if 280 < d.text.len() { 280 } else { d.text.len() as int };
    let count = text::count_matches(text::lowercase(d.text), text::lowercase(query));
    &&& h.source == d.source
    &&& h.snippet.len() == n
    &&& h.snippet == d.text.take(h.snippet.len() as int)
    &&& count > 0
    &&& h.score == (if count <= u64::MAX { count } else { u64::MAX as nat })
}

proof fn lemma_hits_come_from_documents(docs: Seq<CorpusDocumentView>, query: Seq<char>)
    ensures
        forall|i: int|
            0 <= i < hits_for(docs, text::lowercase(query)).len() ==> exists|k: int|
                0 <= k < docs.len() && hit_from_document(
                    #[trigger] hits_for(docs, text::lowercase(query))[i],
                    docs[k],
                    query,
                ),
    decreases docs.len(),
{
    let needle = text::lowercase(query);
    if docs.len() > 0 {
        let rest = docs.drop_last();
        lemma_hits_come_from_documents(rest, query);
        let hs = hits_for(docs, needle);
        let hr = hits_for(rest, needle);
        assert forall|i: int| 0 <= i < hs.len() implies exists|k: int|
            0 <= k < docs.len() && hit_from_document(#[trigger] hs[i], docs[k], query) by {
            if i < hr.len() {
                assert(hs[i] == hr[i]);
                let k = choose|k: int| 0 <= k < rest.len() && hit_from_document(hr[i], rest[k], query);
                assert(rest[k] == docs[k]);
            } else {
                let d = docs.last();
                assert(hit_from_document(hs[i], docs[docs.len() - 1], query));
            }
        }
    }
}

/// Every hit of a search comes from a document of the corpus: it carries
/// that document's source, a snippet that is the start of the document's
/// own text, and the document's number of matches as its score.
pub proof fn lemma_search_hits_come_from_documents(docs: Seq<CorpusDocumentView>, query: Seq<char>, limit: nat)
    ensures
        forall|i: int|
            0 <= i < search_result(docs, query, limit).len() ==> exists|k: int|
                0 <= k < docs.len() && hit_from_document(
                    #[trigger] search_result(docs, query, limit)[i],
                    docs[k],
                    query,
                ),
{
    broadcast use vstd::seq_lib::group_to_multiset_ensures;
    let hits = hits_for(docs, text::lowercase(query));
    let key = |h: SearchHitView| hit_score(h);
    lemma_hits_come_from_documents(docs, query);
    sorting::lemma_sort_desc(hits, key);
    let sorted = sorting::sort_desc(hits, key);
    let r = search_result(docs, query, limit);
    assert forall|i: int| 0 <= i < r.len() implies exists|k: int|
        0 <= k < docs.len() && hit_from_document(#[trigger] r[i], docs[k], query) by {
        assert(r[i] == sorted[i]);
        assert(sorted.to_multiset().count(sorted[i]) > 0);
        assert(hits.to_multiset().count(sorted[i]) > 0);
        assert(hits.contains(sorted[i]));
        let j = choose|j: int| 0 <= j < hits.len() && hits[j] == sorted[i];
        assert(exists|k: int| 0 <= k < docs.len() && hit_from_document(hits[j], docs[k], query));
    }
}

/// Case does not matter in the query: queries with the same lower-case
/// form give the same hits.
pub proof fn lemma_search_ignores_query_case(docs: Seq<CorpusDocumentView>, q1: Seq<char>, q2: Seq<char>, limit: nat)
    requires
        text::lowercase(q1) == text::lowercase(q2),
    ensures
        search_result(docs, q1, limit) == search_result(docs, q2, limit),
{
}

} // verus!
