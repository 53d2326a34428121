//! Long-term memory: records kept by id and found by their text.
use vstd::prelude::*;
use std::collections::HashMap;
use crate::text;

verus! {

/// A remembered document.
#[derive(Debug, Clone)]
pub struct MemoryRecord {
    pub id: String,
    pub text: String,
    /// The embedding, each component held as the bits of an `f32`
    /// (`f32::to_bits`), so that it is kept exactly.
    pub embedding: Option<Vec<u32>>,
    pub metadata: HashMap<String, String>,
}

pub struct MemoryRecordView {
    pub id: Seq<char>,
    pub text: Seq<char>,
    pub embedding: Option<Seq<u32>>,
    pub metadata: Map<String, String>,
}

impl View for MemoryRecord {
    type V = MemoryRecordView;

    open spec fn view(&self) -> MemoryRecordView {
        MemoryRecordView {
            id: self.id@,
            text: self.text@,
            embedding: match self.embedding {
                Some(v) => Some(v@),
                None => None,
            },
            metadata: self.metadata@,
        }
    }
}

fn copy_u32s(v: &Vec<u32>) -> (r: Vec<u32>)
    ensures
        r@ == v@,
{
    let mut r: Vec<u32> = Vec::new();
    let mut i: usize = 0;
    while i < v.len()
        invariant
            i <= v@.len(),
            r@ == v@.take(i as int),
        decreases v@.len() - i,
    {
        r.push(v[i]);
        assert(r@ =~= v@.take(i + 1));
        i = i + 1;
    }
    assert(v@.take(i as int) =~= v@);
    r
}

impl MemoryRecord {
    /// A copy of this record.
    pub fn duplicate(&self) -> (r: Self)
        ensures
            r@ == self@,
    {
        let embedding = match &self.embedding {
            Some(v) => Some(copy_u32s(v)),
            None => None,
        };
        MemoryRecord {
            id: self.id.clone(),
            text: self.text.clone(),
            embedding,
            metadata: self.metadata.clone(),
        }
    }
}

/// Where the first record with `id` stands, if any.
pub open spec fn index_of_id(docs: Seq<MemoryRecordView>, id: Seq<char>) -> Option<int>
    decreases docs.len(),
{
    if docs.len() == 0 {
        None
    } else if docs[0].id == id {
        Some(0)
    } else {
        match index_of_id(docs.drop_first(), id) {
            Some(i) => Some(i + 1),
            None => None,
        }
    }
}

/// The records after `record` is stored: it replaces the first record with
/// the same id, or is added at the end when there is none.
pub open spec fn upserted(docs: Seq<MemoryRecordView>, record: MemoryRecordView) -> Seq<MemoryRecordView> {
    match index_of_id(docs, record.id) {
        Some(i) => docs.update(i, record),
        None => docs.push(record),
    }
}

/// A record's text matches a query when the query, lower-cased, occurs in
/// the lower-cased text.
pub open spec fn text_matches(doc: MemoryRecordView, query: Seq<char>) -> bool {
    text::contains(text::lowercase(doc.text), text::lowercase(query))
}

/// The records that match `query`, in store order.
pub open spec fn matching(docs: Seq<MemoryRecordView>, query: Seq<char>) -> Seq<MemoryRecordView>
    decreases docs.len(),
{
    if docs.len() == 0 {
        Seq::empty()
    } else if text_matches(docs.last(), query) {
        matching(docs.drop_last(), query).push(docs.last())
    } else {
        matching(docs.drop_last(), query)
    }
}

/// The first `limit` records that match `query`.
pub open spec fn search_result(docs: Seq<MemoryRecordView>, query: Seq<char>, limit: nat) -> Seq<MemoryRecordView> {
    let m = matching(docs, query);
    m.take(if limit < m.len() { limit as int } else { m.len() as int })
}

/// A store of documents that can be found again by their text.
pub trait LongTermStore: Send + Sync {
    fn upsert(&mut self, record: MemoryRecord);

    fn search_text(&self, query: &str, limit: usize) -> Vec<MemoryRecord>;
}

/// A [`LongTermStore`] kept in memory.
#[derive(Debug, Clone)]
pub struct InMemoryStore {
    docs: Vec<MemoryRecord>,
}

impl View for InMemoryStore {
    type V = Seq<MemoryRecordView>;

    closed spec fn view(&self) -> Seq<MemoryRecordView> {
        self.docs@.map_values(|d: MemoryRecord| d@)
    }
}

impl Default for InMemoryStore {
    fn default() -> (s: Self)
        ensures
            s@ == Seq::<MemoryRecordView>::empty(),
    {
        let s = InMemoryStore { docs: Vec::new() };
        assert(s@ =~= Seq::<MemoryRecordView>::empty());
        s
    }
}

proof fn lemma_index_of_id(docs: Seq<MemoryRecordView>, id: Seq<char>)
    ensures
        index_of_id(docs, id) matches Some(i) ==> 0 <= i < docs.len() && docs[i].id == id && forall|j: int|
            0 <= j < i ==> docs[j].id != id,
        index_of_id(docs, id) is None ==> forall|j: int| 0 <= j < docs.len() ==> docs[j].id != id,
    decreases docs.len(),
{
    if docs.len() > 0 {
        lemma_index_of_id(docs.drop_first(), id);
        assert forall|j: int| 0 < j < docs.len() implies docs[j] == docs.drop_first()[j - 1] by {}
    }
}

proof fn lemma_index_of_first(docs: Seq<MemoryRecordView>, id: Seq<char>, i: int)
    requires
        0 <= i < docs.len(),
        docs[i].id == id,
        forall|j: int| 0 <= j < i ==> docs[j].id != id,
    ensures
        index_of_id(docs, id) == Some(i),
{
    lemma_index_of_id(docs, id);
}

impl LongTermStore for InMemoryStore {
    /// Stores `record`, replacing the first record with the same id.
    fn upsert(&mut self, record: MemoryRecord)
        ensures
            final(self)@ == upserted(old(self)@, record@),
    {
        let ghost docs = self@;
        let mut i: usize = 0;
        while i < self.docs.len()
            invariant
                docs == self@,
                docs == old(self)@,
                i <= self.docs@.len(),
                forall|j: int| 0 <= j < i ==> docs[j].id != record@.id,
            decreases self.docs@.len() - i,
        {
            if self.docs[i].id == record.id {
                assert(docs[i as int] == self.docs@[i as int]@);
                proof {
                    lemma_index_of_first(docs, record@.id, i as int);
                }
                let ghost rv = record@;
                self.docs.set(i, record);
                assert(self@ =~= docs.update(i as int, rv));
                assert(index_of_id(docs, rv.id) == Some(i as int));
                return;
            }
            i = i + 1;
        }
        proof {
            lemma_index_of_id(docs, record@.id);
            if let Some(k) = index_of_id(docs, record@.id) {
                assert(docs[k].id != record@.id);
            }
        }
        let ghost rv = record@;
        self.docs.push(record);
        assert(self@ =~= docs.push(rv));
    }

    /// The first `limit` records whose text contains `query`, ignoring case,
    /// in store order.
    fn search_text(&self, query: &str, limit: usize) -> (r: Vec<MemoryRecord>)
        ensures
            r@.map_values(|d: MemoryRecord| d@) == search_result(self@, query@, limit as nat),
    {
        let q = text::to_lowercase(query);
        let qc = text::chars_of(q.as_str());
        let ghost docs = self@;
        let mut r: Vec<MemoryRecord> = Vec::new();
        let mut i: usize = 0;
        while i < self.docs.len() && r.len() < limit
            invariant
                docs == self@,
                qc@ == text::lowercase(query@),
                i <= self.docs@.len(),
                r@.len() <= limit,
                r@.map_values(|d: MemoryRecord| d@) == matching(docs.take(i as int), query@),
            decreases self.docs@.len() - i,
        {
            let doc = &self.docs[i];
            let t = text::to_lowercase(doc.text.as_str());
            let tc = text::chars_of(t.as_str());
            let hit = text::contains_exec(tc.as_slice(), qc.as_slice());
            assert(docs.take(i + 1).drop_last() =~= docs.take(i as int));
            assert(docs.take(i + 1).last() == doc@);
            if hit {
                let copy = doc.duplicate();
                let ghost prev = r@;
                r.push(copy);
                assert(r@.map_values(|d: MemoryRecord| d@) =~= prev.map_values(|d: MemoryRecord| d@).push(doc@));
            }
            i = i + 1;
        }
        proof {
            lemma_matching_prefix(docs, query@, i as int);
            if i == self.docs@.len() {
                assert(docs.take(i as int) =~= docs);
            }
        }
        r
    }
}

/// The records matching in a prefix are the first ones matching in all.
proof fn lemma_matching_prefix(docs: Seq<MemoryRecordView>, query: Seq<char>, i: int)
    requires
        0 <= i <= docs.len(),
    ensures
        matching(docs.take(i), query).len() <= matching(docs, query).len(),
        matching(docs.take(i), query) == matching(docs, query).take(matching(docs.take(i), query).len() as int),
    decreases docs.len() - i,
{
    if i == docs.len() {
        assert(docs.take(i) =~= docs);
        assert(matching(docs, query).take(matching(docs, query).len() as int) =~= matching(docs, query));
    } else {
        lemma_matching_prefix(docs, query, i + 1);
        assert(docs.take(i + 1).drop_last() =~= docs.take(i));
        let m1 = matching(docs.take(i), query);
        let m2 = matching(docs.take(i + 1), query);
        let m = matching(docs, query);
        assert(m1 =~= m2.take(m1.len() as int));
        assert(m1 =~= m.take(m1.len() as int));
    }
}


/// No two records share an id.
pub open spec fn ids_unique(docs: Seq<MemoryRecordView>) -> bool {
    forall|i: int, j: int| 0 <= i < j < docs.len() ==> docs[i].id != docs[j].id
}

/// Storing a record keeps the ids unique.
pub proof fn lemma_upsert_keeps_ids_unique(docs: Seq<MemoryRecordView>, record: MemoryRecordView)
    requires
        ids_unique(docs),
    ensures
        ids_unique(upserted(docs, record)),
{
    lemma_index_of_id(docs, record.id);
}

/// After a record is stored, looking up its id finds exactly it; every
/// other record stays where it was, and the store grows only when the id
/// is new.
pub proof fn lemma_upsert_then_lookup(docs: Seq<MemoryRecordView>, record: MemoryRecordView)
    ensures
        index_of_id(upserted(docs, record), record.id) matches Some(i) && upserted(docs, record)[i] == record,
        forall|j: int| 0 <= j < docs.len() && docs[j].id != record.id ==> #[trigger] upserted(docs, record)[j] == docs[j],
        upserted(docs, record).len() == docs.len() + (if index_of_id(docs, record.id) is None { 1int } else { 0 }),
{
    lemma_index_of_id(docs, record.id);
    let u = upserted(docs, record);
    match index_of_id(docs, record.id) {
        Some(i) => {
            assert forall|j: int| 0 <= j < i implies u[j].id != record.id by {}
            lemma_index_of_first(u, record.id, i);
        },
        None => {
            assert forall|j: int| 0 <= j < docs.len() implies u[j].id != record.id by {}
            lemma_index_of_first(u, record.id, docs.len() as int);
        },
    }
}

/// Storing the same record twice is the same as storing it once.
pub proof fn lemma_upsert_idempotent(docs: Seq<MemoryRecordView>, record: MemoryRecordView)
    ensures
        upserted(upserted(docs, record), record) == upserted(docs, record),
{
    lemma_upsert_then_lookup(docs, record);
    let u = upserted(docs, record);
    lemma_index_of_id(u, record.id);
    let i = index_of_id(u, record.id)->0;
    assert(u[i] == record);
    assert(upserted(u, record) == u.update(i, record));
    assert(u.update(i, record) =~= u);
}


/// `matching` keeps exactly the records whose text matches, in store order.
pub proof fn lemma_matching_is_filter(docs: Seq<MemoryRecordView>, query: Seq<char>)
    ensures
        matching(docs, query) == docs.filter(|d: MemoryRecordView| text_matches(d, query)),
    decreases docs.len(),
{
    reveal(Seq::filter);
    if docs.len() > 0 {
        lemma_matching_is_filter(docs.drop_last(), query);
    }
}

/// A search answers the matching records in store order, as many as match
/// but at most `limit`: the first `limit` of all matches. When no more than
/// `limit` records match, every matching record is in the answer; every
/// record in the answer matches.
pub proof fn lemma_search_text_answers(docs: Seq<MemoryRecordView>, query: Seq<char>, limit: nat)
    ensures
        ({
            let all = docs.filter(|d: MemoryRecordView| text_matches(d, query));
            let r = search_result(docs, query, limit);
            &&& r.len() == (if limit < all.len() { limit } else { all.len() })
            &&& r == all.take(r.len() as int)
            &&& forall|i: int| 0 <= i < r.len() ==> text_matches(#[trigger] r[i], query)
            &&& all.len() <= limit ==> forall|k: int| 0 <= k < docs.len() && text_matches(docs[k], query)
                ==> r.contains(#[trigger] docs[k])
        }),
{
    lemma_matching_is_filter(docs, query);
    let pred = |d: MemoryRecordView| text_matches(d, query);
    let all = docs.filter(pred);
    let r = search_result(docs, query, limit);
    assert forall|i: int| 0 <= i < r.len() implies text_matches(#[trigger] r[i], query) by {
        assert(r[i] == all[i]);
        assert(pred(all[i]));
    }
    if all.len() <= limit {
        assert(r =~= all);
        assert forall|k: int| 0 <= k < docs.len() && text_matches(docs[k], query) implies r.contains(
            #[trigger] docs[k],
        ) by {
            assert(pred(docs[k]));
        }
    }
}

/// Case does not matter in the query: two queries with the same lower-case
/// form find the same records.
pub proof fn lemma_search_ignores_query_case(docs: Seq<MemoryRecordView>, q1: Seq<char>, q2: Seq<char>, limit: nat)
    requires
        text::lowercase(q1) == text::lowercase(q2),
    ensures
        search_result(docs, q1, limit) == search_result(docs, q2, limit),
{
    lemma_matching_is_filter(docs, q1);
    lemma_matching_is_filter(docs, q2);
    let p1 = |d: MemoryRecordView| text_matches(d, q1);
    let p2 = |d: MemoryRecordView| text_matches(d, q2);
    assert(p1 =~= p2);
}

} // verus!
