//! A stable sort from the highest key to the lowest, the order that
//! `sort_by` with a descending comparison gives.
use vstd::prelude::*;

verus! {

/// Places `x` after every element of `s` whose key is at least its own.
pub open spec fn insert_desc<T>(s: Seq<T>, x: T, key: spec_fn(T) -> int) -> Seq<T>
    decreases s.len(),
{
    if s.len() == 0 {
        seq![x]
    } else if key(s[0]) < key(x) {
        seq![x] + s
    } else {
        seq![s[0]] + insert_desc(s.drop_first(), x, key)
    }
}

/// `s` sorted from the highest key to the lowest, elements with equal keys
/// keeping their order in `s`.
pub open spec fn sort_desc<T>(s: Seq<T>, key: spec_fn(T) -> int) -> Seq<T>
    decreases s.len(),
{
    if s.len() == 0 {
        Seq::empty()
    } else {
        insert_desc(sort_desc(s.drop_last(), key), s.last(), key)
    }
}

/// `s` runs from the highest key to the lowest.
pub open spec fn is_sorted_desc<T>(s: Seq<T>, key: spec_fn(T) -> int) -> bool {
    forall|i: int, j: int| 0 <= i < j < s.len() ==> key(s[i]) >= key(s[j])
}

/// Inserting at the first position whose key is below `key(x)`.
proof fn lemma_insert_at<T>(s: Seq<T>, x: T, key: spec_fn(T) -> int, p: int)
    requires
        0 <= p <= s.len(),
        forall|i: int| 0 <= i < p ==> key(s[i]) >= key(x),
        p == s.len() || key(s[p]) < key(x),
    ensures
        insert_desc(s, x, key) == s.take(p).push(x) + s.skip(p),
    decreases s.len(),
{
    if s.len() == 0 {
        assert(s.take(p).push(x) + s.skip(p) =~= seq![x]);
    } else if p == 0 {
        assert(s.take(p).push(x) + s.skip(p) =~= seq![x] + s);
    } else {
        let t = s.drop_first();
        assert forall|i: int| 0 <= i < p - 1 implies key(t[i]) >= key(x) by {
            assert(t[i] == s[i + 1]);
        }
        if p < s.len() {
            assert(t[p - 1] == s[p]);
        }
        lemma_insert_at(t, x, key, p - 1);
        assert(seq![s[0]] + (t.take(p - 1).push(x) + t.skip(p - 1)) =~= s.take(p).push(x) + s.skip(p));
    }
}

/// Inserting keeps a sorted sequence sorted and adds exactly `x`.
pub proof fn lemma_insert_desc<T>(s: Seq<T>, x: T, key: spec_fn(T) -> int)
    requires
        is_sorted_desc(s, key),
    ensures
        is_sorted_desc(insert_desc(s, x, key), key),
        insert_desc(s, x, key).to_multiset() == s.to_multiset().insert(x),
        insert_desc(s, x, key).len() == s.len() + 1,
    decreases s.len(),
{
    broadcast use vstd::seq_lib::group_to_multiset_ensures;
    if s.len() == 0 {
        assert(seq![x] =~= Seq::<T>::empty().push(x));
    } else if key(s[0]) < key(x) {
        assert(seq![x] + s =~= s.insert(0, x));
    } else {
        let t = s.drop_first();
        lemma_insert_desc(t, x, key);
        let r = insert_desc(t, x, key);
        assert(seq![s[0]] + r =~= r.insert(0, s[0]));
        assert(s =~= t.insert(0, s[0]));
        assert forall|j: int| 0 <= j < r.len() implies key(s[0]) >= key(r[j]) by {
            assert(r.to_multiset().count(r[j]) > 0);
            assert(t.to_multiset().insert(x).count(r[j]) > 0);
            if r[j] != x {
                assert(t.to_multiset().count(r[j]) > 0);
                assert(t.contains(r[j]));
                let k = choose|k: int| 0 <= k < t.len() && t[k] == r[j];
                assert(t[k] == s[k + 1]);
            }
        }
        let out = seq![s[0]] + r;
        assert forall|i: int, j: int| 0 <= i < j < out.len() implies key(out[i]) >= key(out[j]) by {
            if i == 0 {
                assert(out[j] == r[j - 1]);
            } else {
                assert(out[i] == r[i - 1]);
                assert(out[j] == r[j - 1]);
            }
        }
    }
}

/// A sorted sequence is sorted and holds the same elements.
pub proof fn lemma_sort_desc<T>(s: Seq<T>, key: spec_fn(T) -> int)
    ensures
        is_sorted_desc(sort_desc(s, key), key),
        sort_desc(s, key).to_multiset() == s.to_multiset(),
        sort_desc(s, key).len() == s.len(),
    decreases s.len(),
{
    broadcast use vstd::seq_lib::group_to_multiset_ensures;
    if s.len() > 0 {
        lemma_sort_desc(s.drop_last(), key);
        lemma_insert_desc(sort_desc(s.drop_last(), key), s.last(), key);
        assert(s =~= s.drop_last().push(s.last()));
    }
}

/// Mapping the elements commutes with inserting when the key is read
/// through the map.
pub proof fn lemma_insert_map<A, B>(
    s: Seq<A>,
    x: A,
    f: spec_fn(A) -> B,
    ka: spec_fn(A) -> int,
    kb: spec_fn(B) -> int,
)
    requires
        forall|a: A| #[trigger] ka(a) == kb(f(a)),
    ensures
        insert_desc(s, x, ka).map_values(f) == insert_desc(s.map_values(f), f(x), kb),
    decreases s.len(),
{
    let t = s.map_values(f);
    if s.len() == 0 {
        assert(insert_desc(s, x, ka).map_values(f) =~= seq![f(x)]);
    } else {
        assert(ka(s[0]) == kb(f(s[0])));
        assert(t[0] == f(s[0]));
        assert(ka(x) == kb(f(x)));
        if ka(s[0]) < ka(x) {
            assert((seq![x] + s).map_values(f) =~= seq![f(x)] + t);
        } else {
            lemma_insert_map(s.drop_first(), x, f, ka, kb);
            assert(s.drop_first().map_values(f) =~= t.drop_first());
            assert((seq![s[0]] + insert_desc(s.drop_first(), x, ka)).map_values(f) =~= seq![t[0]]
                + insert_desc(s.drop_first(), x, ka).map_values(f));
        }
    }
}

/// Mapping the elements commutes with sorting when the key is read through
/// the map.
pub proof fn lemma_sort_map<A, B>(s: Seq<A>, f: spec_fn(A) -> B, ka: spec_fn(A) -> int, kb: spec_fn(B) -> int)
    requires
        forall|a: A| #[trigger] ka(a) == kb(f(a)),
    ensures
        sort_desc(s, ka).map_values(f) == sort_desc(s.map_values(f), kb),
    decreases s.len(),
{
    if s.len() == 0 {
        assert(sort_desc(s, ka).map_values(f) =~= Seq::<B>::empty());
        assert(s.map_values(f) =~= Seq::<B>::empty());
    } else {
        lemma_sort_map(s.drop_last(), f, ka, kb);
        lemma_insert_map(sort_desc(s.drop_last(), ka), s.last(), f, ka, kb);
        assert(s.map_values(f).drop_last() =~= s.drop_last().map_values(f));
    }
}

/// Sorts `items` from the highest key to the lowest, keeping the order of
/// equal keys; `keys[i]` is the key of `items[i]`.
pub(crate) fn sort_by_keys_desc<T>(items: Vec<T>, keys: Vec<u128>, Ghost(key): Ghost<spec_fn(T) -> int>) -> (r: Vec<T>)
    requires
        keys@.len() == items@.len(),
        forall|i: int| 0 <= i < items@.len() ==> keys@[i] as int == key(items@[i]),
    ensures
        r@ == sort_desc(items@, key),
{
    let ghost orig = items@;
    let mut items = items;
    let mut keys = keys;
    let mut out: Vec<T> = Vec::new();
    let mut out_keys: Vec<u128> = Vec::new();
    let n = items.len();
    let mut k: usize = 0;
    assert(orig.skip(0) =~= orig);
    assert(orig.take(0) =~= Seq::<T>::empty());
    while k < n
        invariant
            n == orig.len(),
            k <= n,
            items@ == orig.skip(k as int),
            keys@.len() == items@.len(),
            forall|i: int| 0 <= i < items@.len() ==> keys@[i] as int == key(items@[i]),
            out@ == sort_desc(orig.take(k as int), key),
            out_keys@.len() == out@.len(),
            forall|i: int| 0 <= i < out@.len() ==> out_keys@[i] as int == key(out@[i]),
        decreases n - k,
    {
        let x = items.remove(0);
        let kx = keys.remove(0);
        assert(x == orig[k as int]);
        let mut p: usize = 0;
        while p < out.len() && out_keys[p] >= kx
            invariant
                p <= out@.len(),
                out_keys@.len() == out@.len(),
                forall|i: int| 0 <= i < p ==> out_keys@[i] >= kx,
            decreases out@.len() - p,
        {
            p = p + 1;
        }
        proof {
            assert forall|i: int| 0 <= i < p implies key(out@[i]) >= key(x) by {
                assert(out_keys@[i] as int == key(out@[i]));
            }
            lemma_insert_at(out@, x, key, p as int);
            assert(orig.take(k + 1).drop_last() =~= orig.take(k as int));
            assert(orig.take(k + 1).last() == x);
        }
        let ghost before = out@;
        let ghost before_keys = out_keys@;
        out.insert(p, x);
        out_keys.insert(p, kx);
        proof {
            assert(out@ =~= before.take(p as int).push(x) + before.skip(p as int));
            assert forall|i: int| 0 <= i < out@.len() implies out_keys@[i] as int == key(out@[i]) by {
                if i < p {
                    assert(out@[i] == before[i]);
                    assert(out_keys@[i] == before_keys[i]);
                } else if i > p {
                    assert(out@[i] == before[i - 1]);
                    assert(out_keys@[i] == before_keys[i - 1]);
                }
            }
            assert(items@ =~= orig.skip(k + 1));
        }
        k = k + 1;
    }
    assert(orig.take(n as int) =~= orig);
    out
}

} // verus!
