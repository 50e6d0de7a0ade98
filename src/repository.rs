use vstd::prelude::*;

use crate::cache::{cache_key, cache_keys, key_of, lemma_key_of_injective};
use crate::collection::Collection;
use crate::ids::CollectionId;
use vstd::string::StringSliceAdditionalSpecFns;

verus! {

broadcast use vstd::seq_lib::group_seq_properties;

/// The snapshots among the cache's answers, in answer order.
pub open spec fn cache_hits(cached: Seq<Option<Collection>>) -> Seq<Collection> {
    cached.filter_map(|o: Option<Collection>| o)
}

/// Whether some snapshot in `found` is the collection `id`.
pub open spec fn is_served(found: Seq<Collection>, id: CollectionId) -> bool {
    exists|j: int| 0 <= j < found.len() && (#[trigger] found[j]).id == id
}

/// The requested ids that no snapshot in `found` answers, in request order.
pub open spec fn still_missing(ids: Seq<CollectionId>, found: Seq<Collection>) -> Seq<CollectionId> {
    ids.filter(|x: CollectionId| !is_served(found, x))
}

/// What the cache tier answers to a batched read of `ids`: for each id, the
/// snapshot cached under it, if any.
pub open spec fn cache_answer(ids: Seq<CollectionId>, cache: Map<CollectionId, Collection>) -> Seq<
    Option<Collection>,
> {
    ids.map_values(|k: CollectionId| if cache.contains_key(k) { Some(cache[k]) } else { None })
}

/// Every entry of a tier is stored under its own id.
pub open spec fn keyed_by_id(tier: Map<CollectionId, Collection>) -> bool {
    forall|k: CollectionId| #[trigger] tier.contains_key(k) ==> tier[k].id == k
}

/// `rows` is what the durable tier answers to a query for `wanted`: the
/// stored collections whose ids are wanted, in any order.
pub open spec fn answers_query(
    rows: Seq<Collection>,
    wanted: Seq<CollectionId>,
    durable: Map<CollectionId, Collection>,
) -> bool {
    forall|c: Collection| #[trigger]
        rows.contains(c) <==> exists|k: CollectionId|
            #[trigger] wanted.contains(k) && durable.contains_key(k) && durable[k] == c
}

/// Where a batched read takes the collection `k` from: the cache when it
/// holds `k`, else the durable tier.
pub open spec fn served_value(
    k: CollectionId,
    cache: Map<CollectionId, Collection>,
    durable: Map<CollectionId, Collection>,
    c: Collection,
) -> bool {
    if cache.contains_key(k) {
        cache[k] == c
    } else {
        durable.contains_key(k) && durable[k] == c
    }
}

proof fn lemma_hit_listed(cached: Seq<Option<Collection>>, i: int)
    requires
        0 <= i < cached.len(),
        cached[i] is Some,
    ensures
        cache_hits(cached).contains(cached[i]->Some_0),
    decreases cached.len(),
{
    let f = |o: Option<Collection>| o;
    let c = cached[i]->Some_0;
    if i == cached.len() - 1 {
        let rest = cached.drop_last().filter_map(f);
        assert(cache_hits(cached) == rest + seq![c]);
        assert((rest + seq![c])[rest.len() as int] == c);
    } else {
        lemma_hit_listed(cached.drop_last(), i);
        let rest = cached.drop_last().filter_map(f);
        let j = choose|j: int| 0 <= j < rest.len() && #[trigger] rest[j] == c;
        match f(cached.last()) {
            Some(x) => assert((rest + seq![x])[j] == c),
            None => {},
        }
    }
}

proof fn lemma_hits_from_cache(ids: Seq<CollectionId>, cache: Map<CollectionId, Collection>, c: Collection)
    ensures
        cache_hits(cache_answer(ids, cache)).contains(c) <==> exists|k: CollectionId|
            #[trigger] ids.contains(k) && cache.contains_key(k) && cache[k] == c,
{
    let answer = cache_answer(ids, cache);
    let f = |o: Option<Collection>| o;
    if cache_hits(answer).contains(c) {
        answer.lemma_filter_map_contains(f, c);
        let t = choose|t: Option<Collection>| #[trigger] answer.contains(t) && f(t) == Some(c);
        let i = choose|i: int| 0 <= i < answer.len() && #[trigger] answer[i] == t;
        assert(ids.contains(ids[i]));
    }
    if exists|k: CollectionId| #[trigger] ids.contains(k) && cache.contains_key(k) && cache[k] == c {
        let k = choose|k: CollectionId| #[trigger] ids.contains(k) && cache.contains_key(k) && cache[k] == c;
        let i = choose|i: int| 0 <= i < ids.len() && #[trigger] ids[i] == k;
        assert(answer[i] == Some(c));
        lemma_hit_listed(answer, i);
    }
}

/// A batched read returns, for each requested id, the snapshot that the
/// cache holds for it (even a stale one) and, for each requested id that the
/// cache lacks, the collection that the durable tier stores; nothing else.
/// Request order and repeated ids do not matter, and an id that neither
/// tier holds is absent from the result.
pub proof fn lemma_batch_read_sources(
    ids: Seq<CollectionId>,
    cache: Map<CollectionId, Collection>,
    durable: Map<CollectionId, Collection>,
    rows: Seq<Collection>,
)
    requires
        keyed_by_id(cache),
        answers_query(
            rows,
            still_missing(ids, cache_hits(cache_answer(ids, cache))),
            durable,
        ),
    ensures
        forall|c: Collection| #[trigger]
            (cache_hits(cache_answer(ids, cache)) + rows).contains(c) <==> exists|k: CollectionId|
                #[trigger] ids.contains(k) && served_value(k, cache, durable, c),
{
    let hits = cache_hits(cache_answer(ids, cache));
    let missing = still_missing(ids, hits);
    let pred = |x: CollectionId| !is_served(hits, x);
    assert forall|k: CollectionId| is_served(hits, k) <==> (ids.contains(k) && cache.contains_key(k)) by {
        if is_served(hits, k) {
            let j = choose|j: int| 0 <= j < hits.len() && (#[trigger] hits[j]).id == k;
            lemma_hits_from_cache(ids, cache, hits[j]);
            assert(hits.contains(hits[j]));
        }
        if ids.contains(k) && cache.contains_key(k) {
            lemma_hits_from_cache(ids, cache, cache[k]);
            let j = choose|j: int| 0 <= j < hits.len() && #[trigger] hits[j] == cache[k];
            assert(hits[j].id == k);
        }
    }
    assert forall|k: CollectionId| #[trigger] missing.contains(k) <==> (ids.contains(k) && !cache.contains_key(k)) by {
        if missing.contains(k) {
            ids.lemma_filter_contains_rev(pred, k);
            let j = choose|j: int| 0 <= j < missing.len() && #[trigger] missing[j] == k;
            ids.lemma_filter_pred(pred, j);
        }
        if ids.contains(k) && !cache.contains_key(k) {
            let i = choose|i: int| 0 <= i < ids.len() && #[trigger] ids[i] == k;
            ids.lemma_filter_contains(pred, i);
        }
    }
    assert forall|c: Collection| #[trigger]
        (hits + rows).contains(c) <==> exists|k: CollectionId|
            #[trigger] ids.contains(k) && served_value(k, cache, durable, c) by {
        lemma_hits_from_cache(ids, cache, c);
        if (hits + rows).contains(c) {
            let i = choose|i: int| 0 <= i < (hits + rows).len() && #[trigger] (hits + rows)[i] == c;
            if i < hits.len() {
                assert(hits.contains(c));
                let k = choose|k: CollectionId| #[trigger] ids.contains(k) && cache.contains_key(k) && cache[k] == c;
                assert(served_value(k, cache, durable, c));
            } else {
                assert(rows[i - hits.len()] == c);
                assert(rows.contains(c));
                let k = choose|k: CollectionId| #[trigger] missing.contains(k) && durable.contains_key(k) && durable[k] == c;
                assert(served_value(k, cache, durable, c));
            }
        }
        if exists|k: CollectionId| #[trigger] ids.contains(k) && served_value(k, cache, durable, c) {
            let k = choose|k: CollectionId| #[trigger] ids.contains(k) && served_value(k, cache, durable, c);
            if cache.contains_key(k) {
                let j = choose|j: int| 0 <= j < hits.len() && #[trigger] hits[j] == c;
                assert((hits + rows)[j] == c);
            } else {
                assert(missing.contains(k));
                assert(rows.contains(c));
                let j = choose|j: int| 0 <= j < rows.len() && #[trigger] rows[j] == c;
                assert((hits + rows)[hits.len() + j] == c);
            }
        }
    }
}

/// With nothing cached, a batched read returns exactly the requested
/// collections that the durable tier stores.
pub proof fn lemma_batch_read_full_miss(
    ids: Seq<CollectionId>,
    durable: Map<CollectionId, Collection>,
    rows: Seq<Collection>,
)
    requires
        answers_query(
            rows,
            still_missing(ids, cache_hits(cache_answer(ids, Map::empty()))),
            durable,
        ),
    ensures
        forall|c: Collection| #[trigger]
            (cache_hits(cache_answer(ids, Map::empty())) + rows).contains(c) <==> exists|k: CollectionId|
                #[trigger] ids.contains(k) && durable.contains_key(k) && durable[k] == c,
{
    let cache = Map::<CollectionId, Collection>::empty();
    lemma_batch_read_sources(ids, cache, durable, rows);
    assert forall|c: Collection| #[trigger]
        (cache_hits(cache_answer(ids, cache)) + rows).contains(c) <==> exists|k: CollectionId|
            #[trigger] ids.contains(k) && durable.contains_key(k) && durable[k] == c by {
        if exists|k: CollectionId| #[trigger] ids.contains(k) && durable.contains_key(k) && durable[k] == c {
            let k = choose|k: CollectionId| #[trigger] ids.contains(k) && durable.contains_key(k) && durable[k] == c;
            assert(served_value(k, cache, durable, c));
        }
    }
}

/// Deleting the key that a removal plans for `c` leaves no snapshot of `c`
/// under the key that a later read of it asks for, and leaves the entry of
/// every other collection as it was.
pub proof fn lemma_removal_invalidates(
    namespace: Seq<u8>,
    cache: Map<Seq<u8>, Collection>,
    c: Collection,
    other: CollectionId,
)
    ensures
        !cache.remove(key_of(namespace, c.id)).contains_key(key_of(namespace, c.id)),
        other != c.id ==> cache.remove(key_of(namespace, c.id)).contains_key(key_of(namespace, other))
            == cache.contains_key(key_of(namespace, other)),
{
    if other != c.id && key_of(namespace, c.id) == key_of(namespace, other) {
        lemma_key_of_injective(namespace, c.id, other);
    }
}

/// The durable deletes and the cache invalidation that removing a present
/// collection takes.
#[derive(Clone, Debug)]
pub struct RemovalPlan {
    pub id: CollectionId,
    pub cache_key: Vec<u8>,
}

fn is_found(found: &Vec<Collection>, id: CollectionId) -> (r: bool)
    ensures
        r == is_served(found@, id),
{
    let mut j: usize = 0;
    while j < found.len()
        invariant
            0 <= j <= found@.len(),
            forall|k: int| 0 <= k < j ==> (#[trigger] found@[k]).id != id,
        decreases found@.len() - j,
    {
        if found[j].id == id {
            return true;
        }
        j = j + 1;
    }
    false
}

impl Collection {
    /// The keys of one batched cache read for `ids`, or `None` when there is
    /// nothing to read and neither tier is to be asked.
    pub fn plan_cache_read(namespace: &str, ids: &Vec<CollectionId>) -> (r: Option<Vec<Vec<u8>>>)
        ensures
            r is None <==> ids@.len() == 0,
            r matches Some(keys) ==> keys@.len() == ids@.len() && forall|i: int|
                0 <= i < ids@.len() ==> (#[trigger] keys@[i])@ == key_of(namespace.spec_bytes(), ids@[i]),
    {
        if ids.len() == 0 {
            None
        } else {
            Some(cache_keys(namespace, ids))
        }
    }

    /// Splits the cache's answers to a batched read of `ids` (one per id, a
    /// snapshot that did not parse counting as absent) into the snapshots
    /// found and the ids that the durable tier must still supply.
    pub fn split_cache_hits(ids: &Vec<CollectionId>, cached: Vec<Option<Collection>>) -> (r: (
        Vec<Collection>,
        Vec<CollectionId>,
    ))
        ensures
            r.0@ == cache_hits(cached@),
            r.1@ == still_missing(ids@, r.0@),
    {
        let ghost answers = cached@;
        let mut found: Vec<Collection> = Vec::new();
        let mut k: usize = 0;
        let n = cached.len();
        let mut rest = cached;
        let mut tail: Vec<Option<Collection>> = Vec::new();
        // Taken from the back, so the answers are walked last to first.
        while rest.len() > 0
            invariant
                rest@.len() + tail@.len() == answers.len(),
                answers.len() == n,
                rest@ == answers.subrange(0, rest@.len() as int),
                tail@ == answers.subrange(rest@.len() as int, answers.len() as int).reverse(),
            decreases rest@.len(),
        {
            let o = rest.pop().unwrap();
            tail.push(o);
            proof {
                assert(tail@ =~= answers.subrange(rest@.len() as int, answers.len() as int).reverse());
                assert(rest@ =~= answers.subrange(0, rest@.len() as int));
            }
        }
        while tail.len() > 0
            invariant
                tail@.len() + k == answers.len(),
                answers.len() == n,
                tail@ == answers.subrange(k as int, answers.len() as int).reverse(),
                found@ == cache_hits(answers.subrange(0, k as int)),
            decreases tail@.len(),
        {
            let o = tail.pop().unwrap();
            proof {
                assert(o == answers[k as int]);
                assert(answers.subrange(0, k + 1).drop_last() =~= answers.subrange(0, k as int));
                assert(answers.subrange(0, k + 1).last() == o);
            }
            match o {
                Some(c) => found.push(c),
                None => {},
            }
            k = k + 1;
            proof {
                assert(tail@ =~= answers.subrange(k as int, answers.len() as int).reverse());
            }
        }
        assert(answers.subrange(0, k as int) =~= answers);
        let mut remaining: Vec<CollectionId> = Vec::new();
        let ghost pred = |x: CollectionId| !is_served(found@, x);
        let mut i: usize = 0;
        while i < ids.len()
            invariant
                0 <= i <= ids@.len(),
                pred == (|x: CollectionId| !is_served(found@, x)),
                remaining@ == ids@.subrange(0, i as int).filter(pred),
            decreases ids@.len() - i,
        {
            let id = ids[i];
            proof {
                reveal(Seq::filter);
                assert(ids@.subrange(0, i + 1).drop_last() =~= ids@.subrange(0, i as int));
            }
            if !is_found(&found, id) {
                remaining.push(id);
            }
            i = i + 1;
        }
        assert(ids@.subrange(0, ids@.len() as int) =~= ids@);
        (found, remaining)
    }

    /// The result of a batched read: the snapshots found in the cache
    /// followed by the collections fetched from the durable tier.
    pub fn merge_read(found: Vec<Collection>, fetched: Vec<Collection>) -> (r: Vec<Collection>)
        ensures
            r@ == found@ + fetched@,
    {
        let mut r = found;
        let mut f = fetched;
        r.append(&mut f);
        r
    }

    /// What removing a collection takes, given what a read of its id found:
    /// nothing when it is absent; otherwise its durable rows and its cache key.
    pub fn plan_removal(namespace: &str, existing: &Option<Collection>) -> (r: Option<RemovalPlan>)
        ensures
            r is None <==> existing is None,
            existing matches Some(c) ==> r matches Some(p) && p.id == c.id && p.cache_key@
                == key_of(namespace.spec_bytes(), c.id),
    {
        match existing {
            Some(c) => Some(RemovalPlan { id: c.id, cache_key: cache_key(namespace, c.id) }),
            None => None,
        }
    }
}

} // verus!
