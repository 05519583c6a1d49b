use vstd::prelude::*;
use crate::key::{valid_key, views};
use crate::lookup::{
    apply_reply, backfill, claim_misses, classify, fetch_keys, found_pairs, lemma_fetch_keys_needed,
    missing_keys, pair_views, reply_pairs, LookupResult,
};
use crate::registry::Registry;
use crate::store::{store_ok, update_cache, Store};

verus! {

/// The store after a lookup of `ks` that fetched what it had to and got
/// `reply` back from upstream.
pub open spec fn lookup_store(
    store: Map<Seq<char>, Seq<char>>,
    in_flight: Set<Seq<char>>,
    ks: Seq<Seq<char>>,
    reply: Seq<(Seq<char>, Seq<char>)>,
) -> Map<Seq<char>, Seq<char>> {
    backfill(store, fetch_keys(ks, store, in_flight), reply)
}

/// The lookup service that both front-ends share: the store, and the
/// resolutions in flight.
pub struct CacheGrpcService {
    cache: Store,
    registry: Registry,
}

impl CacheGrpcService {
    /// The store's entries.
    pub closed spec fn entries(&self) -> Map<Seq<char>, Seq<char>> {
        self.cache@
    }

    /// The keys whose resolution is in flight.
    pub closed spec fn in_flight(&self) -> Set<Seq<char>> {
        self.registry@
    }

    pub open spec fn wf(&self) -> bool {
        store_ok(self.entries())
    }

    /// A service over `cache`, with nothing in flight.
    pub fn new(cache: Store) -> (r: Self)
        requires
            cache.wf(),
        ensures
            r.entries() == cache@,
            r.in_flight() == Set::<Seq<char>>::empty(),
            r.wf(),
    {
        CacheGrpcService { cache, registry: Registry::new() }
    }

    /// First phase of a lookup: registers the keys of `keys` that this lookup
    /// must fetch upstream and returns them. The other absent keys are either
    /// malformed or already being resolved by another lookup.
    pub fn begin(&mut self, keys: &Vec<String>) -> (fetch: Vec<String>)
        ensures
            views(fetch@) == fetch_keys(views(keys@), old(self).entries(), old(self).in_flight()),
            final(self).in_flight() == old(self).in_flight().union(views(fetch@).to_set()),
            final(self).entries() == old(self).entries(),
    {
        claim_misses(&self.cache, &mut self.registry, keys)
    }

    /// Second phase: applies the upstream reply to the fetch of `fetched`
    /// (`None` when the call failed) and ends those resolutions.
    pub fn complete(&mut self, fetched: &Vec<String>, reply: Option<Vec<(String, String)>>)
        requires
            old(self).wf(),
        ensures
            final(self).entries() == backfill(old(self).entries(), views(fetched@), reply_pairs(reply)),
            final(self).in_flight() == old(self).in_flight().difference(views(fetched@).to_set()),
            final(self).wf(),
    {
        apply_reply(&mut self.cache, &mut self.registry, fetched, reply);
    }

    /// Whether a resolution of some key of `keys` is still in flight.
    pub fn waiting_on(&self, keys: &Vec<String>) -> (r: bool)
        ensures
            r == exists|i: int| 0 <= i < keys.len() && self.in_flight().contains(#[trigger] keys@[i]@),
    {
        let mut i: usize = 0;
        while i < keys.len()
            invariant
                i <= keys.len(),
                forall|j: int| 0 <= j < i ==> !self.in_flight().contains(#[trigger] keys@[j]@),
            decreases keys.len() - i,
        {
            if self.registry.is_in_flight(&keys[i]) {
                return true;
            }
            i = i + 1;
        }
        false
    }

    /// Last phase: the result of the lookup of `keys` against the store.
    pub fn finish(&self, keys: &Vec<String>) -> (r: LookupResult)
        ensures
            pair_views(r.found@) == found_pairs(views(keys@), self.entries()),
            views(r.missing@) == missing_keys(views(keys@), self.entries()),
    {
        classify(&self.cache, keys)
    }

    /// A whole lookup of `keys`, where `reply` is what upstream answered to
    /// the fetch of the keys that this lookup had to fetch (`None` when the
    /// call failed). Keys that another lookup is resolving stay missing here.
    pub fn lookup(&mut self, keys: &Vec<String>, reply: Option<Vec<(String, String)>>) -> (r: LookupResult)
        requires
            old(self).wf(),
        ensures
            final(self).entries() == lookup_store(old(self).entries(), old(self).in_flight(), views(keys@), reply_pairs(reply)),
            final(self).in_flight() == old(self).in_flight(),
            pair_views(r.found@) == found_pairs(views(keys@), final(self).entries()),
            views(r.missing@) == missing_keys(views(keys@), final(self).entries()),
            final(self).wf(),
    {
        let ghost s0 = self.entries();
        let ghost r0 = self.in_flight();
        let fetch = self.begin(keys);
        self.complete(&fetch, reply);
        proof {
            assert forall|x: Seq<char>| #[trigger] views(fetch@).to_set().contains(x) implies !r0.contains(x) by {
                lemma_fetch_keys_needed(views(keys@), s0, r0, x);
            }
            assert(self.in_flight() =~= r0);
        }
        self.finish(keys)
    }

    /// Writes the pair into the store when both sides are digit strings, and
    /// says whether it did.
    pub fn update(&mut self, key: String, value: String) -> (r: bool)
        requires
            old(self).wf(),
        ensures
            r == (valid_key(key@) && valid_key(value@)),
            r ==> final(self).entries() == old(self).entries().insert(key@, value@),
            !r ==> final(self).entries() == old(self).entries(),
            final(self).in_flight() == old(self).in_flight(),
            final(self).wf(),
    {
        update_cache(&mut self.cache, key, value)
    }

    /// The number of entries in the store.
    pub fn size(&self) -> (r: usize)
        ensures
            r as nat == self.entries().dom().len(),
    {
        self.cache.size()
    }
}

} // verus!
