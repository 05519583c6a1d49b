use vstd::prelude::*;
use crate::key::{contains_key, is_valid_key, valid_key, views};
use crate::registry::Registry;
use crate::store::Store;

verus! {

/// A key that a lookup must send upstream: well-formed, absent from the
/// store, and with no resolution in flight.
pub open spec fn needs_fetch(k: Seq<char>, store: Map<Seq<char>, Seq<char>>, in_flight: Set<Seq<char>>) -> bool {
    valid_key(k) && !store.contains_key(k) && !in_flight.contains(k)
}

/// The distinct keys of `ks` that need a fetch, in order of first request.
pub open spec fn fetch_keys(ks: Seq<Seq<char>>, store: Map<Seq<char>, Seq<char>>, in_flight: Set<Seq<char>>) -> Seq<Seq<char>>
    decreases ks.len(),
{
    if ks.len() == 0 {
        Seq::empty()
    } else {
        let before = fetch_keys(ks.drop_last(), store, in_flight);
        let k = ks.last();
        if needs_fetch(k, store, in_flight) && !ks.drop_last().contains(k) {
            before.push(k)
        } else {
            before
        }
    }
}

/// The store after an upstream reply to a fetch of `fetched`: each replied
/// pair whose key was fetched and whose key and value are digit strings is
/// written, later pairs overwriting earlier ones; the rest is ignored.
pub open spec fn backfill(
    store: Map<Seq<char>, Seq<char>>,
    fetched: Seq<Seq<char>>,
    reply: Seq<(Seq<char>, Seq<char>)>,
) -> Map<Seq<char>, Seq<char>>
    decreases reply.len(),
{
    if reply.len() == 0 {
        store
    } else {
        let before = backfill(store, fetched, reply.drop_last());
        let (k, v) = reply.last();
        if fetched.contains(k) && valid_key(k) && valid_key(v) {
            before.insert(k, v)
        } else {
            before
        }
    }
}

/// Whether the store resolves the requested key `k`.
pub open spec fn resolves(k: Seq<char>, store: Map<Seq<char>, Seq<char>>) -> bool {
    valid_key(k) && store.contains_key(k)
}

/// The found part of a result: each distinct requested key that the store
/// resolves, with its value, in order of first request.
pub open spec fn found_pairs(ks: Seq<Seq<char>>, store: Map<Seq<char>, Seq<char>>) -> Seq<(Seq<char>, Seq<char>)>
    decreases ks.len(),
{
    if ks.len() == 0 {
        Seq::empty()
    } else {
        let before = found_pairs(ks.drop_last(), store);
        let k = ks.last();
        if resolves(k, store) && !ks.drop_last().contains(k) {
            before.push((k, store[k]))
        } else {
            before
        }
    }
}

/// The missing part of a result: each distinct requested key that the store
/// does not resolve, in order of first request.
pub open spec fn missing_keys(ks: Seq<Seq<char>>, store: Map<Seq<char>, Seq<char>>) -> Seq<Seq<char>>
    decreases ks.len(),
{
    if ks.len() == 0 {
        Seq::empty()
    } else {
        let before = missing_keys(ks.drop_last(), store);
        let k = ks.last();
        if !resolves(k, store) && !ks.drop_last().contains(k) {
            before.push(k)
        } else {
            before
        }
    }
}

/// The views of a sequence of string pairs.
pub open spec fn pair_views(s: Seq<(String, String)>) -> Seq<(Seq<char>, Seq<char>)> {
    s.map_values(|p: (String, String)| (p.0@, p.1@))
}

/// The pairs of an upstream reply; a failed call resolves nothing.
pub open spec fn reply_pairs(reply: Option<Vec<(String, String)>>) -> Seq<(Seq<char>, Seq<char>)> {
    match reply {
        Some(v) => pair_views(v@),
        None => Seq::empty(),
    }
}

/// The outcome of a lookup of `keys`: the keys resolved, with their values,
/// and the keys that stay missing. Every distinct requested key is in exactly
/// one of the two.
pub struct LookupResult {
    pub found: Vec<(String, String)>,
    pub missing: Vec<String>,
}

/// Whether `keys[i]` was already requested before position `i`.
fn seen_before(keys: &Vec<String>, i: usize) -> (r: bool)
    requires
        i < keys.len(),
    ensures
        r == views(keys@).take(i as int).contains(keys@[i as int]@),
{
    let mut j: usize = 0;
    while j < i
        invariant
            i < keys.len(),
            j <= i,
            forall|t: int| 0 <= t < j ==> keys@[t]@ != keys@[i as int]@,
        decreases i - j,
    {
        if keys[j] == keys[i] {
            assert(views(keys@).take(i as int)[j as int] == keys@[i as int]@);
            return true;
        }
        j = j + 1;
    }
    proof {
        let pre = views(keys@).take(i as int);
        if pre.contains(keys@[i as int]@) {
            let t = choose|t: int| 0 <= t < pre.len() && pre[t] == keys@[i as int]@;
            assert(keys@[t]@ == keys@[i as int]@);
        }
    }
    false
}

/// Each key to fetch was requested and needs a fetch.
pub proof fn lemma_fetch_keys_needed(
    ks: Seq<Seq<char>>,
    store: Map<Seq<char>, Seq<char>>,
    in_flight: Set<Seq<char>>,
    x: Seq<char>,
)
    requires
        fetch_keys(ks, store, in_flight).contains(x),
    ensures
        ks.contains(x),
        needs_fetch(x, store, in_flight),
    decreases ks.len(),
{
    let before = fetch_keys(ks.drop_last(), store, in_flight);
    if before.contains(x) {
        lemma_fetch_keys_needed(ks.drop_last(), store, in_flight, x);
        let j = choose|j: int| 0 <= j < ks.drop_last().len() && ks.drop_last()[j] == x;
        assert(ks[j] == x);
    } else {
        assert(ks[ks.len() - 1] == x);
    }
}

/// Registers, for each distinct key of `keys` that needs a fetch, a
/// resolution in flight, and returns those keys: the lookup that calls this
/// is the one that must fetch them.
pub fn claim_misses(store: &Store, registry: &mut Registry, keys: &Vec<String>) -> (fetch: Vec<String>)
    ensures
        views(fetch@) == fetch_keys(views(keys@), store@, old(registry)@),
        final(registry)@ == old(registry)@.union(views(fetch@).to_set()),
{
    let ghost reg0 = registry@;
    let mut fetch: Vec<String> = Vec::new();
    let mut i: usize = 0;
    assert(registry@ =~= reg0.union(views(fetch@).to_set()));
    while i < keys.len()
        invariant
            i <= keys.len(),
            views(fetch@) == fetch_keys(views(keys@).take(i as int), store@, reg0),
            registry@ == reg0.union(views(fetch@).to_set()),
        decreases keys.len() - i,
    {
        let ghost ks = views(keys@);
        let ghost before = ks.take(i as int);
        assert(ks.take(i + 1).drop_last() =~= before);
        assert(ks.take(i + 1).last() == keys@[i as int]@);
        let k = &keys[i];
        if !seen_before(keys, i) && is_valid_key(k.as_str()) && store.get(k.as_str()).is_none() {
            proof {
                if views(fetch@).contains(k@) {
                    lemma_fetch_keys_needed(before, store@, reg0, k@);
                }
            }
            if !registry.is_in_flight(k) {
                let ghost f0 = views(fetch@);
                fetch.push(k.clone());
                registry.register(k.clone());
                assert(views(fetch@) =~= f0.push(k@));
                proof { f0.lemma_push_to_set_commute(k@); }
                assert(registry@ =~= reg0.union(views(fetch@).to_set()));
            }
        }
        i = i + 1;
    }
    assert(views(keys@).take(keys.len() as int) =~= views(keys@));
    fetch
}

/// Applies an upstream reply to a fetch of `fetched` (`None` when the call
/// failed): writes back what it resolved and retires the keys' resolutions.
pub fn apply_reply(
    store: &mut Store,
    registry: &mut Registry,
    fetched: &Vec<String>,
    reply: Option<Vec<(String, String)>>,
)
    requires
        old(store).wf(),
    ensures
        final(store)@ == backfill(old(store)@, views(fetched@), reply_pairs(reply)),
        final(registry)@ == old(registry)@.difference(views(fetched@).to_set()),
        final(store).wf(),
{
    let ghost s0 = store@;
    match reply {
        None => {},
        Some(pairs) => {
            let ghost ps = pair_views(pairs@);
            let mut i: usize = 0;
            while i < pairs.len()
                invariant
                    i <= pairs.len(),
                    ps == pair_views(pairs@),
                    store.wf(),
                    store@ == backfill(s0, views(fetched@), ps.take(i as int)),
                decreases pairs.len() - i,
            {
                assert(ps.take(i + 1).drop_last() =~= ps.take(i as int));
                assert(ps.take(i + 1).last() == (pairs@[i as int].0@, pairs@[i as int].1@));
                let (k, v) = &pairs[i];
                if contains_key(fetched, k) && is_valid_key(k.as_str()) && is_valid_key(v.as_str()) {
                    store.put(k.clone(), v.clone());
                }
                i = i + 1;
            }
            assert(ps.take(pairs.len() as int) =~= ps);
        },
    }
    registry.retire(fetched);
}

/// Sorts the distinct keys of `keys` into those that the store resolves, with
/// their values, and those it does not.
pub fn classify(store: &Store, keys: &Vec<String>) -> (r: LookupResult)
    ensures
        pair_views(r.found@) == found_pairs(views(keys@), store@),
        views(r.missing@) == missing_keys(views(keys@), store@),
{
    let mut found: Vec<(String, String)> = Vec::new();
    let mut missing: Vec<String> = Vec::new();
    let mut i: usize = 0;
    while i < keys.len()
        invariant
            i <= keys.len(),
            pair_views(found@) == found_pairs(views(keys@).take(i as int), store@),
            views(missing@) == missing_keys(views(keys@).take(i as int), store@),
        decreases keys.len() - i,
    {
        let ghost ks = views(keys@);
        assert(ks.take(i + 1).drop_last() =~= ks.take(i as int));
        assert(ks.take(i + 1).last() == keys@[i as int]@);
        let k = &keys[i];
        if !seen_before(keys, i) {
            let ghost f0 = pair_views(found@);
            let ghost m0 = views(missing@);
            let hit = if is_valid_key(k.as_str()) {
                store.get(k.as_str())
            } else {
                None
            };
            match hit {
                Some(v) => {
                    found.push((k.clone(), v));
                    assert(pair_views(found@) =~= f0.push((k@, store@[k@])));
                },
                None => {
                    missing.push(k.clone());
                    assert(views(missing@) =~= m0.push(k@));
                },
            }
        }
        i = i + 1;
    }
    assert(views(keys@).take(keys.len() as int) =~= views(keys@));
    LookupResult { found, missing }
}

} // verus!
