use vstd::prelude::*;
use crate::key::valid_key;
use crate::lookup::{backfill, fetch_keys, found_pairs, lemma_fetch_keys_needed, missing_keys, needs_fetch, resolves};
use crate::records::{lemma_record_round_trip, loaded, record_line};
use crate::service::lookup_store;
use crate::store::store_ok;

verus! {

/// A key that was requested and resolves is found, with the store's value.
pub proof fn lemma_found_has(ks: Seq<Seq<char>>, store: Map<Seq<char>, Seq<char>>, k: Seq<char>)
    requires
        ks.contains(k),
        resolves(k, store),
    ensures
        found_pairs(ks, store).contains((k, store[k])),
    decreases ks.len(),
{
    let pre = ks.drop_last();
    if pre.contains(k) {
        lemma_found_has(pre, store, k);
        let f = found_pairs(pre, store);
        let j = choose|j: int| 0 <= j < f.len() && f[j] == (k, store[k]);
        assert(found_pairs(ks, store)[j] == (k, store[k]));
    } else {
        assert(ks.last() == k) by {
            let j = choose|j: int| 0 <= j < ks.len() && ks[j] == k;
            if j < ks.len() - 1 {
                assert(pre[j] == k);
            }
        }
        let f = found_pairs(ks, store);
        assert(f[f.len() - 1] == (k, store[k]));
    }
}

/// A key that was requested and does not resolve is missing.
pub proof fn lemma_missing_has(ks: Seq<Seq<char>>, store: Map<Seq<char>, Seq<char>>, k: Seq<char>)
    requires
        ks.contains(k),
        !resolves(k, store),
    ensures
        missing_keys(ks, store).contains(k),
    decreases ks.len(),
{
    let pre = ks.drop_last();
    if pre.contains(k) {
        lemma_missing_has(pre, store, k);
        let m = missing_keys(pre, store);
        let j = choose|j: int| 0 <= j < m.len() && m[j] == k;
        assert(missing_keys(ks, store)[j] == k);
    } else {
        assert(ks.last() == k) by {
            let j = choose|j: int| 0 <= j < ks.len() && ks[j] == k;
            if j < ks.len() - 1 {
                assert(pre[j] == k);
            }
        }
        let m = missing_keys(ks, store);
        assert(m[m.len() - 1] == k);
    }
}

/// A requested key that needs a fetch is among the keys fetched.
pub proof fn lemma_fetch_has(ks: Seq<Seq<char>>, store: Map<Seq<char>, Seq<char>>, in_flight: Set<Seq<char>>, k: Seq<char>)
    requires
        ks.contains(k),
        needs_fetch(k, store, in_flight),
    ensures
        fetch_keys(ks, store, in_flight).contains(k),
    decreases ks.len(),
{
    let pre = ks.drop_last();
    if pre.contains(k) {
        lemma_fetch_has(pre, store, in_flight, k);
        let f = fetch_keys(pre, store, in_flight);
        let j = choose|j: int| 0 <= j < f.len() && f[j] == k;
        assert(fetch_keys(ks, store, in_flight)[j] == k);
    } else {
        assert(ks.last() == k) by {
            let j = choose|j: int| 0 <= j < ks.len() && ks[j] == k;
            if j < ks.len() - 1 {
                assert(pre[j] == k);
            }
        }
        let f = fetch_keys(ks, store, in_flight);
        assert(f[f.len() - 1] == k);
    }
}

/// A reply in which `k` is fetched and every pair for `k` carries `v`, one
/// of them at least, leaves `k` mapped to `v`.
pub proof fn lemma_backfill_writes(
    store: Map<Seq<char>, Seq<char>>,
    fetched: Seq<Seq<char>>,
    reply: Seq<(Seq<char>, Seq<char>)>,
    k: Seq<char>,
    v: Seq<char>,
)
    requires
        fetched.contains(k),
        valid_key(k),
        valid_key(v),
        reply.contains((k, v)),
        forall|j: int| 0 <= j < reply.len() && (#[trigger] reply[j]).0 == k ==> reply[j].1 == v,
    ensures
        backfill(store, fetched, reply).contains_key(k),
        backfill(store, fetched, reply)[k] == v,
    decreases reply.len(),
{
    let pre = reply.drop_last();
    if reply.last().0 != k {
        let j = choose|j: int| 0 <= j < reply.len() && reply[j] == (k, v);
        assert(pre[j] == (k, v));
        assert forall|t: int| 0 <= t < pre.len() && (#[trigger] pre[t]).0 == k implies pre[t].1 == v by {
            assert(reply[t] == pre[t]);
        }
        lemma_backfill_writes(store, fetched, pre, k, v);
    } else {
        assert(reply[reply.len() - 1].1 == v);
    }
}

/// A key that is not fetched keeps its entry through a backfill.
pub proof fn lemma_backfill_keeps(
    store: Map<Seq<char>, Seq<char>>,
    fetched: Seq<Seq<char>>,
    reply: Seq<(Seq<char>, Seq<char>)>,
    k: Seq<char>,
)
    requires
        !fetched.contains(k),
    ensures
        backfill(store, fetched, reply).contains_key(k) == store.contains_key(k),
        store.contains_key(k) ==> backfill(store, fetched, reply)[k] == store[k],
    decreases reply.len(),
{
    if reply.len() > 0 {
        lemma_backfill_keeps(store, fetched, reply.drop_last(), k);
    }
}

/// A key that no replied pair carries keeps its presence through a backfill.
pub proof fn lemma_backfill_skips(
    store: Map<Seq<char>, Seq<char>>,
    fetched: Seq<Seq<char>>,
    reply: Seq<(Seq<char>, Seq<char>)>,
    k: Seq<char>,
)
    requires
        forall|j: int| 0 <= j < reply.len() ==> (#[trigger] reply[j]).0 != k,
    ensures
        backfill(store, fetched, reply).contains_key(k) == store.contains_key(k),
        store.contains_key(k) ==> backfill(store, fetched, reply)[k] == store[k],
    decreases reply.len(),
{
    if reply.len() > 0 {
        let pre = reply.drop_last();
        assert forall|j: int| 0 <= j < pre.len() implies (#[trigger] pre[j]).0 != k by {
            assert(pre[j] == reply[j]);
        }
        assert(reply[reply.len() - 1].0 != k);
        lemma_backfill_skips(store, fetched, pre, k);
    }
}

/// A batch of a stored key `a`, an absent key `b` that upstream resolves to
/// `vb`, an absent key `c` that upstream does not resolve, and a malformed
/// key `d` finds `a` and `b` and reports `c` and `d` missing.
pub proof fn lemma_partial_resolution(
    store: Map<Seq<char>, Seq<char>>,
    in_flight: Set<Seq<char>>,
    a: Seq<char>,
    b: Seq<char>,
    c: Seq<char>,
    d: Seq<char>,
    vb: Seq<char>,
    reply: Seq<(Seq<char>, Seq<char>)>,
)
    requires
        store_ok(store),
        store.contains_key(a),
        valid_key(b),
        valid_key(c),
        b != c,
        !store.contains_key(b),
        !store.contains_key(c),
        !in_flight.contains(b),
        !in_flight.contains(c),
        !valid_key(d),
        valid_key(vb),
        reply.contains((b, vb)),
        forall|j: int| 0 <= j < reply.len() && (#[trigger] reply[j]).0 == b ==> reply[j].1 == vb,
        forall|j: int| 0 <= j < reply.len() ==> (#[trigger] reply[j]).0 != c,
    ensures
        found_pairs(seq![a, b, c, d], lookup_store(store, in_flight, seq![a, b, c, d], reply)) == seq![(a, store[a]), (b, vb)],
        missing_keys(seq![a, b, c, d], lookup_store(store, in_flight, seq![a, b, c, d], reply)) == seq![c, d],
{
    reveal_with_fuel(fetch_keys, 5);
    reveal_with_fuel(found_pairs, 5);
    reveal_with_fuel(missing_keys, 5);
    let ks = seq![a, b, c, d];
    let k3 = seq![a, b, c];
    let k2 = seq![a, b];
    let k1 = seq![a];
    let k0 = Seq::<Seq<char>>::empty();
    assert(ks.drop_last() =~= k3);
    assert(k3.drop_last() =~= k2);
    assert(k2.drop_last() =~= k1);
    assert(k1.drop_last() =~= k0);
    assert(valid_key(a));
    assert(a != b && a != c);
    assert(!k2.contains(c)) by {
        assert(k2[0] != c && k2[1] != c);
    }
    assert(!k3.contains(d)) by {
        assert(k3[0] != d && k3[1] != d && k3[2] != d);
    }
    let f = fetch_keys(ks, store, in_flight);
    assert(f =~= seq![b, c]);
    assert(!f.contains(a)) by {
        assert(f[0] != a && f[1] != a);
    }
    assert(f[0] == b);
    let after = backfill(store, f, reply);
    lemma_backfill_keeps(store, f, reply, a);
    lemma_backfill_writes(store, f, reply, b, vb);
    lemma_backfill_skips(store, f, reply, c);
    assert(found_pairs(ks, after) =~= seq![(a, store[a]), (b, vb)]);
    assert(missing_keys(ks, after) =~= seq![c, d]);
}

/// A key with a non-digit character, or an empty one, is reported missing on
/// its own, is never fetched upstream, and leaves the store as it was,
/// whatever upstream would answer.
pub proof fn lemma_malformed_key_missing(
    store: Map<Seq<char>, Seq<char>>,
    in_flight: Set<Seq<char>>,
    k: Seq<char>,
    reply: Seq<(Seq<char>, Seq<char>)>,
)
    requires
        !valid_key(k),
    ensures
        fetch_keys(seq![k], store, in_flight) == Seq::<Seq<char>>::empty(),
        lookup_store(store, in_flight, seq![k], reply) == store,
        found_pairs(seq![k], lookup_store(store, in_flight, seq![k], reply)) == Seq::<(Seq<char>, Seq<char>)>::empty(),
        missing_keys(seq![k], lookup_store(store, in_flight, seq![k], reply)) == seq![k],
{
    reveal_with_fuel(fetch_keys, 2);
    reveal_with_fuel(found_pairs, 2);
    reveal_with_fuel(missing_keys, 2);
    let ks = seq![k];
    assert(ks.drop_last() =~= Seq::<Seq<char>>::empty());
    assert(ks.last() == k);
    let f = fetch_keys(ks, store, in_flight);
    assert(f =~= Seq::<Seq<char>>::empty());
    lemma_backfill_keeps(store, f, reply, k);
    lemma_backfill_unchanged(store, f, reply);
    assert(missing_keys(ks, store) =~= seq![k]);
    assert(found_pairs(ks, store) =~= Seq::<(Seq<char>, Seq<char>)>::empty());
}

/// A backfill after an empty fetch changes nothing.
pub proof fn lemma_backfill_unchanged(
    store: Map<Seq<char>, Seq<char>>,
    fetched: Seq<Seq<char>>,
    reply: Seq<(Seq<char>, Seq<char>)>,
)
    requires
        fetched.len() == 0 || reply.len() == 0,
    ensures
        backfill(store, fetched, reply) == store,
    decreases reply.len(),
{
    if reply.len() > 0 {
        lemma_backfill_unchanged(store, fetched, reply.drop_last());
    }
}

/// A stored pair is found on its own, with nothing missing and nothing fetched.
pub proof fn lemma_stored_key_found(
    store: Map<Seq<char>, Seq<char>>,
    in_flight: Set<Seq<char>>,
    k: Seq<char>,
    reply: Seq<(Seq<char>, Seq<char>)>,
)
    requires
        store_ok(store),
        store.contains_key(k),
    ensures
        fetch_keys(seq![k], store, in_flight) == Seq::<Seq<char>>::empty(),
        lookup_store(store, in_flight, seq![k], reply) == store,
        found_pairs(seq![k], store) == seq![(k, store[k])],
        missing_keys(seq![k], store) == Seq::<Seq<char>>::empty(),
{
    reveal_with_fuel(fetch_keys, 2);
    reveal_with_fuel(found_pairs, 2);
    reveal_with_fuel(missing_keys, 2);
    let ks = seq![k];
    assert(ks.drop_last() =~= Seq::<Seq<char>>::empty());
    assert(ks.last() == k);
    let f = fetch_keys(ks, store, in_flight);
    assert(f =~= Seq::<Seq<char>>::empty());
    lemma_backfill_unchanged(store, f, reply);
    assert(found_pairs(ks, store) =~= seq![(k, store[k])]);
    assert(missing_keys(ks, store) =~= Seq::<Seq<char>>::empty());
}

/// Putting the same pair twice leaves the store as putting it once, mapping
/// the key to the value, so any later lookup sees no difference.
pub proof fn lemma_put_twice(
    store: Map<Seq<char>, Seq<char>>,
    in_flight: Set<Seq<char>>,
    k: Seq<char>,
    v: Seq<char>,
    ks: Seq<Seq<char>>,
    reply: Seq<(Seq<char>, Seq<char>)>,
)
    ensures
        store.insert(k, v).insert(k, v) == store.insert(k, v),
        store.insert(k, v).insert(k, v)[k] == v,
        lookup_store(store.insert(k, v).insert(k, v), in_flight, ks, reply) == lookup_store(store.insert(k, v), in_flight, ks, reply),
{
    assert(store.insert(k, v).insert(k, v) =~= store.insert(k, v));
}

/// The keys in flight after a run of lookups of `batches`, in that order,
/// none of which has completed yet.
pub open spec fn in_flight_after(
    store: Map<Seq<char>, Seq<char>>,
    in_flight: Set<Seq<char>>,
    batches: Seq<Seq<Seq<char>>>,
) -> Set<Seq<char>>
    decreases batches.len(),
{
    if batches.len() == 0 {
        in_flight
    } else {
        let before = in_flight_after(store, in_flight, batches.drop_last());
        before.union(fetch_keys(batches.last(), store, before).to_set())
    }
}

/// What the lookup of `batches[i]` fetches, after the lookups before it in
/// the run have started.
pub open spec fn fetched_by(
    store: Map<Seq<char>, Seq<char>>,
    in_flight: Set<Seq<char>>,
    batches: Seq<Seq<Seq<char>>>,
    i: int,
) -> Seq<Seq<char>> {
    fetch_keys(batches[i], store, in_flight_after(store, in_flight, batches.take(i)))
}

proof fn lemma_in_flight_grows(
    store: Map<Seq<char>, Seq<char>>,
    in_flight: Set<Seq<char>>,
    batches: Seq<Seq<Seq<char>>>,
    i: int,
    k: Seq<char>,
)
    requires
        1 <= i <= batches.len(),
        in_flight_after(store, in_flight, batches.take(1)).contains(k),
    ensures
        in_flight_after(store, in_flight, batches.take(i)).contains(k),
    decreases i,
{
    if i > 1 {
        lemma_in_flight_grows(store, in_flight, batches, i - 1, k);
        assert(batches.take(i).drop_last() =~= batches.take(i - 1));
    }
}

/// When several lookups that all request the same absent, well-formed key
/// overlap, only the first of them fetches it: the key is fetched exactly
/// once over the run.
pub proof fn lemma_single_fetch(
    store: Map<Seq<char>, Seq<char>>,
    in_flight: Set<Seq<char>>,
    batches: Seq<Seq<Seq<char>>>,
    k: Seq<char>,
)
    requires
        batches.len() > 0,
        valid_key(k),
        !store.contains_key(k),
        !in_flight.contains(k),
        forall|i: int| 0 <= i < batches.len() ==> (#[trigger] batches[i]).contains(k),
    ensures
        fetched_by(store, in_flight, batches, 0).contains(k),
        forall|i: int| 0 < i < batches.len() ==> !(#[trigger] fetched_by(store, in_flight, batches, i)).contains(k),
{
    reveal_with_fuel(in_flight_after, 2);
    assert(batches.take(0) =~= Seq::<Seq<Seq<char>>>::empty());
    assert(batches[0].contains(k));
    lemma_fetch_has(batches[0], store, in_flight, k);
    let f0 = fetch_keys(batches[0], store, in_flight);
    assert(batches.take(1).drop_last() =~= batches.take(0));
    assert(batches.take(1).last() == batches[0]);
    assert(f0.to_set().contains(k));
    assert(in_flight_after(store, in_flight, batches.take(1)).contains(k));
    assert forall|i: int| 0 < i < batches.len() implies !(#[trigger] fetched_by(store, in_flight, batches, i)).contains(k) by {
        let r = in_flight_after(store, in_flight, batches.take(i));
        lemma_in_flight_grows(store, in_flight, batches, i, k);
        if fetch_keys(batches[i], store, r).contains(k) {
            lemma_fetch_keys_needed(batches[i], store, r, k);
        }
    }
}

/// Once the reply to the one fetch of `k` is applied, every lookup that
/// requested `k` and waited for it finds the same value `v`.
pub proof fn lemma_waiters_agree(
    store: Map<Seq<char>, Seq<char>>,
    fetched: Seq<Seq<char>>,
    reply: Seq<(Seq<char>, Seq<char>)>,
    batches: Seq<Seq<Seq<char>>>,
    k: Seq<char>,
    v: Seq<char>,
)
    requires
        fetched.contains(k),
        valid_key(k),
        valid_key(v),
        reply.contains((k, v)),
        forall|j: int| 0 <= j < reply.len() && (#[trigger] reply[j]).0 == k ==> reply[j].1 == v,
        forall|i: int| 0 <= i < batches.len() ==> (#[trigger] batches[i]).contains(k),
    ensures
        forall|i: int| 0 <= i < batches.len() ==> (#[trigger] found_pairs(batches[i], backfill(store, fetched, reply))).contains((k, v)),
{
    let after = backfill(store, fetched, reply);
    lemma_backfill_writes(store, fetched, reply, k, v);
    assert forall|i: int| 0 <= i < batches.len() implies (#[trigger] found_pairs(batches[i], after)).contains((k, v)) by {
        lemma_found_has(batches[i], after, k);
    }
}

/// When the upstream call fails, the lookup still answers: the store is
/// unchanged, every key it had to fetch is missing, and what the store holds
/// is found.
pub proof fn lemma_upstream_failure(
    store: Map<Seq<char>, Seq<char>>,
    in_flight: Set<Seq<char>>,
    ks: Seq<Seq<char>>,
)
    ensures
        lookup_store(store, in_flight, ks, Seq::empty()) == store,
        forall|x: Seq<char>| #[trigger] fetch_keys(ks, store, in_flight).contains(x) ==> missing_keys(ks, store).contains(x),
        forall|x: Seq<char>| ks.contains(x) && resolves(x, store) ==> #[trigger] found_pairs(ks, store).contains((x, store[x])),
{
    lemma_backfill_unchanged(store, fetch_keys(ks, store, in_flight), Seq::empty());
    assert forall|x: Seq<char>| #[trigger] fetch_keys(ks, store, in_flight).contains(x) implies missing_keys(ks, store).contains(x) by {
        lemma_fetch_keys_needed(ks, store, in_flight, x);
        lemma_missing_has(ks, store, x);
    }
    assert forall|x: Seq<char>| ks.contains(x) && resolves(x, store) implies #[trigger] found_pairs(ks, store).contains((x, store[x])) by {
        lemma_found_has(ks, store, x);
    }
}

/// A pair whose key and value are digit strings, loaded as the last line of
/// the bootstrap, is found by a lookup of its key.
pub proof fn lemma_bootstrap_round_trip(
    m: Map<Seq<char>, Seq<char>>,
    lines: Seq<Seq<char>>,
    k: Seq<char>,
    v: Seq<char>,
)
    requires
        valid_key(k),
        valid_key(v),
    ensures
        loaded(m, lines.push(record_line(k, v))).contains_key(k),
        loaded(m, lines.push(record_line(k, v)))[k] == v,
        found_pairs(seq![k], loaded(m, lines.push(record_line(k, v)))) == seq![(k, v)],
        missing_keys(seq![k], loaded(m, lines.push(record_line(k, v)))) == Seq::<Seq<char>>::empty(),
{
    reveal_with_fuel(found_pairs, 2);
    reveal_with_fuel(missing_keys, 2);
    lemma_record_round_trip(k, v);
    let ls = lines.push(record_line(k, v));
    assert(ls.drop_last() =~= lines);
    let after = loaded(m, ls);
    let ks = seq![k];
    assert(ks.drop_last() =~= Seq::<Seq<char>>::empty());
    assert(found_pairs(ks, after) =~= seq![(k, v)]);
    assert(missing_keys(ks, after) =~= Seq::<Seq<char>>::empty());
}

} // verus!
