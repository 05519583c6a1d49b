use vstd::prelude::*;
use dashmap::DashMap;
use crate::key::{is_valid_key, valid_key};

verus! {

#[verifier::external_type_specification]
#[verifier::external_body]
#[verifier::reject_recursive_types(K)]
#[verifier::reject_recursive_types(V)]
#[verifier::reject_recursive_types(S)]
pub struct ExDashMap<K, V, S>(DashMap<K, V, S>);

/// A concurrent map from string to string.
pub type StrMap = DashMap<String, String>;

/// The entries that a concurrent map of strings holds, by the strings' views.
pub uninterp spec fn dash_entries(m: StrMap) -> Map<Seq<char>, Seq<char>>;

/// Relies on `DashMap::new`: a new map holds no entry.
#[verifier::external_body]
fn dash_new() -> (r: StrMap)
    ensures
        dash_entries(r) == no_entries(),
{
    DashMap::new()
}

/// Relies on `DashMap::get`: the value stored under the key, if there is one.
#[verifier::external_body]
fn dash_get(m: &StrMap, k: &str) -> (r: Option<String>)
    ensures
        r.is_some() == dash_entries(*m).contains_key(k@),
        r.is_some() ==> r.unwrap()@ == dash_entries(*m)[k@],
{
    m.get(k).map(|e| e.value().clone())
}

/// Relies on `DashMap::insert`: inserts the entry, replacing any value that
/// the key had.
#[verifier::external_body]
fn dash_insert(m: &mut StrMap, k: String, v: String)
    ensures
        dash_entries(*final(m)) == dash_entries(*old(m)).insert(k@, v@),
{
    m.insert(k, v);
}

/// Relies on `DashMap::len`: the number of entries.
#[verifier::external_body]
fn dash_len(m: &StrMap) -> (r: usize)
    ensures
        r as nat == dash_entries(*m).dom().len(),
{
    m.len()
}

/// The store: the map from key to value that every lookup reads.
pub struct Store {
    map: StrMap,
}

impl View for Store {
    type V = Map<Seq<char>, Seq<char>>;

    closed spec fn view(&self) -> Map<Seq<char>, Seq<char>> {
        dash_entries(self.map)
    }
}

/// The map with no entry.
pub open spec fn no_entries() -> Map<Seq<char>, Seq<char>> {
    Map::empty()
}

/// Every key and every value of a store is a digit string, and there are
/// finitely many entries.
pub open spec fn store_ok(m: Map<Seq<char>, Seq<char>>) -> bool {
    &&& m.dom().finite()
    &&& forall|k: Seq<char>| #[trigger] m.contains_key(k) ==> valid_key(k) && valid_key(m[k])
}

impl Store {
    pub open spec fn wf(&self) -> bool {
        store_ok(self@)
    }

    /// An empty store.
    pub fn new() -> (r: Store)
        ensures
            r@ == no_entries(),
            r.wf(),
    {
        Store { map: dash_new() }
    }

    /// The value stored under `key`, if any.
    pub fn get(&self, key: &str) -> (r: Option<String>)
        ensures
            r.is_some() == self@.contains_key(key@),
            r.is_some() ==> r.unwrap()@ == self@[key@],
    {
        dash_get(&self.map, key)
    }

    /// Inserts or overwrites the entry for `key`.
    pub fn put(&mut self, key: String, value: String)
        requires
            old(self).wf(),
            valid_key(key@),
            valid_key(value@),
        ensures
            final(self)@ == old(self)@.insert(key@, value@),
            final(self).wf(),
    {
        dash_insert(&mut self.map, key, value);
    }

    /// The number of entries.
    pub fn size(&self) -> (r: usize)
        ensures
            r as nat == self@.dom().len(),
    {
        dash_len(&self.map)
    }
}

/// Inserts the pair when both sides are digit strings, and says whether it did.
pub fn update_cache(cache: &mut Store, key: String, value: String) -> (r: bool)
    requires
        old(cache).wf(),
    ensures
        r == (valid_key(key@) && valid_key(value@)),
        r ==> final(cache)@ == old(cache)@.insert(key@, value@),
        !r ==> final(cache)@ == old(cache)@,
        final(cache).wf(),
{
    if is_valid_key(key.as_str()) && is_valid_key(value.as_str()) {
        cache.put(key, value);
        true
    } else {
        false
    }
}

} // verus!
