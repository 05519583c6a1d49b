use vstd::prelude::*;
use crate::key::{contains_key, views};

verus! {

/// The keys whose upstream resolution is in flight. A key is registered by
/// the lookup that starts its resolution and retired when that resolution has
/// been applied, so that at most one resolution per key runs at a time.
pub struct Registry {
    keys: Vec<String>,
}

impl View for Registry {
    type V = Set<Seq<char>>;

    closed spec fn view(&self) -> Set<Seq<char>> {
        views(self.keys@).to_set()
    }
}

impl Registry {
    /// A registry with nothing in flight.
    pub fn new() -> (r: Registry)
        ensures
            r@ == Set::<Seq<char>>::empty(),
    {
        let r = Registry { keys: Vec::new() };
        assert(r@ =~= Set::<Seq<char>>::empty());
        r
    }

    /// Whether a resolution of `key` is in flight.
    pub fn is_in_flight(&self, key: &String) -> (r: bool)
        ensures
            r == self@.contains(key@),
    {
        contains_key(&self.keys, key)
    }

    /// Records that a resolution of `key` has started.
    pub fn register(&mut self, key: String)
        ensures
            final(self)@ == old(self)@.insert(key@),
    {
        let ghost k = key@;
        self.keys.push(key);
        assert(views(self.keys@) =~= views(old(self).keys@).push(k));
        assert(final(self)@ =~= old(self)@.insert(k)) by {
            assert forall|x: Seq<char>| final(self)@.contains(x) <==> old(self)@.insert(k).contains(x) by {
                if views(old(self).keys@).contains(x) {
                    let j = choose|j: int| 0 <= j < views(old(self).keys@).len() && views(old(self).keys@)[j] == x;
                    assert(views(self.keys@)[j] == x);
                }
                if views(self.keys@).contains(x) && x != k {
                    let j = choose|j: int| 0 <= j < views(self.keys@).len() && views(self.keys@)[j] == x;
                    assert(views(old(self).keys@)[j] == x);
                }
                assert(views(self.keys@)[views(self.keys@).len() - 1] == k);
            }
        }
    }

    /// Retires the resolutions of the keys in `done`.
    pub fn retire(&mut self, done: &Vec<String>)
        ensures
            final(self)@ == old(self)@.difference(views(done@).to_set()),
    {
        let ghost gone = views(done@).to_set();
        let mut kept: Vec<String> = Vec::new();
        let mut i: usize = 0;
        while i < self.keys.len()
            invariant
                i <= self.keys.len(),
                gone == views(done@).to_set(),
                forall|x: Seq<char>| #[trigger] views(kept@).contains(x) <==> (views(self.keys@).take(i as int).contains(x) && !gone.contains(x)),
            decreases self.keys.len() - i,
        {
            let ghost before = views(self.keys@).take(i as int);
            let ghost now = views(self.keys@).take(i + 1);
            let ghost kept0 = views(kept@);
            assert(now =~= before.push(self.keys@[i as int]@));
            assert(forall|x: Seq<char>| kept0.contains(x) <==> (before.contains(x) && !gone.contains(x)));
            let is_done = contains_key(done, &self.keys[i]);
            assert(is_done == gone.contains(self.keys@[i as int]@));
            if !is_done {
                kept.push(self.keys[i].clone());
                assert(views(kept@) =~= kept0.push(self.keys@[i as int]@));
            }
            assert forall|x: Seq<char>| #[trigger] views(kept@).contains(x) <==> (now.contains(x) && !gone.contains(x)) by {
                if now.contains(x) {
                    let j = choose|j: int| 0 <= j < now.len() && now[j] == x;
                    if j < before.len() {
                        assert(before[j] == x);
                    }
                }
                if before.contains(x) {
                    let j = choose|j: int| 0 <= j < before.len() && before[j] == x;
                    assert(now[j] == x);
                }
                if views(kept@).contains(x) {
                    let j = choose|j: int| 0 <= j < views(kept@).len() && views(kept@)[j] == x;
                    if j < kept0.len() {
                        assert(kept0[j] == x);
                    }
                }
                if kept0.contains(x) {
                    let j = choose|j: int| 0 <= j < kept0.len() && kept0[j] == x;
                    assert(views(kept@)[j] == x);
                }
                assert(now[i as int] == self.keys@[i as int]@);
                if !is_done {
                    assert(views(kept@)[kept0.len() as int] == self.keys@[i as int]@);
                }
            }
            i = i + 1;
        }
        assert(views(self.keys@).take(self.keys.len() as int) =~= views(self.keys@));
        self.keys = kept;
        assert(final(self)@ =~= old(self)@.difference(gone));
    }
}

} // verus!
