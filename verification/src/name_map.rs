//! A map from names to values, kept in a concurrent hash map of slots.
use vstd::hash_map::StringHashMap;
use vstd::prelude::*;

use crate::text::{owned, texts};

verus! {

/// The concurrent hash map of the `dashmap` crate.
#[verifier::external_type_specification]
#[verifier::external_body]
#[verifier::reject_recursive_types(K)]
#[verifier::reject_recursive_types(V)]
#[verifier::reject_recursive_types(S)]
pub struct ExDashMap<K, V, S>(dashmap::DashMap<K, V, S>);

/// The slot that a hash map holds for each name in it.
pub uninterp spec fn slots_by_name(m: dashmap::DashMap<String, usize>) -> Map<Seq<char>, usize>;

/// `DashMap::new`: a map without entries.
#[verifier::external_body]
fn index_new() -> (m: dashmap::DashMap<String, usize>)
    ensures
        (slots_by_name(m) == Map::<Seq<char>, usize>::empty()),
{
    dashmap::DashMap::new()
}

/// `DashMap::insert`: the name now has that slot, and no other name changes.
#[verifier::external_body]
fn index_insert(m: &mut dashmap::DashMap<String, usize>, name: String, slot: usize)
    ensures
        slots_by_name(*final(m)) == slots_by_name(*old(m)).insert(name@, slot),
{
    m.insert(name, slot);
}

/// `DashMap::get`: the slot of a name, where the map has the name.
#[verifier::external_body]
fn index_get(m: &dashmap::DashMap<String, usize>, name: &str) -> (r: Option<usize>)
    ensures
        r == (if slots_by_name(*m).contains_key(name@) {
            Some(slots_by_name(*m)[name@])
        } else {
            None
        }),
{
    m.get(name).map(|e| *e.value())
}

/// `DashMap::len`: the number of names in the map.
#[verifier::external_body]
fn index_len(m: &dashmap::DashMap<String, usize>) -> (n: usize)
    ensures
        n == slots_by_name(*m).dom().len(),
{
    m.len()
}

/// `DashMap::iter`, the keys of the entries: each name in the map once, in an
/// order that is left open.
#[verifier::external_body]
fn index_names(m: &dashmap::DashMap<String, usize>) -> (names: Vec<String>)
    ensures
        texts(names@).no_duplicates(),
        texts(names@).to_set() == slots_by_name(*m).dom(),
{
    m.iter().map(|e| e.key().clone()).collect()
}

/// A map from names to values.
pub struct NameMap<T> {
    index: dashmap::DashMap<String, usize>,
    slots: Vec<T>,
}

impl<T> View for NameMap<T> {
    type V = Map<Seq<char>, T>;

    closed spec fn view(&self) -> Map<Seq<char>, T> {
        slots_by_name(self.index).map_values(|slot: usize| self.slots@[slot as int])
    }
}

impl<T> NameMap<T> {
    /// Each name has a slot of its own.
    pub closed spec fn wf(&self) -> bool {
        let index = slots_by_name(self.index);
        &&& forall|k: Seq<char>| #[trigger] index.contains_key(k) ==> index[k] < self.slots@.len()
        &&& forall|j: Seq<char>, k: Seq<char>| #[trigger]
            index.contains_key(j) && #[trigger] index.contains_key(k) && j != k ==> index[j]
                != index[k]
    }

    /// A map without names.
    pub fn new() -> (r: NameMap<T>)
        ensures
            r.wf(),
            (r@ == Map::<Seq<char>, T>::empty()),
    {
        let r = NameMap { index: index_new(), slots: Vec::new() };
        proof {
            assert(r@ =~= Map::<Seq<char>, T>::empty());
        }
        r
    }

    /// The value of a name, where the map has the name.
    pub fn get(&self, name: &str) -> (r: Option<&T>)
        requires
            self.wf(),
        ensures
            r is Some == self@.contains_key(name@),
            r is Some ==> *r->0 == self@[name@],
    {
        match index_get(&self.index, name) {
            Some(slot) => Some(&self.slots[slot]),
            None => None,
        }
    }

    /// Gives a name a value, in place of the one it had.
    pub fn insert(&mut self, name: &str, value: T)
        requires
            old(self).wf(),
        ensures
            final(self).wf(),
            final(self)@ == old(self)@.insert(name@, value),
    {
        match index_get(&self.index, name) {
            Some(slot) => {
                self.slots.set(slot, value);
            },
            None => {
                let slot: usize = self.slots.len();
                self.slots.push(value);
                index_insert(&mut self.index, owned(name), slot);
            },
        }
        proof {
            assert(self@ =~= old(self)@.insert(name@, value));
        }
    }

    /// How many names the map has.
    pub fn len(&self) -> (n: usize)
        ensures
            n == self@.dom().len(),
    {
        proof {
            assert(self@.dom() =~= slots_by_name(self.index).dom());
        }
        index_len(&self.index)
    }

    /// The names, each once, in an order that is left open.
    pub fn names(&self) -> (names: Vec<String>)
        ensures
            texts(names@).no_duplicates(),
            texts(names@).to_set() == self@.dom(),
    {
        proof {
            assert(self@.dom() =~= slots_by_name(self.index).dom());
        }
        index_names(&self.index)
    }
}

/// A hash map with text keys.
#[verifier::reject_recursive_types(T)]
pub struct TextMap<T> {
    map: StringHashMap<T>,
}

impl<T> View for TextMap<T> {
    type V = Map<Seq<char>, T>;

    closed spec fn view(&self) -> Map<Seq<char>, T> {
        self.map@
    }
}

impl<T> TextMap<T> {
    /// A map without keys.
    pub fn new() -> (r: TextMap<T>)
        ensures
            (r@ == Map::<Seq<char>, T>::empty()),
    {
        TextMap { map: StringHashMap::new() }
    }

    /// Gives a key a value, in place of the one it had.
    pub fn insert(&mut self, key: &str, value: T)
        ensures
            final(self)@ == old(self)@.insert(key@, value),
    {
        self.map.insert(owned(key), value);
    }

    /// The value of a key, where the map has the key.
    pub fn get(&self, key: &str) -> (r: Option<&T>)
        ensures
            r is Some == self@.contains_key(key@),
            r is Some ==> *r->0 == self@[key@],
    {
        self.map.get(key)
    }
}

} // verus!
