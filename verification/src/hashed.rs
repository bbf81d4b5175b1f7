//! Sets and maps that hash their keys.
use crate::checked::{
    checked_add_entries_in_order, checked_add_in_order, checked_around_first,
    checked_estimate_of_sum, MallocCheckedShallowSizeOf, MallocCheckedSizeOf,
};
use crate::measurement::Measurement;
use crate::ops::MallocSizeOfOps;
use crate::order::{
    add_entries_in_order, add_in_order, advance, around_first, collect,
    in_some_order, lemma_first_of_all, lemma_in_order_first_fits, measure_around_first,
};
use crate::traits::{MallocShallowSizeOf, MallocSizeOf};
use crate::walk::{estimate_of_sum, interior_pointers, measure_estimate, value_behind};
use std::collections::{HashMap, HashSet};
use std::hash::{BuildHasher, Hash};
use std::mem::size_of;
use vstd::prelude::*;
use vstd::std_specs::hash::{
    builds_valid_hashers, obeys_key_model, spec_hash_keys_iter, spec_hash_map_iter,
    spec_values_iter,
};
use vstd::std_specs::iter::IteratorSpec;

verus! {

/// Sets and maps with keys of type `K` and hashers of type `S` behave as such.
pub open spec fn hashes_well<K: ?Sized, S: ?Sized>() -> bool {
    obeys_key_model::<K>() && builds_valid_hashers::<S>()
}

/// The item that a walk over `set` meets first.
fn first_of_set<T, S>(set: &HashSet<T, S>) -> (first: Option<&T>)
    ensures
        hashes_well::<T, S>() ==> match first {
            Some(item) => {
                &&& set@.contains(*item)
                &&& item == spec_hash_keys_iter(set).remaining()[0]
            },
            None => set@ =~= Set::empty(),
        },
{
    broadcast use vstd::std_specs::hash::group_hash_axioms;

    let mut items = set.iter();
    proof {
        lemma_first_of_all(items.remaining().unref());
    }
    advance(&mut items)
}

/// The items that a walk over `set` may meet first.
pub closed spec fn set_firsts<T, S>(set: &HashSet<T, S>) -> spec_fn(Option<T>) -> bool {
    |first: Option<T>|
        exists|item: Option<&T>| #[trigger]
            call_ensures(first_of_set::<T, S>, (set,), item) && value_behind(item) == first
}

/// The items of `set`, in the order in which a walk over it meets them.
fn items_of_set<T, S>(set: &HashSet<T, S>) -> (items: Vec<&T>)
    ensures
        hashes_well::<T, S>() ==> {
            &&& items@.unref().no_duplicates()
            &&& items@.unref().to_set() == set@
            &&& items@ == spec_hash_keys_iter(set).remaining()
        },
{
    broadcast use vstd::std_specs::hash::group_hash_axioms;

    collect(set.iter(), set.len())
}

/// The orders in which a walk over `set` may meet its items.
pub closed spec fn set_orders<T, S>(set: &HashSet<T, S>) -> spec_fn(Seq<T>) -> bool {
    |order: Seq<T>|
        exists|items: Vec<&T>| #[trigger]
            call_ensures(items_of_set::<T, S>, (set,), items) && items@.unref() == order
}

/// A walk over a set meets each of its items once, and starts with the one that is
/// found first. There is room for all of them.
pub proof fn lemma_set_walk<T, S>(set: &HashSet<T, S>)
    requires
        hashes_well::<T, S>(),
    ensures
        forall|order: Seq<T>| #[trigger]
            set_orders(set)(order) ==> order.no_duplicates() && order.to_set() == set@,
        forall|first: Option<T>| #[trigger]
            set_firsts(set)(first) ==> match first {
                Some(item) => set@.contains(item),
                None => set@ == Set::<T>::empty(),
            },
        forall|order: Seq<T>, first: Option<T>| #[trigger]
            set_orders(set)(order) && #[trigger] set_firsts(set)(first) ==> match first {
                Some(item) => order.len() > 0 && order[0] == item,
                None => order.len() == 0,
            },
        forall|count: usize| #[trigger] set_capacities(set)(count) ==> count >= set@.len(),
{
}

/// The capacity of a set: `HashSet::capacity`.
///
/// A set can hold the items that it holds. How many more fit without a new
/// allocation is the table's choice, and nothing more is said of it.
#[verifier::external_body]
fn set_capacity<T, S>(set: &HashSet<T, S>) -> (count: usize)
    ensures
        (count >= set@.len() || !hashes_well::<T, S>()),
{
    set.capacity()
}

/// The capacities that `set` may have.
pub closed spec fn set_capacities<T, S>(set: &HashSet<T, S>) -> spec_fn(usize) -> bool {
    |count: usize| call_ensures(set_capacity::<T, S>, (set,), count)
}

impl<T: Eq + Hash, S: BuildHasher> MallocShallowSizeOf for HashSet<T, S> {
    /// The first item is an interior pointer: all items and hashes are assumed
    /// to lie in a single heap allocation. No memory is assumed to be allocated
    /// while the set is empty.
    open spec fn shallow_measurement(&self) -> Measurement {
        Measurement::when(
            interior_pointers(),
            around_first(set_firsts(self)),
            estimate_of_sum(
                set_capacities(self),
                vstd::layout::size_of::<T>() + vstd::layout::size_of::<usize>(),
            ),
        )
    }

    fn shallow_size_of(&self, ops: &mut MallocSizeOfOps) -> (n: usize) {
        if ops.has_malloc_enclosing_size_of() {
            measure_around_first(first_of_set(self), ops, Ghost(set_firsts(self)))
        } else {
            let count = set_capacity(self);
            let unit: usize = size_of::<T>() + size_of::<usize>();
            measure_estimate(count, unit, ops, Ghost(set_capacities(self)))
        }
    }
}

impl<T: Eq + Hash, S: BuildHasher> MallocCheckedShallowSizeOf for HashSet<T, S> {
    fn checked_shallow_size_of(&self, ops: &mut MallocSizeOfOps) -> (n: Option<usize>) {
        if ops.has_malloc_enclosing_size_of() {
            let first = first_of_set(self);
            checked_around_first(first, ops, Ghost(set_firsts(self)))
        } else {
            let count = set_capacity(self);
            checked_estimate_of_sum(
                count,
                size_of::<T>(),
                size_of::<usize>(),
                0,
                ops,
                Ghost(set_capacities(self)),
            )
        }
    }
}

impl<T: Eq + Hash + MallocSizeOf, S: BuildHasher> MallocSizeOf for HashSet<T, S> {
    open spec fn measurement(&self) -> Measurement {
        in_some_order(self.shallow_measurement(), set_orders(self))
    }

    fn size_of(&self, ops: &mut MallocSizeOfOps) -> (n: usize) {
        let ghost origin = ops@;
        let ghost shallow = self.shallow_measurement();
        let ghost orders = set_orders(self);
        let items = items_of_set(self);
        assert(orders(items@.unref()));
        proof {
            lemma_in_order_first_fits(shallow, orders, items@.unref(), origin);
        }
        let n = self.shallow_size_of(ops);
        add_in_order(n, items.as_slice(), ops, Ghost(shallow), Ghost(orders), Ghost(origin))
    }
}

impl<T: Eq + Hash + MallocCheckedSizeOf, S: BuildHasher> MallocCheckedSizeOf for HashSet<T, S> {
    fn checked_size_of(&self, ops: &mut MallocSizeOfOps) -> (n: Option<usize>) {
        let ghost origin = ops@;
        let ghost shallow = self.shallow_measurement();
        let ghost orders = set_orders(self);
        let items = items_of_set(self);
        assert(orders(items@.unref()));
        let n = self.checked_shallow_size_of(ops);
        checked_add_in_order(
            n,
            items.as_slice(),
            ops,
            Ghost(shallow),
            Ghost(orders),
            Ghost(origin),
        )
    }
}

/// The value that a walk over `map` meets first.
fn first_value_of_map<K, V, S>(map: &HashMap<K, V, S>) -> (first: Option<&V>)
    ensures
        hashes_well::<K, S>() ==> match first {
            Some(value) => {
                &&& map@.values().contains(*value)
                &&& value == spec_values_iter(map).remaining()[0]
            },
            None => map@.values() =~= Set::empty(),
        },
{
    broadcast use vstd::std_specs::hash::group_hash_axioms;

    let mut values = map.values();
    proof {
        lemma_first_of_all(values.remaining().unref());
    }
    advance(&mut values)
}

/// The values that a walk over `map` may meet first.
pub closed spec fn map_firsts<K, V, S>(map: &HashMap<K, V, S>) -> spec_fn(Option<V>) -> bool {
    |first: Option<V>|
        exists|value: Option<&V>| #[trigger]
            call_ensures(first_value_of_map::<K, V, S>, (map,), value) && value_behind(value)
                == first
}

/// The entries of `map`, in the order in which a walk over it meets them.
fn entries_of_map<K, V, S>(map: &HashMap<K, V, S>) -> (entries: Vec<(&K, &V)>)
    ensures
        hashes_well::<K, S>() ==> {
            &&& entries@.unref().no_duplicates()
            &&& entries@.unref().to_set() == map@.kv_pairs()
            &&& entries@ == spec_hash_map_iter(map).remaining()
        },
{
    broadcast use vstd::std_specs::hash::group_hash_axioms;

    collect(map.iter(), map.len())
}

/// The orders in which a walk over `map` may meet its entries.
pub closed spec fn map_orders<K, V, S>(map: &HashMap<K, V, S>) -> spec_fn(Seq<(K, V)>) -> bool {
    |order: Seq<(K, V)>|
        exists|entries: Vec<(&K, &V)>| #[trigger]
            call_ensures(entries_of_map::<K, V, S>, (map,), entries) && entries@.unref() == order
}

/// A walk over a map meets each of its entries once, and starts with one of
/// their values. There is room for all of them.
pub proof fn lemma_map_walk<K, V, S>(map: &HashMap<K, V, S>)
    requires
        hashes_well::<K, S>(),
    ensures
        forall|order: Seq<(K, V)>| #[trigger]
            map_orders(map)(order) ==> order.no_duplicates() && order.to_set()
                == map@.kv_pairs(),
        forall|first: Option<V>| #[trigger]
            map_firsts(map)(first) ==> match first {
                Some(value) => map@.values().contains(value),
                None => map@.values() == Set::<V>::empty(),
            },
        forall|count: usize| #[trigger] map_capacities(map)(count) ==> count >= map@.len(),
{
}

/// The capacity of a map: `HashMap::capacity`.
///
/// A map can hold the entries that it holds. How many more fit without a new
/// allocation is the table's choice, and nothing more is said of it.
#[verifier::external_body]
fn map_capacity<K, V, S>(map: &HashMap<K, V, S>) -> (count: usize)
    ensures
        (count >= map@.len() || !hashes_well::<K, S>()),
{
    map.capacity()
}

/// The capacities that `map` may have.
pub closed spec fn map_capacities<K, V, S>(map: &HashMap<K, V, S>) -> spec_fn(usize) -> bool {
    |count: usize| call_ensures(map_capacity::<K, V, S>, (map,), count)
}

impl<K: Eq + Hash, V, S: BuildHasher> MallocShallowSizeOf for HashMap<K, V, S> {
    /// The first value is an interior pointer, as for a [`HashSet`].
    open spec fn shallow_measurement(&self) -> Measurement {
        Measurement::when(
            interior_pointers(),
            around_first(map_firsts(self)),
            estimate_of_sum(
                map_capacities(self),
                vstd::layout::size_of::<V>() + vstd::layout::size_of::<K>()
                    + vstd::layout::size_of::<usize>(),
            ),
        )
    }

    fn shallow_size_of(&self, ops: &mut MallocSizeOfOps) -> (n: usize) {
        if ops.has_malloc_enclosing_size_of() {
            measure_around_first(first_value_of_map(self), ops, Ghost(map_firsts(self)))
        } else {
            let count = map_capacity(self);
            let unit: usize = size_of::<V>() + size_of::<K>() + size_of::<usize>();
            measure_estimate(count, unit, ops, Ghost(map_capacities(self)))
        }
    }
}

impl<K: Eq + Hash, V, S: BuildHasher> MallocCheckedShallowSizeOf for HashMap<K, V, S> {
    fn checked_shallow_size_of(&self, ops: &mut MallocSizeOfOps) -> (n: Option<usize>) {
        if ops.has_malloc_enclosing_size_of() {
            let first = first_value_of_map(self);
            checked_around_first(first, ops, Ghost(map_firsts(self)))
        } else {
            let count = map_capacity(self);
            checked_estimate_of_sum(
                count,
                size_of::<V>(),
                size_of::<K>(),
                size_of::<usize>(),
                ops,
                Ghost(map_capacities(self)),
            )
        }
    }
}

impl<K: Eq + Hash + MallocSizeOf, V: MallocSizeOf, S: BuildHasher> MallocSizeOf for HashMap<
    K,
    V,
    S,
> {
    open spec fn measurement(&self) -> Measurement {
        in_some_order(self.shallow_measurement(), map_orders(self))
    }

    fn size_of(&self, ops: &mut MallocSizeOfOps) -> (n: usize) {
        let ghost origin = ops@;
        let ghost shallow = self.shallow_measurement();
        let ghost orders = map_orders(self);
        let entries = entries_of_map(self);
        assert(orders(entries@.unref()));
        proof {
            lemma_in_order_first_fits(shallow, orders, entries@.unref(), origin);
        }
        let n = self.shallow_size_of(ops);
        add_entries_in_order(
            n,
            entries.as_slice(),
            ops,
            Ghost(shallow),
            Ghost(orders),
            Ghost(origin),
        )
    }
}

impl<K, V, S> MallocCheckedSizeOf for HashMap<K, V, S> where
    K: Eq + Hash + MallocCheckedSizeOf,
    V: MallocCheckedSizeOf,
    S: BuildHasher,
 {
    fn checked_size_of(&self, ops: &mut MallocSizeOfOps) -> (n: Option<usize>) {
        let ghost origin = ops@;
        let ghost shallow = self.shallow_measurement();
        let ghost orders = map_orders(self);
        let entries = entries_of_map(self);
        assert(orders(entries@.unref()));
        let n = self.checked_shallow_size_of(ops);
        checked_add_entries_in_order(
            n,
            entries.as_slice(),
            ops,
            Ghost(shallow),
            Ghost(orders),
            Ghost(origin),
        )
    }
}

/// What is found of a set and a map is what they say of themselves.
proof fn law_found<T, K, V, S>(
    set: &HashSet<T, S>,
    map: &HashMap<K, V, S>,
    item: T,
    items: Seq<T>,
    value: V,
    entries: Seq<(K, V)>,
    count: usize,
)
    ensures
        set_capacities(set)(count) <==> call_ensures(set_capacity::<T, S>, (set,), count),
        map_capacities(map)(count) <==> call_ensures(map_capacity::<K, V, S>, (map,), count),
        set_firsts(set)(Some(item)) <==> call_ensures(
            first_of_set::<T, S>,
            (set,),
            Some(&item),
        ),
        set_firsts(set)(None) <==> call_ensures(first_of_set::<T, S>, (set,), None),
        map_firsts(map)(Some(value)) <==> call_ensures(
            first_value_of_map::<K, V, S>,
            (map,),
            Some(&value),
        ),
        map_firsts(map)(None) <==> call_ensures(first_value_of_map::<K, V, S>, (map,), None),
        set_orders(set)(items) <==> exists|all: Vec<&T>| #[trigger]
            call_ensures(items_of_set::<T, S>, (set,), all) && all@.unref() == items,
        map_orders(map)(entries) <==> exists|all: Vec<(&K, &V)>| #[trigger]
            call_ensures(entries_of_map::<K, V, S>, (map,), all) && all@.unref() == entries,
{
}

/// A walk over a set or a map meets what is in it as its iterator gives it, all of it
/// and each once, and what is found first is what the iterator gives first.
pub proof fn law_walks<T, K, V, S>(
    set: &HashSet<T, S>,
    map: &HashMap<K, V, S>,
    items: Seq<T>,
    first: Option<T>,
    entries: Seq<(K, V)>,
    value: Option<V>,
)
    requires
        obeys_key_model::<T>(),
        obeys_key_model::<K>(),
        builds_valid_hashers::<S>(),
    ensures
        set_orders(set)(items) ==> {
            &&& items == spec_hash_keys_iter(set).remaining().unref()
            &&& items.no_duplicates()
            &&& items.to_set() == set@
        },
        map_orders(map)(entries) ==> {
            &&& entries == spec_hash_map_iter(map).remaining().unref()
            &&& entries.no_duplicates()
            &&& entries.to_set() == map@.kv_pairs()
        },
        set_firsts(set)(first) ==> match first {
            Some(item) => set@.contains(item) && item == *spec_hash_keys_iter(set).remaining()[0],
            None => set@ == Set::<T>::empty(),
        },
        map_firsts(map)(value) ==> match value {
            Some(value) => map@.values().contains(value) && value == *spec_values_iter(
                map,
            ).remaining()[0],
            None => map@.values() == Set::<V>::empty(),
        },
{
}

} // verus!
