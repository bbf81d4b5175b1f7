//! The hash map of the `hashbrown` crate.
use crate::checked::{
    checked_add_entries_in_order, checked_around_first, checked_estimate_of_sum,
    MallocCheckedShallowSizeOf, MallocCheckedSizeOf,
};
use crate::measurement::Measurement;
use crate::ops::MallocSizeOfOps;
use crate::order::{
    add_entries_in_order, around_first, in_some_order, lemma_in_order_first_fits,
    measure_around_first,
};
use crate::traits::{MallocShallowSizeOf, MallocSizeOf};
use crate::walk::{estimate_of_sum, interior_pointers, measure_estimate, value_behind};
use hashbrown::HashMap;
use std::hash::{BuildHasher, Hash};
use std::mem::size_of;
use vstd::prelude::*;

verus! {

/// `hashbrown::HashMap`: a hash table.
#[verifier::external_type_specification]
#[verifier::external_body]
#[verifier::reject_recursive_types(K)]
#[verifier::reject_recursive_types(V)]
#[verifier::reject_recursive_types(S)]
pub struct ExHashMap<K, V, S>(HashMap<K, V, S>);

/// The entries of a map: `HashMap::iter`, collected.
///
/// The order is the table's choice. Nothing is said of the entries here but that a
/// walk over the map meets them in this order; that any two walks agree is said of
/// the first value and of the capacity. A map may hold a key twice: its raw entries
/// let a caller insert one without a look at those that are there.
#[verifier::external_body]
fn entries_of_map<K, V, S>(map: &HashMap<K, V, S>) -> Vec<(&K, &V)> {
    map.iter().collect()
}

/// The orders in which a walk over `map` may meet its entries.
pub closed spec fn map_orders<K, V, S>(map: &HashMap<K, V, S>) -> spec_fn(Seq<(K, V)>) -> bool {
    |order: Seq<(K, V)>|
        exists|entries: Vec<(&K, &V)>| #[trigger]
            call_ensures(entries_of_map::<K, V, S>, (map,), entries) && entries@.unref() == order
}

/// Every walk over `map` meets its entries in this one order.
pub open spec fn always_walked<K, V, S>(map: &HashMap<K, V, S>, order: Seq<(K, V)>) -> bool {
    forall|walk: Seq<(K, V)>| #[trigger] map_orders(map)(walk) ==> walk == order
}

/// Any two walks over `map` agree.
pub open spec fn walks_agree<K, V, S>(map: &HashMap<K, V, S>) -> bool {
    exists|order: Seq<(K, V)>| always_walked(map, order)
}

/// Every walk over `map` is one walk, and meets `first` as its first value, or no
/// value at all.
pub open spec fn starts_with<K, V, S>(map: &HashMap<K, V, S>, first: Option<V>) -> bool {
    exists|order: Seq<(K, V)>|
        {
            &&& #[trigger] always_walked(map, order)
            &&& match first {
                Some(value) => order.len() > 0 && order[0].1 == value,
                None => order.len() == 0,
            }
        }
}

/// The first value of a map: the first item of `HashMap::values`.
///
/// It is the value of the entry that `HashMap::iter` gives first, since `values`
/// is made of that iterator. The iterator goes through the full buckets of the
/// table one by one, so while the map does not change it gives the same entries in
/// the same order each time.
#[verifier::external_body]
fn first_value_of_map<K, V, S>(map: &HashMap<K, V, S>) -> (first: Option<&V>)
    ensures
        starts_with(map, value_behind(first)),
{
    map.values().next()
}

/// The values that a walk over `map` may meet first.
pub closed spec fn map_firsts<K, V, S>(map: &HashMap<K, V, S>) -> spec_fn(Option<V>) -> bool {
    |first: Option<V>|
        exists|value: Option<&V>| #[trigger]
            call_ensures(first_value_of_map::<K, V, S>, (map,), value) && value_behind(value)
                == first
}

/// Every walk over `map` is one walk, and meets no more than `count` entries.
pub open spec fn holds_at_most<K, V, S>(map: &HashMap<K, V, S>, count: usize) -> bool {
    exists|order: Seq<(K, V)>| #[trigger] always_walked(map, order) && order.len() <= count
}

/// The capacity of a map: `HashMap::capacity`.
///
/// A map can hold the entries that it holds, which are those that each walk meets.
/// How many more fit without a new allocation is the table's choice, and nothing
/// more is said of it.
#[verifier::external_body]
fn map_capacity<K, V, S>(map: &HashMap<K, V, S>) -> (count: usize)
    ensures
        holds_at_most(map, count),
{
    map.capacity()
}

/// The capacities that `map` may have.
pub closed spec fn map_capacities<K, V, S>(map: &HashMap<K, V, S>) -> spec_fn(usize) -> bool {
    |count: usize| call_ensures(map_capacity::<K, V, S>, (map,), count)
}

/// A walk over a map starts with the value that is found first, and meets no
/// more entries than the map has room for.
pub proof fn lemma_map_walk<K, V, S>(map: &HashMap<K, V, S>)
    ensures
        forall|first: Option<V>| #[trigger] map_firsts(map)(first) ==> starts_with(map, first),
        forall|count: usize| #[trigger] map_capacities(map)(count) ==> holds_at_most(map, count),
{
}

impl<K: Eq + Hash, V, S: BuildHasher> MallocShallowSizeOf for HashMap<K, V, S> {
    /// The first value is an interior pointer: all entries are assumed to lie in
    /// a single heap allocation. No memory is assumed to be allocated while the
    /// map is empty.
    open spec fn shallow_measurement(&self) -> Measurement {
        Measurement::when(
            interior_pointers(),
            around_first(map_firsts(self)),
            estimate_of_sum(
                map_capacities(self),
                vstd::layout::size_of::<V>() + vstd::layout::size_of::<K>()
                    + vstd::layout::size_of::<usize>(),
            ),
        )
    }

    fn shallow_size_of(&self, ops: &mut MallocSizeOfOps) -> (n: usize)
        ensures
            walks_agree(self),
    {
        proof {
            lemma_map_walk(self);
        }
        if ops.has_malloc_enclosing_size_of() {
            measure_around_first(first_value_of_map(self), ops, Ghost(map_firsts(self)))
        } else {
            let count = map_capacity(self);
            let unit: usize = size_of::<V>() + size_of::<K>() + size_of::<usize>();
            measure_estimate(count, unit, ops, Ghost(map_capacities(self)))
        }
    }
}

impl<K: Eq + Hash, V, S: BuildHasher> MallocCheckedShallowSizeOf for HashMap<K, V, S> {
    fn checked_shallow_size_of(&self, ops: &mut MallocSizeOfOps) -> (n: Option<usize>)
        ensures
            walks_agree(self),
    {
        proof {
            lemma_map_walk(self);
        }
        if ops.has_malloc_enclosing_size_of() {
            let first = first_value_of_map(self);
            checked_around_first(first, ops, Ghost(map_firsts(self)))
        } else {
            let count = map_capacity(self);
            checked_estimate_of_sum(
                count,
                size_of::<V>(),
                size_of::<K>(),
                size_of::<usize>(),
                ops,
                Ghost(map_capacities(self)),
            )
        }
    }
}

impl<K: Eq + Hash + MallocSizeOf, V: MallocSizeOf, S: BuildHasher> MallocSizeOf for HashMap<
    K,
    V,
    S,
> {
    open spec fn measurement(&self) -> Measurement {
        in_some_order(self.shallow_measurement(), map_orders(self))
    }

    fn size_of(&self, ops: &mut MallocSizeOfOps) -> (n: usize)
        ensures
            walks_agree(self),
    {
        let ghost origin = ops@;
        let ghost shallow = self.shallow_measurement();
        let ghost orders = map_orders(self);
        let entries = entries_of_map(self);
        assert(orders(entries@.unref()));
        proof {
            lemma_in_order_first_fits(shallow, orders, entries@.unref(), origin);
        }
        let n = self.shallow_size_of(ops);
        add_entries_in_order(
            n,
            entries.as_slice(),
            ops,
            Ghost(shallow),
            Ghost(orders),
            Ghost(origin),
        )
    }
}

impl<K, V, S> MallocCheckedSizeOf for HashMap<K, V, S> where
    K: Eq + Hash + MallocCheckedSizeOf,
    V: MallocCheckedSizeOf,
    S: BuildHasher,
 {
    fn checked_size_of(&self, ops: &mut MallocSizeOfOps) -> (n: Option<usize>)
        ensures
            walks_agree(self),
    {
        let ghost origin = ops@;
        let ghost shallow = self.shallow_measurement();
        let ghost orders = map_orders(self);
        let entries = entries_of_map(self);
        assert(orders(entries@.unref()));
        let n = self.checked_shallow_size_of(ops);
        checked_add_entries_in_order(
            n,
            entries.as_slice(),
            ops,
            Ghost(shallow),
            Ghost(orders),
            Ghost(origin),
        )
    }
}

/// What is found of a map is what it says of itself: all of its entries.
proof fn law_found<K, V, S>(
    map: &HashMap<K, V, S>,
    value: V,
    entries: Seq<(K, V)>,
    count: usize,
)
    ensures
        map_capacities(map)(count) <==> call_ensures(map_capacity::<K, V, S>, (map,), count),
        map_firsts(map)(Some(value)) <==> call_ensures(
            first_value_of_map::<K, V, S>,
            (map,),
            Some(&value),
        ),
        map_firsts(map)(None) <==> call_ensures(first_value_of_map::<K, V, S>, (map,), None),
        map_orders(map)(entries) <==> exists|all: Vec<(&K, &V)>| #[trigger]
            call_ensures(entries_of_map::<K, V, S>, (map,), all) && all@.unref() == entries,
{
}

/// What walks over a map have in common: each meets the same entries in the same order,
/// of which the value that is found first is the first, and for all of which there is
/// room.
pub proof fn law_walks<K, V, S>(
    map: &HashMap<K, V, S>,
    walk: Seq<(K, V)>,
    first: Option<V>,
    count: usize,
)
    requires
        map_orders(map)(walk),
    ensures
        map_firsts(map)(first) ==> match first {
            Some(value) => walk.len() > 0 && walk[0].1 == value,
            None => walk.len() == 0,
        },
        map_capacities(map)(count) ==> walk.len() <= count,
        walks_agree(map) ==> forall|other: Seq<(K, V)>| #[trigger]
            map_orders(map)(other) ==> other == walk,
{
    lemma_map_walk(map);
}

} // verus!
