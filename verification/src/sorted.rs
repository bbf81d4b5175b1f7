//! Sets and maps that keep their keys in order.
use crate::checked::{
    checked_add_entries_in_order, checked_add_in_order, checked_around_first,
    checked_estimate_of_sum, MallocCheckedShallowSizeOf, MallocCheckedSizeOf,
};
use crate::measurement::Measurement;
use crate::ops::MallocSizeOfOps;
use crate::order::{
    add_entries_in_order, add_in_order, advance, around_first, collect,
    in_some_order, lemma_first_of_all, measure_around_first,
};
use crate::traits::{MallocShallowSizeOf, MallocSizeOf};
use crate::walk::{estimate_of_sum, interior_pointers, measure_estimate, value_behind};
use std::collections::{BTreeMap, BTreeSet};
use std::mem::size_of;
use vstd::prelude::*;
use vstd::std_specs::btree::{increasing_seq, key_obeys_cmp_spec};
use vstd::std_specs::iter::IteratorSpec;

verus! {

/// Sets and maps with keys of type `K` behave as such.
pub open spec fn orders_well<K: ?Sized>() -> bool {
    key_obeys_cmp_spec::<K>()
}

/// The keys of `entries`.
pub open spec fn keys_of<K, V>(entries: Seq<(K, V)>) -> Seq<K> {
    entries.map_values(|entry: (K, V)| entry.0)
}

/// Only `count` places.
pub open spec fn exactly_places(count: usize) -> spec_fn(usize) -> bool {
    |c: usize| c == count
}

/// `item` is the least of `set`: the first where all are in ascending order.
pub open spec fn is_least<T>(set: Set<T>, item: T) -> bool {
    exists|items: Seq<&T>|
        {
            &&& #[trigger] increasing_seq(items)
            &&& items.len() > 0
            &&& items.unref().no_duplicates()
            &&& items.unref().to_set() == set
            &&& *items[0] == item
        }
}

/// `value` belongs to the least key of `map`: the first where all are in ascending
/// order.
pub open spec fn is_least_value<K, V>(map: Map<K, V>, value: V) -> bool {
    exists|keys: Seq<K>|
        {
            &&& #[trigger] increasing_seq(keys)
            &&& keys.len() > 0
            &&& keys.no_duplicates()
            &&& keys.to_set() == map.dom()
            &&& map.contains_key(keys[0])
            &&& map[keys[0]] == value
        }
}

/// The first of `items`, if there is one, is the least.
proof fn lemma_first_is_least<T>(items: Seq<&T>, set: Set<T>)
    requires
        increasing_seq(items),
        items.no_duplicates(),
        items.unref().to_set() == set,
    ensures
        items.len() > 0 ==> is_least(set, *items[0]) && set.contains(*items[0]),
        items.len() == 0 ==> set == Set::<T>::empty(),
{
    lemma_first_of_all(items.unref());
    assert(items.unref().no_duplicates());
}

/// The first of `values`, if there is one, belongs to the least of `keys`.
proof fn lemma_first_value_is_least<K, V>(values: Seq<&V>, map: Map<K, V>)
    requires
        exists|keys: Seq<K>|
            {
                &&& #[trigger] increasing_seq(keys)
                &&& keys.to_set() == map.dom()
                &&& keys.no_duplicates()
                &&& values == keys.map(|i: int, k: K| &map[k])
            },
    ensures
        values.len() > 0 ==> is_least_value(map, *values[0]),
        values.len() == 0 ==> map.dom() == Set::<K>::empty(),
{
    let keys = choose|keys: Seq<K>|
        {
            &&& #[trigger] increasing_seq(keys)
            &&& keys.to_set() == map.dom()
            &&& keys.no_duplicates()
            &&& values == keys.map(|i: int, k: K| &map[k])
        };
    if values.len() > 0 {
        assert(map[keys[0]] == *values[0]);
        assert(keys.to_set().contains(keys[0]));
    } else {
        lemma_first_of_all(keys);
    }
}

/// The smallest item of `set`.
fn first_of_set<T>(set: &BTreeSet<T>) -> (first: Option<&T>)
    ensures
        orders_well::<T>() ==> match first {
            Some(item) => is_least(set@, *item) && set@.contains(*item),
            None => set@ =~= Set::empty(),
        },
{
    broadcast use vstd::std_specs::btree::group_btree_axioms;

    let mut items = set.iter();
    proof {
        if orders_well::<T>() {
            lemma_first_is_least(items.remaining(), set@);
        }
    }
    advance(&mut items)
}

/// The items that a walk over `set` may meet first.
pub closed spec fn set_firsts<T>(set: &BTreeSet<T>) -> spec_fn(Option<T>) -> bool {
    |first: Option<T>|
        exists|item: Option<&T>| #[trigger]
            call_ensures(first_of_set::<T>, (set,), item) && value_behind(item) == first
}

/// The items of `set`, in ascending order.
fn items_of_set<T>(set: &BTreeSet<T>) -> (items: Vec<&T>)
    ensures
        orders_well::<T>() ==> {
            &&& items@.unref().no_duplicates()
            &&& items@.unref().to_set() == set@
            &&& increasing_seq(items@)
        },
{
    broadcast use vstd::std_specs::btree::group_btree_axioms;

    collect(set.iter(), set.len())
}

/// The orders in which a walk over `set` may meet its items.
pub closed spec fn set_orders<T>(set: &BTreeSet<T>) -> spec_fn(Seq<T>) -> bool {
    |order: Seq<T>|
        exists|items: Vec<&T>| #[trigger]
            call_ensures(items_of_set::<T>, (set,), items) && items@.unref() == order
}

/// A walk over a set meets each of its items once, in ascending order, and so the
/// least of them first.
pub proof fn lemma_set_walk<T>(set: &BTreeSet<T>)
    requires
        orders_well::<T>(),
    ensures
        forall|order: Seq<T>| #[trigger]
            set_orders(set)(order) ==> {
                &&& order.no_duplicates()
                &&& order.to_set() == set@
                &&& exists|items: Seq<&T>| items.unref() == order && increasing_seq(items)
            },
        forall|first: Option<T>| #[trigger]
            set_firsts(set)(first) ==> match first {
                Some(item) => is_least(set@, item) && set@.contains(item),
                None => set@ == Set::<T>::empty(),
            },
{
}

impl<T> MallocShallowSizeOf for BTreeSet<T> {
    /// The first item is an interior pointer. No memory is assumed to be
    /// allocated while the set is empty.
    open spec fn shallow_measurement(&self) -> Measurement {
        Measurement::when(
            interior_pointers(),
            around_first(set_firsts(self)),
            estimate_of_sum(
                exactly_places(self.len()),
                vstd::layout::size_of::<T>() + vstd::layout::size_of::<usize>(),
            ),
        )
    }

    fn shallow_size_of(&self, ops: &mut MallocSizeOfOps) -> (n: usize) {
        if ops.has_malloc_enclosing_size_of() {
            measure_around_first(first_of_set(self), ops, Ghost(set_firsts(self)))
        } else {
            let unit: usize = size_of::<T>() + size_of::<usize>();
            measure_estimate(self.len(), unit, ops, Ghost(exactly_places(self.len())))
        }
    }
}

impl<T> MallocCheckedShallowSizeOf for BTreeSet<T> {
    fn checked_shallow_size_of(&self, ops: &mut MallocSizeOfOps) -> (n: Option<usize>) {
        if ops.has_malloc_enclosing_size_of() {
            let first = first_of_set(self);
            checked_around_first(first, ops, Ghost(set_firsts(self)))
        } else {
            checked_estimate_of_sum(
                self.len(),
                size_of::<T>(),
                size_of::<usize>(),
                0,
                ops,
                Ghost(exactly_places(self.len())),
            )
        }
    }
}

impl<T: MallocSizeOf> MallocSizeOf for BTreeSet<T> {
    /// Very raw: the nodes of the tree are not counted.
    open spec fn measurement(&self) -> Measurement {
        in_some_order(Measurement::nothing(), set_orders(self))
    }

    fn size_of(&self, ops: &mut MallocSizeOfOps) -> (n: usize) {
        let ghost origin = ops@;
        let ghost orders = set_orders(self);
        let items = items_of_set(self);
        assert(orders(items@.unref()));
        add_in_order(
            0,
            items.as_slice(),
            ops,
            Ghost(Measurement::nothing()),
            Ghost(orders),
            Ghost(origin),
        )
    }
}

impl<T: MallocCheckedSizeOf> MallocCheckedSizeOf for BTreeSet<T> {
    fn checked_size_of(&self, ops: &mut MallocSizeOfOps) -> (n: Option<usize>) {
        let ghost origin = ops@;
        let ghost shallow = Measurement::nothing();
        let ghost orders = set_orders(self);
        let items = items_of_set(self);
        assert(orders(items@.unref()));
        let n = Some(0);
        checked_add_in_order(
            n,
            items.as_slice(),
            ops,
            Ghost(shallow),
            Ghost(orders),
            Ghost(origin),
        )
    }
}

/// The value of the smallest key of `map`.
fn first_value_of_map<K, V>(map: &BTreeMap<K, V>) -> (first: Option<&V>)
    ensures
        orders_well::<K>() ==> match first {
            Some(value) => is_least_value(map@, *value),
            None => map@.dom() =~= Set::empty(),
        },
{
    broadcast use vstd::std_specs::btree::group_btree_axioms;

    let mut values = map.values();
    proof {
        if orders_well::<K>() {
            lemma_first_value_is_least(values.remaining(), map@);
        }
    }
    advance(&mut values)
}

/// The values that a walk over `map` may meet first.
pub closed spec fn map_firsts<K, V>(map: &BTreeMap<K, V>) -> spec_fn(Option<V>) -> bool {
    |first: Option<V>|
        exists|value: Option<&V>| #[trigger]
            call_ensures(first_value_of_map::<K, V>, (map,), value) && value_behind(value) == first
}

/// The entries of `map`, with ascending keys.
fn entries_of_map<K, V>(map: &BTreeMap<K, V>) -> (entries: Vec<(&K, &V)>)
    ensures
        orders_well::<K>() ==> {
            &&& entries@.unref().no_duplicates()
            &&& entries@.unref().to_set() == map@.kv_pairs()
            &&& increasing_seq(keys_of(entries@.unref()))
        },
{
    broadcast use vstd::std_specs::btree::group_btree_axioms;

    let entries = collect(map.iter(), map.len());
    assert(keys_of(entries@.unref()) =~= entries@.map_values(|entry: (&K, &V)| *entry.0));
    entries
}

/// The orders in which a walk over `map` may meet its entries.
pub closed spec fn map_orders<K, V>(map: &BTreeMap<K, V>) -> spec_fn(Seq<(K, V)>) -> bool {
    |order: Seq<(K, V)>|
        exists|entries: Vec<(&K, &V)>| #[trigger]
            call_ensures(entries_of_map::<K, V>, (map,), entries) && entries@.unref() == order
}

/// A walk over a map meets each of its entries once, with ascending keys, and so
/// the value of the least key first.
pub proof fn lemma_map_walk<K, V>(map: &BTreeMap<K, V>)
    requires
        orders_well::<K>(),
    ensures
        forall|order: Seq<(K, V)>| #[trigger]
            map_orders(map)(order) ==> {
                &&& order.no_duplicates()
                &&& order.to_set() == map@.kv_pairs()
                &&& increasing_seq(keys_of(order))
            },
        forall|first: Option<V>| #[trigger]
            map_firsts(map)(first) ==> match first {
                Some(value) => is_least_value(map@, value),
                None => map@.dom() == Set::<K>::empty(),
            },
{
}

impl<K, V> MallocShallowSizeOf for BTreeMap<K, V> {
    /// The first value is an interior pointer, as the first item of a
    /// [`BTreeSet`] is.
    open spec fn shallow_measurement(&self) -> Measurement {
        Measurement::when(
            interior_pointers(),
            around_first(map_firsts(self)),
            estimate_of_sum(
                exactly_places(self.len()),
                vstd::layout::size_of::<V>() + vstd::layout::size_of::<K>()
                    + vstd::layout::size_of::<usize>(),
            ),
        )
    }

    fn shallow_size_of(&self, ops: &mut MallocSizeOfOps) -> (n: usize) {
        if ops.has_malloc_enclosing_size_of() {
            measure_around_first(first_value_of_map(self), ops, Ghost(map_firsts(self)))
        } else {
            let unit: usize = size_of::<V>() + size_of::<K>() + size_of::<usize>();
            measure_estimate(self.len(), unit, ops, Ghost(exactly_places(self.len())))
        }
    }
}

impl<K, V> MallocCheckedShallowSizeOf for BTreeMap<K, V> {
    fn checked_shallow_size_of(&self, ops: &mut MallocSizeOfOps) -> (n: Option<usize>) {
        if ops.has_malloc_enclosing_size_of() {
            let first = first_value_of_map(self);
            checked_around_first(first, ops, Ghost(map_firsts(self)))
        } else {
            checked_estimate_of_sum(
                self.len(),
                size_of::<V>(),
                size_of::<K>(),
                size_of::<usize>(),
                ops,
                Ghost(exactly_places(self.len())),
            )
        }
    }
}

impl<K: MallocSizeOf, V: MallocSizeOf> MallocSizeOf for BTreeMap<K, V> {
    /// Very raw: the nodes of the tree are not counted.
    open spec fn measurement(&self) -> Measurement {
        in_some_order(Measurement::nothing(), map_orders(self))
    }

    fn size_of(&self, ops: &mut MallocSizeOfOps) -> (n: usize) {
        let ghost origin = ops@;
        let ghost orders = map_orders(self);
        let entries = entries_of_map(self);
        assert(orders(entries@.unref()));
        add_entries_in_order(
            0,
            entries.as_slice(),
            ops,
            Ghost(Measurement::nothing()),
            Ghost(orders),
            Ghost(origin),
        )
    }
}

impl<K: MallocCheckedSizeOf, V: MallocCheckedSizeOf> MallocCheckedSizeOf for BTreeMap<K, V> {
    fn checked_size_of(&self, ops: &mut MallocSizeOfOps) -> (n: Option<usize>) {
        let ghost origin = ops@;
        let ghost shallow = Measurement::nothing();
        let ghost orders = map_orders(self);
        let entries = entries_of_map(self);
        assert(orders(entries@.unref()));
        let n = Some(0);
        checked_add_entries_in_order(
            n,
            entries.as_slice(),
            ops,
            Ghost(shallow),
            Ghost(orders),
            Ghost(origin),
        )
    }
}

/// What is found of a set and a map is what they say of themselves.
proof fn law_found<T, K, V>(
    set: &BTreeSet<T>,
    map: &BTreeMap<K, V>,
    item: T,
    items: Seq<T>,
    value: V,
    entries: Seq<(K, V)>,
)
    ensures
        set_firsts(set)(Some(item)) <==> call_ensures(first_of_set::<T>, (set,), Some(&item)),
        set_firsts(set)(None) <==> call_ensures(first_of_set::<T>, (set,), None),
        map_firsts(map)(Some(value)) <==> call_ensures(
            first_value_of_map::<K, V>,
            (map,),
            Some(&value),
        ),
        map_firsts(map)(None) <==> call_ensures(first_value_of_map::<K, V>, (map,), None),
        set_orders(set)(items) <==> exists|all: Vec<&T>| #[trigger]
            call_ensures(items_of_set::<T>, (set,), all) && all@.unref() == items,
        map_orders(map)(entries) <==> exists|all: Vec<(&K, &V)>| #[trigger]
            call_ensures(entries_of_map::<K, V>, (map,), all) && all@.unref() == entries,
{
}

} // verus!
