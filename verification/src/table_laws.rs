//! What the measurement of a table comes to, in terms of what is in it.
use crate::hashed::{
    hashes_well, lemma_map_walk, lemma_set_walk, map_capacities, map_firsts, map_orders,
    set_capacities, set_firsts, set_orders,
};
use crate::measurement::Measurement;
use crate::measurement_laws::{
    always_returns, law_blocks_of_values, law_choices, law_estimates, law_sum,
    law_sum_of_equal_sizes, stays_in,
};
use crate::ops::OpsModel;
use crate::order::{around_first, block_around_first, each_in_order, in_some_order};
use crate::sorted::{is_least, is_least_value, orders_well};
use crate::traits::{measurements, MallocShallowSizeOf, MallocSizeOf};
use crate::walk::lies_at;
use std::collections::{BTreeMap, BTreeSet, HashMap, HashSet};
use std::hash::{BuildHasher, Hash};
use vstd::prelude::*;
use vstd::std_specs::btree::{increasing_seq, key_obeys_cmp_spec};
use vstd::std_specs::hash::{builds_valid_hashers, obeys_key_model};

verus! {

/// Hash tables behave as such where their keys and their hashers do, and ordered ones
/// where their keys do.
pub proof fn law_tables_behave<K: ?Sized, S: ?Sized>()
    ensures
        hashes_well::<K, S>() <==> obeys_key_model::<K>() && builds_valid_hashers::<S>(),
        orders_well::<K>() <==> key_obeys_cmp_spec::<K>(),
{
}

/// The block around the item that comes first is that of an item that may come first,
/// and no block where none may.
pub proof fn law_around_first<T>(
    firsts: spec_fn(Option<T>) -> bool,
    before: OpsModel,
    after: OpsModel,
    n: nat,
)
    ensures
        around_first(firsts).fits(before) <==> forall|item: T, ptr: usize| #[trigger]
            firsts(Some(item)) && #[trigger] lies_at(&item, ptr) ==> before.enclosing_size is Some
                && ptr > 256,
        around_first(firsts).yields(before, after, n) <==> {
            ||| firsts(None) && after == before && n == 0
            ||| exists|item: T, ptr: usize|
                {
                    &&& #[trigger] firsts(Some(item))
                    &&& #[trigger] lies_at(&item, ptr)
                    &&& Measurement::enclosing(ptr).yields(before, after, n)
                }
        },
{
    let body = block_around_first::<T>();
    law_choices(firsts, body, before, after, n);
    assert forall|item: T| #[trigger] firsts(Some(item)) implies {
        &&& body(Some(item)).fits(before) <==> forall|ptr: usize| #[trigger]
            lies_at(&item, ptr) ==> before.enclosing_size is Some && ptr > 256
        &&& body(Some(item)).yields(before, after, n) <==> exists|ptr: usize| #[trigger]
            lies_at(&item, ptr) && Measurement::enclosing(ptr).yields(before, after, n)
    } by {
        law_blocks_of_values(&item, before, after, n);
    }
    assert forall|first: Option<T>| #[trigger] firsts(first) && first is Some implies firsts(
        Some(first->0),
    ) by {}
    if around_first(firsts).fits(before) {
        assert forall|item: T, ptr: usize| #[trigger]
            firsts(Some(item)) && #[trigger] lies_at(&item, ptr) implies before.enclosing_size
            is Some && ptr > 256 by {
            assert(body(Some(item)).fits(before));
        }
    }
    if forall|item: T, ptr: usize| #[trigger]
        firsts(Some(item)) && #[trigger] lies_at(&item, ptr) ==> before.enclosing_size is Some
            && ptr > 256 {
        assert forall|first: Option<T>| #[trigger] firsts(first) implies body(first).fits(
            before,
        ) by {
            if first is Some {
                assert(firsts(Some(first->0)));
            }
        }
    }
    if around_first(firsts).yields(before, after, n) {
        let first = choose|first: Option<T>| #[trigger]
            firsts(first) && body(first).yields(before, after, n);
        if first is Some {
            assert(firsts(Some(first->0)));
        }
    }
    if firsts(None) && after == before && n == 0 {
        assert(body(None).yields(before, after, n));
    }
    if exists|item: T, ptr: usize|
        {
            &&& #[trigger] firsts(Some(item))
            &&& #[trigger] lies_at(&item, ptr)
            &&& Measurement::enclosing(ptr).yields(before, after, n)
        } {
        let (item, ptr): (T, usize) = choose|item: T, ptr: usize|
            {
                &&& #[trigger] firsts(Some(item))
                &&& #[trigger] lies_at(&item, ptr)
                &&& Measurement::enclosing(ptr).yields(before, after, n)
            };
        assert(firsts(Some(item)) && body(Some(item)).yields(before, after, n));
    }
}

/// In an order of any length, each item counts once, after what comes first.
pub proof fn law_each_in_order<T: MallocSizeOf>(
    shallow: Measurement,
    order: Seq<T>,
    before: OpsModel,
    after: OpsModel,
    n: nat,
)
    ensures
        each_in_order(shallow)(order).fits(before) <==> shallow.then_all(
            measurements(order),
        ).fits(before),
        each_in_order(shallow)(order).yields(before, after, n) <==> shallow.then_all(
            measurements(order),
        ).yields(before, after, n),
{
}

/// What is measured in some order returns what it returns in one of the orders, and can
/// be measured where it can be in each of them.
proof fn lemma_in_some_order<T: MallocSizeOf>(
    shallow: Measurement,
    orders: spec_fn(Seq<T>) -> bool,
    before: OpsModel,
    after: OpsModel,
    n: nat,
)
    ensures
        in_some_order(shallow, orders).fits(before) <==> forall|order: Seq<T>| #[trigger]
            orders(order) ==> shallow.then_all(
                measurements(order),
            ).fits(before),
        in_some_order(shallow, orders).yields(before, after, n) <==> exists|order: Seq<T>|
         #[trigger]
            orders(order) && shallow.then_all(measurements(order)).yields(before, after, n),
{
    let body = each_in_order::<T>(shallow);
    law_choices(orders, body, before, after, n);
    assert forall|order: Seq<T>| #[trigger] orders(order) implies body(order) == shallow.then_all(
        measurements(order),
    ) by {}
}

/// There are as many entries as keys.
proof fn lemma_entries<K, V>(map: Map<K, V>, entries: Seq<(K, V)>)
    requires
        entries.no_duplicates(),
        entries.to_set() == map.kv_pairs(),
    ensures
        entries.len() == map.dom().len(),
        forall|i: int|
            0 <= i < entries.len() ==> map.contains_key((#[trigger] entries[i]).0)
                && map[entries[i].0] == entries[i].1,
{
    assert forall|i: int| 0 <= i < entries.len() implies map.contains_key(
        (#[trigger] entries[i]).0,
    ) && map[entries[i].0] == entries[i].1 by {
        assert(entries.to_set().contains(entries[i]));
    }
    let keys = entries.map_values(|entry: (K, V)| entry.0);
    assert forall|i: int, j: int|
        0 <= i < keys.len() && 0 <= j < keys.len() && i != j implies keys[i] != keys[j] by {
        if keys[i] == keys[j] {
            assert(entries[i].0 == entries[j].0);
            assert(entries[i] == entries[j]);
        }
    }
    assert forall|key: K| keys.to_set().contains(key) <==> #[trigger] map.dom().contains(key) by {
        if map.dom().contains(key) {
            assert(map.kv_pairs().contains((key, map[key])));
            let i = choose|i: int| 0 <= i < entries.len() && entries[i] == (key, map[key]);
            assert(keys[i] == key);
        }
        if keys.to_set().contains(key) {
            let i = choose|i: int| 0 <= i < keys.len() && keys[i] == key;
            assert(entries[i].0 == key);
        }
    }
    assert(keys.to_set() =~= map.dom());
    keys.unique_seq_to_set();
}

/// An entry counts as its key and then its value.
proof fn lemma_entry_returns<K: MallocSizeOf, V: MallocSizeOf>(
    entry: (K, V),
    family: spec_fn(OpsModel) -> bool,
    key_size: nat,
    value_size: nat,
)
    requires
        always_returns(entry.0.measurement(), family, key_size),
        always_returns(entry.1.measurement(), family, value_size),
    ensures
        always_returns(entry.measurement(), family, key_size + value_size),
{
    let m = entry.measurement();
    assert forall|before: OpsModel, after: OpsModel, n: nat| #[trigger]
        m.yields(before, after, n) && family(before) implies family(after) && n == key_size
        + value_size by {
        law_sum(entry.0.measurement(), entry.1.measurement(), before, after, n);
    }
}

/// The table of a hash set is the block around the item that a walk meets first, where
/// interior pointers are supported, and else an estimate: an item and a word for each
/// place.
pub proof fn law_hash_set_table<T: Eq + Hash, S: BuildHasher>(
    set: &HashSet<T, S>,
    before: OpsModel,
    after: OpsModel,
    n: nat,
)
    ensures
        before.enclosing_size is Some ==> {
            &&& set.shallow_measurement().fits(before) <==> around_first(
                set_firsts(set),
            ).fits(before)
            &&& set.shallow_measurement().yields(before, after, n) <==> around_first(
                set_firsts(set),
            ).yields(before, after, n)
        },
        before.enclosing_size is None ==> {
            let unit = vstd::layout::size_of::<T>() + vstd::layout::size_of::<usize>();
            &&& set.shallow_measurement().fits(before) <==> unit <= usize::MAX && forall|
                count: usize,
            | #[trigger]
                set_capacities(set)(count) ==> count * unit <= usize::MAX
            &&& set.shallow_measurement().yields(before, after, n) <==> unit <= usize::MAX && after
                == before && exists|count: usize| #[trigger]
                set_capacities(set)(count) && n == count * unit
        },
{
    law_estimates(
        set_capacities(set),
        vstd::layout::size_of::<T>() + vstd::layout::size_of::<usize>(),
        before,
        after,
        n,
    );
}

/// The table of a hash map is the block around the value that a walk meets first, where
/// interior pointers are supported, and else an estimate: a value, a key and a word for
/// each place.
pub proof fn law_hash_map_table<K: Eq + Hash, V, S: BuildHasher>(
    map: &HashMap<K, V, S>,
    before: OpsModel,
    after: OpsModel,
    n: nat,
)
    ensures
        before.enclosing_size is Some ==> {
            &&& map.shallow_measurement().fits(before) <==> around_first(
                map_firsts(map),
            ).fits(before)
            &&& map.shallow_measurement().yields(before, after, n) <==> around_first(
                map_firsts(map),
            ).yields(before, after, n)
        },
        before.enclosing_size is None ==> {
            let unit = vstd::layout::size_of::<V>() + vstd::layout::size_of::<K>()
                + vstd::layout::size_of::<usize>();
            &&& map.shallow_measurement().fits(before) <==> unit <= usize::MAX && forall|
                count: usize,
            | #[trigger]
                map_capacities(map)(count) ==> count * unit <= usize::MAX
            &&& map.shallow_measurement().yields(before, after, n) <==> unit <= usize::MAX && after
                == before && exists|count: usize| #[trigger]
                map_capacities(map)(count) && n == count * unit
        },
{
    law_estimates(
        map_capacities(map),
        vstd::layout::size_of::<V>() + vstd::layout::size_of::<K>()
            + vstd::layout::size_of::<usize>(),
        before,
        after,
        n,
    );
}

/// The table of a `hashbrown` map is measured as that of another hash map is.
pub proof fn law_hashbrown_map_table<K: Eq + Hash, V, S: BuildHasher>(
    map: &hashbrown::HashMap<K, V, S>,
    before: OpsModel,
    after: OpsModel,
    n: nat,
)
    ensures
        before.enclosing_size is Some ==> {
            &&& map.shallow_measurement().fits(before) <==> around_first(
                crate::brown::map_firsts(map),
            ).fits(before)
            &&& map.shallow_measurement().yields(before, after, n) <==> around_first(
                crate::brown::map_firsts(map),
            ).yields(before, after, n)
        },
        before.enclosing_size is None ==> {
            let unit = vstd::layout::size_of::<V>() + vstd::layout::size_of::<K>()
                + vstd::layout::size_of::<usize>();
            &&& map.shallow_measurement().fits(before) <==> unit <= usize::MAX && forall|
                count: usize,
            | #[trigger]
                crate::brown::map_capacities(map)(count) ==> count * unit <= usize::MAX
            &&& map.shallow_measurement().yields(before, after, n) <==> unit <= usize::MAX && after
                == before && exists|count: usize| #[trigger]
                crate::brown::map_capacities(map)(count) && n == count * unit
        },
{
    law_estimates(
        crate::brown::map_capacities(map),
        vstd::layout::size_of::<V>() + vstd::layout::size_of::<K>()
            + vstd::layout::size_of::<usize>(),
        before,
        after,
        n,
    );
}

/// The nodes of an ordered set are the block around the item that a walk meets first,
/// where interior pointers are supported, and else an estimate: an item and a word for
/// each item.
pub proof fn law_btree_set_nodes<T>(
    set: &BTreeSet<T>,
    before: OpsModel,
    after: OpsModel,
    n: nat,
)
    ensures
        before.enclosing_size is Some ==> {
            &&& set.shallow_measurement().fits(before) <==> around_first(
                crate::sorted::set_firsts(set),
            ).fits(before)
            &&& set.shallow_measurement().yields(before, after, n) <==> around_first(
                crate::sorted::set_firsts(set),
            ).yields(before, after, n)
        },
        before.enclosing_size is None ==> {
            let unit = vstd::layout::size_of::<T>() + vstd::layout::size_of::<usize>();
            &&& set.shallow_measurement().fits(before) <==> unit <= usize::MAX && set.len()
                * unit <= usize::MAX
            &&& set.shallow_measurement().yields(before, after, n) <==> unit <= usize::MAX && after
                == before && n == set.len() * unit
        },
{
    law_estimates(
        crate::sorted::exactly_places(set.len()),
        vstd::layout::size_of::<T>() + vstd::layout::size_of::<usize>(),
        before,
        after,
        n,
    );
    assert(crate::sorted::exactly_places(set.len())(set.len()));
}

/// The nodes of an ordered map are the block around the value that a walk meets first,
/// where interior pointers are supported, and else an estimate: a value, a key and a
/// word for each entry.
pub proof fn law_btree_map_nodes<K, V>(
    map: &BTreeMap<K, V>,
    before: OpsModel,
    after: OpsModel,
    n: nat,
)
    ensures
        before.enclosing_size is Some ==> {
            &&& map.shallow_measurement().fits(before) <==> around_first(
                crate::sorted::map_firsts(map),
            ).fits(before)
            &&& map.shallow_measurement().yields(before, after, n) <==> around_first(
                crate::sorted::map_firsts(map),
            ).yields(before, after, n)
        },
        before.enclosing_size is None ==> {
            let unit = vstd::layout::size_of::<V>() + vstd::layout::size_of::<K>()
                + vstd::layout::size_of::<usize>();
            &&& map.shallow_measurement().fits(before) <==> unit <= usize::MAX && map.len()
                * unit <= usize::MAX
            &&& map.shallow_measurement().yields(before, after, n) <==> unit <= usize::MAX && after
                == before && n == map.len() * unit
        },
{
    law_estimates(
        crate::sorted::exactly_places(map.len()),
        vstd::layout::size_of::<V>() + vstd::layout::size_of::<K>()
            + vstd::layout::size_of::<usize>(),
        before,
        after,
        n,
    );
    assert(crate::sorted::exactly_places(map.len())(map.len()));
}

/// A hash set counts as its table and then each item that a walk meets, however many
/// there are.
pub proof fn law_hash_set_items<T: Eq + Hash + MallocSizeOf, S: BuildHasher>(
    set: &HashSet<T, S>,
    before: OpsModel,
    after: OpsModel,
    n: nat,
)
    ensures
        set.measurement().fits(before) <==> forall|order: Seq<T>| #[trigger]
            set_orders(set)(order) ==> set.shallow_measurement().then_all(
                measurements(order),
            ).fits(before),
        set.measurement().yields(before, after, n) <==> exists|order: Seq<T>| #[trigger]
            set_orders(set)(order) && set.shallow_measurement().then_all(
                measurements(order),
            ).yields(before, after, n),
{
    lemma_in_some_order(set.shallow_measurement(), set_orders(set), before, after, n);
}

/// A hash map counts as its table and then each entry that a walk meets, however many
/// there are.
pub proof fn law_hash_map_entries<K: Eq + Hash + MallocSizeOf, V: MallocSizeOf, S: BuildHasher>(
    map: &HashMap<K, V, S>,
    before: OpsModel,
    after: OpsModel,
    n: nat,
)
    ensures
        map.measurement().fits(before) <==> forall|order: Seq<(K, V)>| #[trigger]
            map_orders(map)(order) ==> map.shallow_measurement().then_all(
                measurements(order),
            ).fits(before),
        map.measurement().yields(before, after, n) <==> exists|order: Seq<(K, V)>| #[trigger]
            map_orders(map)(order) && map.shallow_measurement().then_all(
                measurements(order),
            ).yields(before, after, n),
{
    lemma_in_some_order(map.shallow_measurement(), map_orders(map), before, after, n);
}

/// A `hashbrown` map counts as its table and then each entry that a walk meets, however
/// many there are.
pub proof fn law_hashbrown_map_entries<
    K: Eq + Hash + MallocSizeOf,
    V: MallocSizeOf,
    S: BuildHasher,
>(
    map: &hashbrown::HashMap<K, V, S>,
    before: OpsModel,
    after: OpsModel,
    n: nat,
)
    ensures
        map.measurement().fits(before) <==> forall|order: Seq<(K, V)>| #[trigger]
            crate::brown::map_orders(map)(order) ==> map.shallow_measurement().then_all(
                measurements(order),
            ).fits(before),
        map.measurement().yields(before, after, n) <==> exists|order: Seq<(K, V)>| #[trigger]
            crate::brown::map_orders(map)(order) && map.shallow_measurement().then_all(
                measurements(order),
            ).yields(before, after, n),
{
    lemma_in_some_order(map.shallow_measurement(), crate::brown::map_orders(map), before, after, n);
}

/// An ordered set counts as each item that a walk meets; its nodes do not count.
pub proof fn law_btree_set_items<T: MallocSizeOf>(
    set: &BTreeSet<T>,
    before: OpsModel,
    after: OpsModel,
    n: nat,
)
    ensures
        set.measurement().fits(before) <==> forall|order: Seq<T>| #[trigger]
            crate::sorted::set_orders(set)(order) ==> Measurement::nothing().then_all(
                measurements(order),
            ).fits(before),
        set.measurement().yields(before, after, n) <==> exists|order: Seq<T>| #[trigger]
            crate::sorted::set_orders(set)(order) && Measurement::nothing().then_all(
                measurements(order),
            ).yields(before, after, n),
{
    lemma_in_some_order(Measurement::nothing(), crate::sorted::set_orders(set), before, after, n);
}

/// An ordered map counts as each entry that a walk meets; its nodes do not count.
pub proof fn law_btree_map_entries<K: MallocSizeOf, V: MallocSizeOf>(
    map: &BTreeMap<K, V>,
    before: OpsModel,
    after: OpsModel,
    n: nat,
)
    ensures
        map.measurement().fits(before) <==> forall|order: Seq<(K, V)>| #[trigger]
            crate::sorted::map_orders(map)(order) ==> Measurement::nothing().then_all(
                measurements(order),
            ).fits(before),
        map.measurement().yields(before, after, n) <==> exists|order: Seq<(K, V)>| #[trigger]
            crate::sorted::map_orders(map)(order) && Measurement::nothing().then_all(
                measurements(order),
            ).yields(before, after, n),
{
    lemma_in_some_order(Measurement::nothing(), crate::sorted::map_orders(map), before, after, n);
}

/// A hash set whose items have the same size counts as its table and that size for
/// each of its items.
pub proof fn law_hash_set_of_equal_items<T: Eq + Hash + MallocSizeOf, S: BuildHasher>(
    set: &HashSet<T, S>,
    family: spec_fn(OpsModel) -> bool,
    size: nat,
    before: OpsModel,
    after: OpsModel,
    n: nat,
)
    requires
        hashes_well::<T, S>(),
        family(before),
        stays_in(set.shallow_measurement(), family),
        forall|item: T| #[trigger]
            set@.contains(item) ==> always_returns(item.measurement(), family, size),
        set.measurement().yields(before, after, n),
    ensures
        exists|mid: OpsModel, x: nat| #[trigger]
            set.shallow_measurement().yields(before, mid, x) && n == x + set@.len() * size,
{
    law_hash_set_items(set, before, after, n);
    lemma_set_walk(set);
    let first = set.shallow_measurement();
    let order = choose|order: Seq<T>| #[trigger]
        set_orders(set)(order) && first.then_all(measurements(order)).yields(before, after, n);
    order.unique_seq_to_set();
    let rest = measurements(order);
    assert forall|i: int| 0 <= i < rest.len() implies always_returns(
        #[trigger] rest[i],
        family,
        size,
    ) by {
        assert(order.to_set().contains(order[i]));
        assert(rest[i] == order[i].measurement());
    }
    law_sum_of_equal_sizes(first, rest, family, size, before, after, n);
}

/// A hash map whose keys and whose values have the same size counts as its table and
/// those two sizes for each of its entries.
pub proof fn law_hash_map_of_equal_entries<
    K: Eq + Hash + MallocSizeOf,
    V: MallocSizeOf,
    S: BuildHasher,
>(
    map: &HashMap<K, V, S>,
    family: spec_fn(OpsModel) -> bool,
    key_size: nat,
    value_size: nat,
    before: OpsModel,
    after: OpsModel,
    n: nat,
)
    requires
        hashes_well::<K, S>(),
        family(before),
        stays_in(map.shallow_measurement(), family),
        forall|key: K| #[trigger]
            map@.contains_key(key) ==> always_returns(key.measurement(), family, key_size)
                && always_returns(map@[key].measurement(), family, value_size),
        map.measurement().yields(before, after, n),
    ensures
        exists|mid: OpsModel, x: nat|
            {
                &&& #[trigger] map.shallow_measurement().yields(before, mid, x)
                &&& n == x + map@.len() * (key_size + value_size)
            },
{
    law_hash_map_entries(map, before, after, n);
    lemma_map_walk(map);
    let first = map.shallow_measurement();
    let order = choose|order: Seq<(K, V)>| #[trigger]
        map_orders(map)(order) && first.then_all(measurements(order)).yields(before, after, n);
    lemma_entries(map@, order);
    let size = key_size + value_size;
    let rest = measurements(order);
    assert forall|i: int| 0 <= i < rest.len() implies always_returns(
        #[trigger] rest[i],
        family,
        size,
    ) by {
        assert(map@.contains_key(order[i].0));
        lemma_entry_returns(order[i], family, key_size, value_size);
        assert(rest[i] == order[i].measurement());
    }
    law_sum_of_equal_sizes(first, rest, family, size, before, after, n);
}

/// An ordered set whose items have the same size counts that size for each of them.
pub proof fn law_btree_set_of_equal_items<T: MallocSizeOf>(
    set: &BTreeSet<T>,
    family: spec_fn(OpsModel) -> bool,
    size: nat,
    before: OpsModel,
    after: OpsModel,
    n: nat,
)
    requires
        orders_well::<T>(),
        family(before),
        forall|item: T| #[trigger]
            set@.contains(item) ==> always_returns(item.measurement(), family, size),
        set.measurement().yields(before, after, n),
    ensures
        n == set@.len() * size,
{
    law_btree_set_items(set, before, after, n);
    crate::sorted::lemma_set_walk(set);
    let first = Measurement::nothing();
    let order = choose|order: Seq<T>| #[trigger]
        crate::sorted::set_orders(set)(order) && first.then_all(measurements(order)).yields(
            before,
            after,
            n,
        );
    order.unique_seq_to_set();
    let rest = measurements(order);
    assert forall|i: int| 0 <= i < rest.len() implies always_returns(
        #[trigger] rest[i],
        family,
        size,
    ) by {
        assert(order.to_set().contains(order[i]));
        assert(rest[i] == order[i].measurement());
    }
    law_sum_of_equal_sizes(first, rest, family, size, before, after, n);
}

/// An ordered map whose keys and whose values have the same size counts those two sizes
/// for each of its entries.
pub proof fn law_btree_map_of_equal_entries<K: MallocSizeOf, V: MallocSizeOf>(
    map: &BTreeMap<K, V>,
    family: spec_fn(OpsModel) -> bool,
    key_size: nat,
    value_size: nat,
    before: OpsModel,
    after: OpsModel,
    n: nat,
)
    requires
        orders_well::<K>(),
        family(before),
        forall|key: K| #[trigger]
            map@.contains_key(key) ==> always_returns(key.measurement(), family, key_size)
                && always_returns(map@[key].measurement(), family, value_size),
        map.measurement().yields(before, after, n),
    ensures
        n == map@.len() * (key_size + value_size),
{
    law_btree_map_entries(map, before, after, n);
    crate::sorted::lemma_map_walk(map);
    let first = Measurement::nothing();
    let order = choose|order: Seq<(K, V)>| #[trigger]
        crate::sorted::map_orders(map)(order) && first.then_all(measurements(order)).yields(
            before,
            after,
            n,
        );
    lemma_entries(map@, order);
    let size = key_size + value_size;
    let rest = measurements(order);
    assert forall|i: int| 0 <= i < rest.len() implies always_returns(
        #[trigger] rest[i],
        family,
        size,
    ) by {
        assert(map@.contains_key(order[i].0));
        lemma_entry_returns(order[i], family, key_size, value_size);
        assert(rest[i] == order[i].measurement());
    }
    law_sum_of_equal_sizes(first, rest, family, size, before, after, n);
}

/// A `hashbrown` map whose entries have the same size counts as its table and that size
/// for each entry that a walk meets.
pub proof fn law_hashbrown_map_of_equal_entries<
    K: Eq + Hash + MallocSizeOf,
    V: MallocSizeOf,
    S: BuildHasher,
>(
    map: &hashbrown::HashMap<K, V, S>,
    walk: Seq<(K, V)>,
    family: spec_fn(OpsModel) -> bool,
    key_size: nat,
    value_size: nat,
    before: OpsModel,
    after: OpsModel,
    n: nat,
)
    requires
        crate::brown::map_orders(map)(walk),
        crate::brown::walks_agree(map),
        family(before),
        stays_in(map.shallow_measurement(), family),
        forall|i: int|
            0 <= i < walk.len() ==> always_returns(
                (#[trigger] walk[i]).0.measurement(),
                family,
                key_size,
            ) && always_returns(walk[i].1.measurement(), family, value_size),
        map.measurement().yields(before, after, n),
    ensures
        exists|mid: OpsModel, x: nat|
            {
                &&& #[trigger] map.shallow_measurement().yields(before, mid, x)
                &&& n == x + walk.len() * (key_size + value_size)
            },
{
    law_hashbrown_map_entries(map, before, after, n);
    let first = map.shallow_measurement();
    let order = choose|order: Seq<(K, V)>| #[trigger]
        crate::brown::map_orders(map)(order) && first.then_all(measurements(order)).yields(
            before,
            after,
            n,
        );
    assert(order == walk);
    let size = key_size + value_size;
    let rest = measurements(order);
    assert forall|i: int| 0 <= i < rest.len() implies always_returns(
        #[trigger] rest[i],
        family,
        size,
    ) by {
        lemma_entry_returns(order[i], family, key_size, value_size);
        assert(rest[i] == order[i].measurement());
    }
    law_sum_of_equal_sizes(first, rest, family, size, before, after, n);
}

/// A walk over an ordered set meets each of its items once, in ascending order, and
/// what it meets first is the least of them.
pub proof fn law_btree_set_walk<T>(set: &BTreeSet<T>, order: Seq<T>, first: Option<T>)
    requires
        orders_well::<T>(),
    ensures
        crate::sorted::set_orders(set)(order) ==> {
            &&& order.no_duplicates()
            &&& order.to_set() == set@
            &&& exists|items: Seq<&T>| items.unref() == order && increasing_seq(items)
        },
        crate::sorted::set_firsts(set)(first) ==> match first {
            Some(item) => is_least(set@, item) && set@.contains(item),
            None => set@ == Set::<T>::empty(),
        },
{
    crate::sorted::lemma_set_walk(set);
}

/// A walk over an ordered map meets each of its entries once, with ascending keys, and
/// the value that it meets first is that of the least key.
pub proof fn law_btree_map_walk<K, V>(map: &BTreeMap<K, V>, order: Seq<(K, V)>, first: Option<V>)
    requires
        orders_well::<K>(),
    ensures
        crate::sorted::map_orders(map)(order) ==> {
            &&& order.no_duplicates()
            &&& order.to_set() == map@.kv_pairs()
            &&& increasing_seq(order.map_values(|entry: (K, V)| entry.0))
        },
        crate::sorted::map_firsts(map)(first) ==> match first {
            Some(value) => is_least_value(map@, value),
            None => map@.dom() == Set::<K>::empty(),
        },
{
    crate::sorted::lemma_map_walk(map);
}

/// The least of a set comes first where all of its items are in ascending order, and the
/// value of the least key of a map belongs to the key that comes first.
pub proof fn law_least<T, K, V>(set: Set<T>, item: T, map: Map<K, V>, value: V)
    ensures
        is_least(set, item) <==> exists|items: Seq<&T>|
            {
                &&& #[trigger] increasing_seq(items)
                &&& items.unref().no_duplicates()
                &&& items.unref().to_set() == set
                &&& items.len() > 0 && *items[0] == item
            },
        is_least(set, item) ==> set.contains(item),
        is_least_value(map, value) <==> exists|keys: Seq<K>|
            {
                &&& #[trigger] increasing_seq(keys)
                &&& keys.no_duplicates()
                &&& keys.to_set() == map.dom()
                &&& keys.len() > 0 && map[keys[0]] == value
            },
{
    if is_least(set, item) {
        let items = choose|items: Seq<&T>|
            {
                &&& #[trigger] increasing_seq(items)
                &&& items.len() > 0
                &&& items.unref().no_duplicates()
                &&& items.unref().to_set() == set
                &&& *items[0] == item
            };
        assert(items.unref()[0] == item);
        assert(items.unref().to_set().contains(item));
    }
    if exists|keys: Seq<K>|
        {
            &&& #[trigger] increasing_seq(keys)
            &&& keys.no_duplicates()
            &&& keys.to_set() == map.dom()
            &&& keys.len() > 0 && map[keys[0]] == value
        } {
        let keys = choose|keys: Seq<K>|
            {
                &&& #[trigger] increasing_seq(keys)
                &&& keys.no_duplicates()
                &&& keys.to_set() == map.dom()
                &&& keys.len() > 0 && map[keys[0]] == value
            };
        assert(keys.to_set().contains(keys[0]));
        assert(is_least_value(map, value));
    }
}

} // verus!
