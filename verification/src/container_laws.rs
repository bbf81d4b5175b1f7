//! What holds of the measurements of containers.
use crate::buffers::{
    buffer_and_items, byte_buf_addresses, bytes_of, inline_vec_states, layer0_addresses, layer0_of,
    layer1_addresses, layer1_of, layer2_addresses, layer2_of, layer_buffer, layer_measurement,
    spilled_buffer, ByteBuffer, InlineVec,
};
use crate::hashed::{
    hashes_well, lemma_map_walk, lemma_set_walk, map_capacities, map_orders, set_capacities,
    set_orders,
};
use crate::json::{
    all_inside, entry_measurements, inside, item_measurements, json_model, values_of, JsonModel,
};
use crate::laws::{
    bounded, keeps_ops, law_block_bounded, law_bounded_pair, law_bounded_sum,
    law_buffer_at_one_address, law_buffer_bounded, law_first_and_rest, law_order_does_not_matter,
    law_rest_without_heap, law_rest_without_heap_fits, law_same_sums, law_sum_keeps_ops,
    reporting_at_most, same_sizes,
};
use crate::measurement::Measurement;
use crate::ops::{OpsModel, Target};
use crate::order::{block_around_first, each_in_order, in_some_order};
use crate::sequences::{
    lemma_deque_shallow_fits, lemma_vec_shallow_fits, string_addresses, vec_addresses,
    vec_capacities,
};
use crate::sorted::{
    is_least, is_least_value, lemma_map_walk as lemma_sorted_map_walk,
    lemma_set_walk as lemma_sorted_set_walk, orders_well,
};
use crate::traits::{measurements, MallocShallowSizeOf, MallocSizeOf};
use crate::walk::{block_of, lies_at, multiples_of};
use hibitset::BitSet;
use serde_json::Value;
use std::collections::{BTreeMap, BTreeSet, HashMap, HashSet, VecDeque};
use std::hash::{BuildHasher, Hash};
use vstd::prelude::*;

verus! {

/// What measuring `items` one by one may return.
pub open spec fn one_by_one<T: MallocSizeOf>(items: Seq<T>) -> Measurement {
    Measurement::nothing().then_all(measurements(items))
}

/// The deep measurement of a vector is the shallow one and its items one by one.
pub proof fn law_vec_deep<T: MallocSizeOf>(vec: &Vec<T>)
    ensures
        same_sizes(vec.measurement(), vec.shallow_measurement().plus(one_by_one(vec@))),
{
    law_first_and_rest(vec.shallow_measurement(), measurements(vec@));
}

/// The deep measurement of a deque is the shallow one and its items one by one.
pub proof fn law_deque_deep<T: MallocSizeOf>(deque: &VecDeque<T>)
    ensures
        same_sizes(deque.measurement(), deque.shallow_measurement().plus(one_by_one(deque@))),
{
    law_first_and_rest(deque.shallow_measurement(), measurements(deque@));
}

/// The items of a vector that own nothing do not count: the deep measurement is
/// the shallow one, and can always be made.
pub proof fn law_vec_of_plain_items<T: MallocSizeOf>(vec: &Vec<T>, ops: OpsModel)
    requires
        forall|i: int|
            0 <= i < vec@.len() ==> #[trigger] vec@[i].measurement() == Measurement::nothing(),
    ensures
        same_sizes(vec.measurement(), vec.shallow_measurement()),
        vec.measurement().fits(ops),
{
    let shallow = vec.shallow_measurement();
    law_rest_without_heap(shallow, measurements(vec@));
    lemma_vec_shallow_fits(vec, ops);
    law_rest_without_heap_fits(shallow, measurements(vec@), ops);
}

/// Two vectors have one buffer: what is found of it is the same.
pub open spec fn same_buffer<T>(one: &Vec<T>, other: &Vec<T>) -> bool {
    &&& forall|ptr: usize| #[trigger] vec_addresses(one)(ptr) == vec_addresses(other)(ptr)
    &&& forall|count: usize| #[trigger]
        vec_capacities(one)(count) == vec_capacities(other)(count)
}

/// An item that is pushed to a vector without a new allocation adds exactly its
/// own size: the buffer counts by its block and not by its length.
pub proof fn law_vec_push<T: MallocSizeOf>(vec: &Vec<T>, item: T, pushed: &Vec<T>)
    requires
        pushed@ == vec@.push(item),
        same_buffer(vec, pushed),
    ensures
        pushed.measurement() == vec.measurement().plus(item.measurement()),
{
    assert(vec_addresses(vec) =~= vec_addresses(pushed));
    assert(vec_capacities(vec) =~= vec_capacities(pushed));
    let items = measurements(pushed@);
    assert(items.drop_last() =~= measurements(vec@));
    assert(items.last() == item.measurement());
}

/// A vector whose elements lie at the address of an empty allocation has no buffer
/// that counts, except on WebAssembly.
pub proof fn law_vec_without_buffer<T>(
    vec: &Vec<T>,
    before: OpsModel,
    after: OpsModel,
    n: nat,
)
    requires
        before.target == Target::Native,
        forall|ptr: usize| #[trigger] vec_addresses(vec)(ptr) ==> OpsModel::is_empty(ptr),
        vec.shallow_measurement().yields(before, after, n),
    ensures
        n == 0,
        after == before,
{
}

/// The items of a deque that own nothing do not count: the deep measurement is the
/// shallow one, and can always be made where no operation on interior pointers is
/// available.
pub proof fn law_deque_of_plain_items<T: MallocSizeOf>(deque: &VecDeque<T>, ops: OpsModel)
    requires
        forall|i: int|
            0 <= i < deque@.len() ==> #[trigger] deque@[i].measurement()
                == Measurement::nothing(),
    ensures
        same_sizes(deque.measurement(), deque.shallow_measurement()),
        deque.shallow_measurement().fits(ops) ==> deque.measurement().fits(ops),
        ops.enclosing_size is None ==> deque.measurement().fits(ops),
{
    let shallow = deque.shallow_measurement();
    law_rest_without_heap(shallow, measurements(deque@));
    lemma_deque_shallow_fits(deque, ops);
    if shallow.fits(ops) {
        law_rest_without_heap_fits(shallow, measurements(deque@), ops);
    }
}

/// Measuring a container in some order is its shallow measurement, and its items
/// in that order one by one.
pub proof fn law_deep_in_some_order<T: MallocSizeOf>(
    shallow: Measurement,
    orders: spec_fn(Seq<T>) -> bool,
)
    ensures
        same_sizes(
            in_some_order(shallow, orders),
            shallow.plus(in_some_order(Measurement::nothing(), orders)),
        ),
{
    let nothing = Measurement::nothing();
    let contents = in_some_order(nothing, orders);
    let deep = in_some_order(shallow, orders);
    assert forall|before: OpsModel, after: OpsModel, n: nat| #[trigger]
        deep.yields(before, after, n) implies shallow.plus(contents).yields(before, after, n) by {
        let order = choose|order: Seq<T>| #[trigger]
            orders(order) && each_in_order(shallow)(order).yields(before, after, n);
        let items = each_in_order(nothing)(order);
        law_first_and_rest(shallow, measurements(order));
        assert(shallow.plus(items).yields(before, after, n));
        assert(shallow.plus_yields(items, before, after, n));
        let (mid, a, b): (OpsModel, nat, nat) = choose|mid: OpsModel, a: nat, b: nat|
            {
                &&& #[trigger] shallow.yields(before, mid, a)
                &&& #[trigger] items.yields(mid, after, b)
                &&& n == a + b
            };
        assert(contents.yields(mid, after, b));
        assert(shallow.plus_yields(contents, before, after, n));
    }
    assert forall|before: OpsModel, after: OpsModel, n: nat| #[trigger]
        shallow.plus(contents).yields(before, after, n) implies deep.yields(before, after, n) by {
        assert(shallow.plus_yields(contents, before, after, n));
        let (mid, a, b): (OpsModel, nat, nat) = choose|mid: OpsModel, a: nat, b: nat|
            {
                &&& #[trigger] shallow.yields(before, mid, a)
                &&& #[trigger] contents.yields(mid, after, b)
                &&& n == a + b
            };
        let order = choose|order: Seq<T>| #[trigger]
            orders(order) && each_in_order(nothing)(order).yields(mid, after, b);
        let items = each_in_order(nothing)(order);
        law_first_and_rest(shallow, measurements(order));
        assert(shallow.plus_yields(items, before, after, n));
        assert(shallow.plus(items).yields(before, after, n));
        assert(each_in_order(shallow)(order).yields(before, after, n));
    }
}

/// The deep measurement of a hash set is the shallow one and its items one by
/// one, in the order of a walk, which meets each of them once.
pub proof fn law_hash_set_deep<T: Eq + Hash + MallocSizeOf, S: BuildHasher>(set: &HashSet<T, S>)
    ensures
        same_sizes(
            set.measurement(),
            set.shallow_measurement().plus(
                in_some_order(Measurement::nothing(), set_orders(set)),
            ),
        ),
        hashes_well::<T, S>() ==> forall|order: Seq<T>| #[trigger]
            set_orders(set)(order) ==> order.no_duplicates() && order.to_set() == set@,
{
    law_deep_in_some_order(set.shallow_measurement(), set_orders(set));
    if hashes_well::<T, S>() {
        lemma_set_walk(set);
    }
}

/// The deep measurement of a hash map is the shallow one and its entries one by
/// one, in the order of a walk, which meets each of them once.
pub proof fn law_hash_map_deep<
    K: Eq + Hash + MallocSizeOf,
    V: MallocSizeOf,
    S: BuildHasher,
>(map: &HashMap<K, V, S>)
    ensures
        same_sizes(
            map.measurement(),
            map.shallow_measurement().plus(
                in_some_order(Measurement::nothing(), map_orders(map)),
            ),
        ),
        hashes_well::<K, S>() ==> forall|order: Seq<(K, V)>| #[trigger]
            map_orders(map)(order) ==> order.no_duplicates() && order.to_set()
                == map@.kv_pairs(),
{
    law_deep_in_some_order(map.shallow_measurement(), map_orders(map));
    if hashes_well::<K, S>() {
        lemma_map_walk(map);
    }
}

/// Sequences without duplicates and with the same items are the same up to the
/// order.
proof fn lemma_same_items<T>(one: Seq<T>, other: Seq<T>)
    requires
        one.no_duplicates(),
        other.no_duplicates(),
        one.to_set() == other.to_set(),
    ensures
        one.to_multiset() == other.to_multiset(),
{
    broadcast use vstd::seq_lib::group_to_multiset_ensures;

    one.lemma_multiset_has_no_duplicates();
    other.lemma_multiset_has_no_duplicates();
    assert forall|item: T| one.to_multiset().count(item) == other.to_multiset().count(item) by {
        assert(one.to_set().contains(item) == one.contains(item));
        assert(other.to_set().contains(item) == other.contains(item));
        assert(one.contains(item) == (one.to_multiset().count(item) > 0));
        assert(other.contains(item) == (other.to_multiset().count(item) > 0));
    }
    assert(one.to_multiset() =~= other.to_multiset());
}

/// The order in which a hash set is walked does not matter, where measuring an
/// item leaves the operations as they were.
pub proof fn law_hash_set_order<T: Eq + Hash + MallocSizeOf, S: BuildHasher>(
    set: &HashSet<T, S>,
    one: Seq<T>,
    other: Seq<T>,
)
    requires
        hashes_well::<T, S>(),
        set_orders(set)(one),
        set_orders(set)(other),
        forall|item: T| set@.contains(item) ==> keeps_ops(#[trigger] item.measurement()),
    ensures
        same_sizes(
            each_in_order(set.shallow_measurement())(one),
            each_in_order(set.shallow_measurement())(other),
        ),
{
    lemma_set_walk(set);
    lemma_same_items(one, other);
    assert forall|i: int| 0 <= i < one.len() implies keeps_ops(#[trigger] one[i].measurement()) by {
        assert(one.to_set().contains(one[i]));
    }
    law_order_does_not_matter(set.shallow_measurement(), one, other);
}

/// The order in which a hash map is walked does not matter, where measuring an
/// entry leaves the operations as they were.
pub proof fn law_hash_map_order<K: Eq + Hash + MallocSizeOf, V: MallocSizeOf, S: BuildHasher>(
    map: &HashMap<K, V, S>,
    one: Seq<(K, V)>,
    other: Seq<(K, V)>,
)
    requires
        hashes_well::<K, S>(),
        map_orders(map)(one),
        map_orders(map)(other),
        forall|entry: (K, V)|
            map@.kv_pairs().contains(entry) ==> keeps_ops(#[trigger] entry.measurement()),
    ensures
        same_sizes(
            each_in_order(map.shallow_measurement())(one),
            each_in_order(map.shallow_measurement())(other),
        ),
{
    lemma_map_walk(map);
    lemma_same_items(one, other);
    assert forall|i: int| 0 <= i < one.len() implies keeps_ops(#[trigger] one[i].measurement()) by {
        assert(one.to_set().contains(one[i]));
    }
    law_order_does_not_matter(map.shallow_measurement(), one, other);
}

/// Where an operation on interior pointers is available, a hash set is measured
/// by the block around the item that a walk meets first, and an empty one owns
/// nothing.
pub proof fn law_hash_set_interior<T: Eq + Hash, S: BuildHasher>(
    set: &HashSet<T, S>,
    before: OpsModel,
    after: OpsModel,
    n: nat,
)
    requires
        hashes_well::<T, S>(),
        before.enclosing_size is Some,
        set.shallow_measurement().yields(before, after, n),
    ensures
        after == before,
        set@ == Set::<T>::empty() ==> n == 0,
        set@ != Set::<T>::empty() ==> exists|item: T, ptr: usize|
            {
                &&& set@.contains(item)
                &&& forall|order: Seq<T>| #[trigger]
                    set_orders(set)(order) ==> order.len() > 0 && order[0] == item
                &&& #[trigger] lies_at(&item, ptr)
                &&& n <= usize::MAX
                &&& before.reports_enclosing(ptr, n as usize)
            },
{
    lemma_set_walk(set);
}

/// Where an operation on interior pointers is available, a hash map is measured
/// by the block around one of its values, and an empty one owns nothing.
pub proof fn law_hash_map_interior<K: Eq + Hash, V, S: BuildHasher>(
    map: &HashMap<K, V, S>,
    before: OpsModel,
    after: OpsModel,
    n: nat,
)
    requires
        hashes_well::<K, S>(),
        before.enclosing_size is Some,
        map.shallow_measurement().yields(before, after, n),
    ensures
        after == before,
        map@.values() == Set::<V>::empty() ==> n == 0,
        map@.values() != Set::<V>::empty() ==> exists|value: V, ptr: usize|
            {
                &&& map@.values().contains(value)
                &&& #[trigger] lies_at(&value, ptr)
                &&& n <= usize::MAX
                &&& before.reports_enclosing(ptr, n as usize)
            },
{
    lemma_map_walk(map);
}

/// Where no operation on interior pointers is available, a hash set counts as
/// an item and a word for each place that it has room for, which are no fewer
/// than its items.
pub proof fn law_hash_set_estimate<T: Eq + Hash, S: BuildHasher>(
    set: &HashSet<T, S>,
    before: OpsModel,
    after: OpsModel,
    n: nat,
)
    requires
        hashes_well::<T, S>(),
        before.enclosing_size is None,
        set.shallow_measurement().yields(before, after, n),
    ensures
        after == before,
        exists|count: usize|
            {
                &&& #[trigger] set_capacities(set)(count)
                &&& count >= set@.len()
                &&& n == count * (vstd::layout::size_of::<T>() + vstd::layout::size_of::<usize>())
            },
{
    lemma_set_walk(set);
}

/// Where no operation on interior pointers is available, a hash map counts as a
/// value, a key and a word for each place that it has room for, which are no
/// fewer than its entries.
pub proof fn law_hash_map_estimate<K: Eq + Hash, V, S: BuildHasher>(
    map: &HashMap<K, V, S>,
    before: OpsModel,
    after: OpsModel,
    n: nat,
)
    requires
        hashes_well::<K, S>(),
        before.enclosing_size is None,
        map.shallow_measurement().yields(before, after, n),
    ensures
        after == before,
        exists|count: usize|
            {
                &&& #[trigger] map_capacities(map)(count)
                &&& count >= map@.len()
                &&& n == count * (vstd::layout::size_of::<V>() + vstd::layout::size_of::<K>()
                    + vstd::layout::size_of::<usize>())
            },
{
    lemma_map_walk(map);
}

/// Where an operation on interior pointers is available, an ordered set is
/// measured by the block around its least item, and an empty one owns nothing.
/// Where none is, an item and a word are counted for each of them.
pub proof fn law_btree_set_shallow<T>(
    set: &BTreeSet<T>,
    before: OpsModel,
    after: OpsModel,
    n: nat,
)
    requires
        orders_well::<T>(),
        set.shallow_measurement().yields(before, after, n),
    ensures
        after == before,
        before.enclosing_size is Some && set@ == Set::<T>::empty() ==> n == 0,
        before.enclosing_size is Some && set@ != Set::<T>::empty() ==> exists|item: T, ptr: usize|
            {
                &&& is_least(set@, item)
                &&& #[trigger] lies_at(&item, ptr)
                &&& n <= usize::MAX
                &&& before.reports_enclosing(ptr, n as usize)
            },
        before.enclosing_size is None ==> n == set@.len() * (vstd::layout::size_of::<T>()
            + vstd::layout::size_of::<usize>()),
{
    broadcast use vstd::std_specs::btree::group_btree_axioms;

    lemma_sorted_set_walk(set);
}

/// Where an operation on interior pointers is available, an ordered map is
/// measured by the block around the value of its least key, and an empty one owns
/// nothing. Where none is, a value, a key and a word are counted for each entry.
pub proof fn law_btree_map_shallow<K, V>(
    map: &BTreeMap<K, V>,
    before: OpsModel,
    after: OpsModel,
    n: nat,
)
    requires
        orders_well::<K>(),
        map.shallow_measurement().yields(before, after, n),
    ensures
        after == before,
        before.enclosing_size is Some && map@.dom() == Set::<K>::empty() ==> n == 0,
        before.enclosing_size is Some && map@.dom() != Set::<K>::empty() ==> exists|
            value: V,
            ptr: usize,
        |
            {
                &&& is_least_value(map@, value)
                &&& #[trigger] lies_at(&value, ptr)
                &&& n <= usize::MAX
                &&& before.reports_enclosing(ptr, n as usize)
            },
        before.enclosing_size is None ==> n == map@.len() * (vstd::layout::size_of::<V>()
            + vstd::layout::size_of::<K>() + vstd::layout::size_of::<usize>()),
{
    broadcast use vstd::std_specs::btree::group_btree_axioms;

    lemma_sorted_map_walk(map);
}

/// Where an operation on interior pointers is available, a deque is measured by
/// the block around its front item. An empty one owns nothing, and one of items that
/// take up no space owns nothing.
pub proof fn law_deque_interior<T>(
    deque: &VecDeque<T>,
    before: OpsModel,
    after: OpsModel,
    n: nat,
)
    requires
        before.enclosing_size is Some,
        deque.shallow_measurement().yields(before, after, n),
    ensures
        after == before,
        deque@.len() == 0 || vstd::layout::size_of::<T>() == 0 ==> n == 0,
        deque@.len() > 0 && vstd::layout::size_of::<T>() > 0 ==> exists|ptr: usize|
            {
                &&& #[trigger] lies_at(&deque@[0], ptr)
                &&& n <= usize::MAX
                &&& before.reports_enclosing(ptr, n as usize)
            },
{
}

/// A reference owns nothing, whatever the value behind it owns.
pub proof fn law_reference_owns_nothing<'a, T: ?Sized>(
    reference: &&'a T,
    before: OpsModel,
    after: OpsModel,
    n: nat,
)
    ensures
        <&'a T as MallocSizeOf>::measurement(reference).fits(before),
        <&'a T as MallocSizeOf>::measurement(reference).yields(before, after, n) <==> after
            == before && n == 0,
{
}

/// A box owns its block and what the value in it owns; on WebAssembly, where
/// blocks cannot be measured, only the latter counts.
pub proof fn law_box_deep<T: MallocSizeOf>(
    boxed: &Box<T>,
    before: OpsModel,
    after: OpsModel,
    n: nat,
)
    requires
        boxed.measurement().yields(before, after, n),
    ensures
        before.target == Target::Wasm ==> (**boxed).measurement().yields(before, after, n),
        before.target == Target::Native ==> exists|a: nat, b: nat|
            {
                &&& #[trigger] block_of(&**boxed).yields(before, before, a)
                &&& #[trigger] (**boxed).measurement().yields(before, after, b)
                &&& n == a + b
            },
{
    assert(boxed.shallow_measurement().plus_yields((**boxed).measurement(), before, after, n));
}

/// The block of a boxed slice counts once: its deep measurement is that of the block
/// and its items one by one.
pub proof fn law_boxed_slice_deep<T: MallocSizeOf>(boxed: &Box<[T]>)
    ensures
        same_sizes(boxed.measurement(), boxed.shallow_measurement().plus(one_by_one((**boxed)@))),
{
    law_first_and_rest(boxed.shallow_measurement(), measurements((**boxed)@));
}

/// The bytes of a buffer own nothing: its deep measurement is the shallow one,
/// and can always be made.
pub proof fn law_byte_buffer_deep(buf: &ByteBuffer, ops: OpsModel)
    ensures
        same_sizes(buf.measurement(), buf.shallow_measurement()),
        buf.measurement().fits(ops),
{
    let bytes = measurements(bytes_of(*buf));
    law_rest_without_heap(buf.shallow_measurement(), bytes);
    law_rest_without_heap_fits(buf.shallow_measurement(), bytes, ops);
}

/// The deep and the shallow size of a buffer that lies at one address, of which the
/// operations report one size, are that size.
pub proof fn law_byte_buffer_sizes(
    buf: &ByteBuffer,
    ptr: usize,
    size: usize,
    before: OpsModel,
    after: OpsModel,
    n: nat,
)
    requires
        forall|p: usize| #[trigger] byte_buf_addresses(buf)(p) ==> p == ptr,
        forall|m: usize| #[trigger] before.reports(ptr, m) ==> m == size,
    ensures
        buf.shallow_measurement().yields(before, after, n) ==> n == size && after == before,
        buf.measurement().yields(before, after, n) ==> n == size && after == before,
{
    law_rest_without_heap(buf.shallow_measurement(), measurements(bytes_of(*buf)));
    if buf.shallow_measurement().yields(before, after, n) {
        law_buffer_at_one_address(byte_buf_addresses(buf), ptr, size, before, after, n);
    }
}

/// The deep measurement of a vector with room for some items in itself is at
/// least the shallow one, and the rest is that of its items one by one.
pub proof fn law_inline_vec_deep<T: MallocSizeOf, const N: usize>(
    vec: &InlineVec<T, N>,
    before: OpsModel,
    after: OpsModel,
    n: nat,
)
    requires
        vec.measurement().yields(before, after, n),
    ensures
        exists|state: (bool, Seq<T>), mid: OpsModel, a: nat, b: nat|
            {
                &&& inline_vec_states(vec)(state)
                &&& #[trigger] spilled_buffer(vec, state.0).yields(before, mid, a)
                &&& #[trigger] one_by_one(state.1).yields(mid, after, b)
                &&& n == a + b
            },
{
    let body = buffer_and_items(vec);
    let state = choose|state: (bool, Seq<T>)| #[trigger]
        inline_vec_states(vec)(state) && body(state).yields(before, after, n);
    let first = spilled_buffer(vec, state.0);
    law_first_and_rest(first, measurements(state.1));
    assert(first.plus(one_by_one(state.1)).yields(before, after, n));
    assert(first.plus_yields(one_by_one(state.1), before, after, n));
}

/// A bit set counts as the buffers of its three layers: their words own nothing.
pub proof fn law_bit_set_is_its_buffers(set: &BitSet)
    ensures
        same_sizes(
            set.measurement(),
            layer_buffer(layer0_addresses(set)).plus(layer_buffer(layer1_addresses(set))).plus(
                layer_buffer(layer2_addresses(set)),
            ),
        ),
{
    let (a0, a1, a2) = (layer0_addresses(set), layer1_addresses(set), layer2_addresses(set));
    let (w0, w1, w2) = (layer0_of(*set), layer1_of(*set), layer2_of(*set));
    law_rest_without_heap(layer_buffer(a0), measurements(w0));
    law_rest_without_heap(layer_buffer(a1), measurements(w1));
    law_rest_without_heap(layer_buffer(a2), measurements(w2));
    let (m0, m1, m2) = (
        layer_measurement(a0, w0),
        layer_measurement(a1, w1),
        layer_measurement(a2, w2),
    );
    law_same_sums(m0, layer_buffer(a0), m1, layer_buffer(a1));
    law_same_sums(
        m0.plus(m1),
        layer_buffer(a0).plus(layer_buffer(a1)),
        m2,
        layer_buffer(a2),
    );
}

/// The deep measurement of a `hashbrown` map is the shallow one and its entries
/// one by one, in the order of a walk.
pub proof fn law_hashbrown_map_deep<
    K: Eq + Hash + MallocSizeOf,
    V: MallocSizeOf,
    S: BuildHasher,
>(map: &hashbrown::HashMap<K, V, S>)
    ensures
        same_sizes(
            map.measurement(),
            map.shallow_measurement().plus(
                in_some_order(Measurement::nothing(), crate::brown::map_orders(map)),
            ),
        ),
{
    law_deep_in_some_order(map.shallow_measurement(), crate::brown::map_orders(map));
}

/// Any two walks over a `hashbrown` map that is measured agree.
pub proof fn law_hashbrown_walks_agree<K: Eq + Hash, V, S: BuildHasher>(
    map: &hashbrown::HashMap<K, V, S>,
    before: OpsModel,
    after: OpsModel,
    n: nat,
    one: Seq<(K, V)>,
    other: Seq<(K, V)>,
)
    requires
        map.shallow_measurement().yields(before, after, n),
        crate::brown::map_orders(map)(one),
        crate::brown::map_orders(map)(other),
    ensures
        one == other,
{
    crate::brown::lemma_map_walk(map);
    if before.enclosing_size is Some {
        let first = choose|first: Option<V>| #[trigger]
            crate::brown::map_firsts(map)(first) && block_around_first::<V>()(first).yields(
                before,
                after,
                n,
            );
        assert(crate::brown::starts_with(map, first));
    } else {
        let unit = vstd::layout::size_of::<V>() + vstd::layout::size_of::<K>()
            + vstd::layout::size_of::<usize>();
        let count = choose|count: usize| #[trigger]
            crate::brown::map_capacities(map)(count) && multiples_of(unit)(count).yields(
                before,
                after,
                n,
            );
        assert(crate::brown::holds_at_most(map, count));
    }
}

/// A JSON value that is `null`, a boolean or a number owns nothing.
pub proof fn law_json_scalar(value: &Value)
    requires
        json_model(*value) is Null || json_model(*value) is Bool || json_model(*value) is Number,
    ensures
        value.measurement() == Measurement::nothing(),
{
}

/// A JSON array is measured as its vector is.
pub proof fn law_json_array(value: &Value, items: Vec<Value>)
    requires
        json_model(*value) == JsonModel::Array(items),
        all_inside(*value, json_model(*value)),
    ensures
        value.measurement() == items.measurement(),
{
    assert(item_measurements(*value, items@) =~= measurements(items@)) by {
        assert forall|i: int| 0 <= i < items@.len() implies item_measurements(*value, items@)[i]
            == measurements(items@)[i] by {
            assert(inside(*value, items@[i]));
        }
    }
}

/// A JSON object is measured as its entries are, one by one.
pub proof fn law_json_object(value: &Value, entries: Seq<(String, Value)>)
    requires
        json_model(*value) == JsonModel::Object(entries),
        all_inside(*value, json_model(*value)),
    ensures
        value.measurement() == one_by_one(entries),
{
    assert(entry_measurements(*value, entries) =~= measurements(entries)) by {
        assert forall|i: int| 0 <= i < entries.len() implies entry_measurements(*value, entries)[i]
            == measurements(entries)[i] by {
            assert(inside(*value, values_of(entries)[i]));
        }
    }
}

/// A string is bounded by the largest block that the operations report.
pub proof fn law_string_bounded(string: &String, limit: nat)
    ensures
        bounded(string.measurement(), reporting_at_most(limit), limit),
        keeps_ops(string.measurement()),
{
    law_buffer_bounded(string_addresses(string), limit);
}

/// A box is bounded by the largest block that the operations report, and by what
/// the value in it owns.
pub proof fn law_box_bounded<T: MallocSizeOf>(
    boxed: &Box<T>,
    limit: nat,
    value_bound: nat,
)
    requires
        bounded((**boxed).measurement(), reporting_at_most(limit), value_bound),
        limit + value_bound <= usize::MAX,
    ensures
        bounded(boxed.measurement(), reporting_at_most(limit), limit + value_bound),
{
    law_block_bounded(&**boxed, limit);
    law_bounded_pair(
        boxed.shallow_measurement(),
        (**boxed).measurement(),
        reporting_at_most(limit),
        limit,
        value_bound,
    );
}

/// A vector is bounded by the largest block that the operations report, and by
/// what its items own.
pub proof fn law_vec_bounded<T: MallocSizeOf>(vec: &Vec<T>, limit: nat, item_bound: nat)
    requires
        forall|i: int|
            0 <= i < vec@.len() ==> bounded(
                #[trigger] vec@[i].measurement(),
                reporting_at_most(limit),
                item_bound,
            ),
        limit + vec@.len() * item_bound <= usize::MAX,
    ensures
        bounded(
            vec.measurement(),
            reporting_at_most(limit),
            limit + vec@.len() * item_bound,
        ),
{
    let items = measurements(vec@);
    law_buffer_bounded(vec_addresses(vec), limit);
    assert forall|i: int| 0 <= i < items.len() implies bounded(
        #[trigger] items[i],
        reporting_at_most(limit),
        item_bound,
    ) by {
        assert(items[i] == vec@[i].measurement());
    }
    law_bounded_sum(
        vec.shallow_measurement(),
        items,
        reporting_at_most(limit),
        limit,
        item_bound,
    );
}

/// Measuring a vector leaves the operations as they were, if measuring its items
/// does.
pub proof fn law_vec_keeps_ops<T: MallocSizeOf>(vec: &Vec<T>)
    requires
        forall|i: int| 0 <= i < vec@.len() ==> keeps_ops(#[trigger] vec@[i].measurement()),
    ensures
        keeps_ops(vec.measurement()),
{
    let items = measurements(vec@);
    assert forall|i: int| 0 <= i < items.len() implies keeps_ops(#[trigger] items[i]) by {
        assert(items[i] == vec@[i].measurement());
    }
    law_sum_keeps_ops(vec.shallow_measurement(), items);
}

} // verus!
