//! Reading the blocks that a value owns, and the values in it one by one.
use crate::measurement::{
    lemma_over_fits, lemma_over_yields, lemma_then_all_prefix_fits, lemma_then_all_step,
    Measurement,
};
use crate::ops::{MallocSizeOfOps, OpsModel, Target};
use crate::traits::{measurements, MallocSizeOf};
use vstd::prelude::*;

verus! {

/// The measurement is made on WebAssembly.
pub open spec fn on_wasm() -> spec_fn(OpsModel) -> bool {
    |ops: OpsModel| ops.target == Target::Wasm
}

/// An operation on interior pointers is available.
pub open spec fn interior_pointers() -> spec_fn(OpsModel) -> bool {
    |ops: OpsModel| ops.enclosing_size is Some
}

/// The address of a value: `<*const T>::addr`, applied to the pointer that
/// `std::ptr::from_ref` makes of the reference.
///
/// A reference is never null. Where else the value lies depends on the machine,
/// and nothing more is said of it.
#[verifier::external_body]
pub(crate) fn address_of<T: ?Sized>(value: &T) -> (ptr: usize)
    ensures
        ptr != 0,
{
    std::ptr::from_ref(value).addr()
}

/// `value` may lie at `ptr`.
pub closed spec fn lies_at<T: ?Sized>(value: &T, ptr: usize) -> bool {
    call_ensures(address_of::<T>, (value,), ptr)
}

/// The addresses that `value` may lie at.
pub open spec fn addresses<T: ?Sized>(value: &T) -> spec_fn(usize) -> bool {
    |ptr: usize| lies_at(value, ptr)
}

pub open spec fn blocks() -> spec_fn(usize) -> Measurement {
    |ptr: usize| Measurement::block(ptr)
}

pub open spec fn enclosing_blocks() -> spec_fn(usize) -> Measurement {
    |ptr: usize| Measurement::enclosing(ptr)
}

/// The block that starts with `value`.
pub open spec fn block_of<T: ?Sized>(value: &T) -> Measurement {
    block_at(addresses(value))
}

/// The block that `value` lies in.
pub open spec fn block_around<T: ?Sized>(value: &T) -> Measurement {
    Measurement::over(addresses(value), enclosing_blocks())
}

/// The size of the block that starts with `value`.
pub(crate) fn measure_block_of<T: ?Sized>(value: &T, ops: &MallocSizeOfOps) -> (n: usize)
    ensures
        block_of(value).yields(ops@, ops@, n as nat),
{
    measure_block_at(address_of(value), ops, Ghost(addresses(value)))
}

/// The size of the block that `value` lies in.
pub(crate) fn measure_block_around<T: ?Sized>(value: &T, ops: &MallocSizeOfOps) -> (n: usize)
    requires
        block_around(value).fits(ops@),
    ensures
        block_around(value).yields(ops@, ops@, n as nat),
{
    let ptr = address_of(value);
    proof {
        lemma_over_fits(addresses(value), enclosing_blocks(), ptr, ops@);
    }
    let n = ops.malloc_enclosing_size_of(ptr);
    proof {
        lemma_over_yields(addresses(value), enclosing_blocks(), ptr, ops@, ops@, n as nat);
    }
    n
}

/// The size of the block around `value`, or `None` where `value` lies at the
/// address of an empty allocation.
pub(crate) fn checked_block_around<T>(value: &T, ops: &MallocSizeOfOps) -> (n: Option<usize>)
    requires
        ops@.enclosing_size is Some,
    ensures
        match n {
            Some(n) => block_around(value).yields(ops@, ops@, n as nat),
            None => !block_around(value).fits(ops@),
        },
{
    let ptr = address_of(value);
    if MallocSizeOfOps::is_empty(ptr) {
        assert(addresses(value)(ptr) && !enclosing_blocks()(ptr).fits(ops@));
        None
    } else {
        let n = ops.malloc_enclosing_size_of(ptr);
        proof {
            lemma_over_yields(addresses(value), enclosing_blocks(), ptr, ops@, ops@, n as nat);
        }
        Some(n)
    }
}

/// The value behind a reference, if there is one.
pub open spec fn value_behind<T>(reference: Option<&T>) -> Option<T> {
    match reference {
        Some(value) => Some(*value),
        None => None,
    }
}

/// The block at one of `addresses`.
pub open spec fn block_at(addresses: spec_fn(usize) -> bool) -> Measurement {
    Measurement::over(addresses, blocks())
}

/// The size of the block at `ptr`, which is one of `addresses`.
pub(crate) fn measure_block_at(
    ptr: usize,
    ops: &MallocSizeOfOps,
    Ghost(addresses): Ghost<spec_fn(usize) -> bool>,
) -> (n: usize)
    requires
        addresses(ptr),
    ensures
        block_at(addresses).yields(ops@, ops@, n as nat),
{
    let n = ops.malloc_size_of(ptr);
    proof {
        lemma_over_yields(addresses, blocks(), ptr, ops@, ops@, n as nat);
    }
    n
}

/// `unit` bytes each.
pub open spec fn multiples_of(unit: nat) -> spec_fn(usize) -> Measurement {
    |count: usize| Measurement::exactly(count as nat * unit)
}

/// An estimate: `unit` bytes for each of a number of places.
pub open spec fn estimate(counts: spec_fn(usize) -> bool, unit: nat) -> Measurement {
    Measurement::over(counts, multiples_of(unit))
}

/// An estimate with a unit that is a sum of sizes, which must fit a `usize`.
pub open spec fn estimate_of_sum(counts: spec_fn(usize) -> bool, unit: nat) -> Measurement {
    if unit <= usize::MAX {
        estimate(counts, unit)
    } else {
        Measurement::impossible()
    }
}

/// The bytes of `count` places of `unit` bytes each.
pub(crate) fn measure_estimate(
    count: usize,
    unit: usize,
    ops: &MallocSizeOfOps,
    Ghost(counts): Ghost<spec_fn(usize) -> bool>,
) -> (n: usize)
    requires
        counts(count),
        estimate(counts, unit as nat).fits(ops@),
    ensures
        estimate(counts, unit as nat).yields(ops@, ops@, n as nat),
{
    proof {
        lemma_over_fits(counts, multiples_of(unit as nat), count, ops@);
    }
    let n = count * unit;
    proof {
        lemma_over_yields(counts, multiples_of(unit as nat), count, ops@, ops@, n as nat);
    }
    n
}

/// Adds the size of each of `items` to `start`, which a first measurement
/// yielded.
pub(crate) fn add_each<T: MallocSizeOf>(
    start: usize,
    items: &[T],
    ops: &mut MallocSizeOfOps,
    Ghost(first): Ghost<Measurement>,
    Ghost(origin): Ghost<OpsModel>,
) -> (n: usize)
    requires
        first.yields(origin, old(ops)@, start as nat),
        first.then_all(measurements(items@)).fits(origin),
    ensures
        first.then_all(measurements(items@)).yields(origin, final(ops)@, n as nat),
        final(ops)@.continues(old(ops)@),
{
    let ghost rest = measurements(items@);
    let mut n: usize = start;
    assert(rest.take(0) =~= Seq::<Measurement>::empty());
    for i in 0..items.len()
        invariant
            rest == measurements(items@),
            ops@.continues(old(ops)@),
            first.then_all(rest).fits(origin),
            first.then_all(rest.take(i as int)).yields(origin, ops@, n as nat),
    {
        proof {
            lemma_then_all_prefix_fits(first, rest, i + 1, origin);
            lemma_then_all_step(first, rest, i as int);
        }
        let size = items[i].size_of(ops);
        n = n + size;
    }
    assert(rest.take(items@.len() as int) =~= rest);
    n
}

/// Adds the size of each of `items` to `start`, which a first measurement
/// yielded.
pub(crate) fn add_each_ref<T: MallocSizeOf>(
    start: usize,
    items: &[&T],
    ops: &mut MallocSizeOfOps,
    Ghost(first): Ghost<Measurement>,
    Ghost(origin): Ghost<OpsModel>,
) -> (n: usize)
    requires
        first.yields(origin, old(ops)@, start as nat),
        first.then_all(measurements(items@.unref())).fits(origin),
    ensures
        first.then_all(measurements(items@.unref())).yields(origin, final(ops)@, n as nat),
        final(ops)@.continues(old(ops)@),
{
    let ghost rest = measurements(items@.unref());
    let mut n: usize = start;
    assert(rest.take(0) =~= Seq::<Measurement>::empty());
    for i in 0..items.len()
        invariant
            rest == measurements(items@.unref()),
            ops@.continues(old(ops)@),
            first.then_all(rest).fits(origin),
            first.then_all(rest.take(i as int)).yields(origin, ops@, n as nat),
    {
        proof {
            lemma_then_all_prefix_fits(first, rest, i + 1, origin);
            lemma_then_all_step(first, rest, i as int);
        }
        let size = items[i].size_of(ops);
        n = n + size;
    }
    assert(rest.take(items@.len() as int) =~= rest);
    n
}

/// Adds the sizes of the key and of the value of each of `entries` to `start`,
/// which a first measurement yielded.
pub(crate) fn add_each_entry<K: MallocSizeOf, V: MallocSizeOf>(
    start: usize,
    entries: &[(&K, &V)],
    ops: &mut MallocSizeOfOps,
    Ghost(first): Ghost<Measurement>,
    Ghost(origin): Ghost<OpsModel>,
) -> (n: usize)
    requires
        first.yields(origin, old(ops)@, start as nat),
        first.then_all(measurements(entries@.unref())).fits(origin),
    ensures
        first.then_all(measurements(entries@.unref())).yields(origin, final(ops)@, n as nat),
        final(ops)@.continues(old(ops)@),
{
    let ghost rest = measurements(entries@.unref());
    let mut n: usize = start;
    assert(rest.take(0) =~= Seq::<Measurement>::empty());
    for i in 0..entries.len()
        invariant
            rest == measurements(entries@.unref()),
            ops@.continues(old(ops)@),
            first.then_all(rest).fits(origin),
            first.then_all(rest.take(i as int)).yields(origin, ops@, n as nat),
    {
        let ghost so_far = first.then_all(rest.take(i as int));
        let ghost before = ops@;
        proof {
            lemma_then_all_prefix_fits(first, rest, i + 1, origin);
            lemma_then_all_step(first, rest, i as int);
            assert(rest[i as int].fits(before));
            assert(rest[i as int] == entries@[i as int].0.measurement().plus(
                entries@[i as int].1.measurement(),
            ));
        }
        let key = entries[i].0.size_of(ops);
        let value = entries[i].1.size_of(ops);
        assert(rest[i as int].yields(before, ops@, (key + value) as nat));
        n = n + (key + value);
    }
    assert(rest.take(entries@.len() as int) =~= rest);
    n
}

/// A value may lie where its address may be found.
pub(crate) proof fn law_address_found<T: ?Sized>(value: &T, ptr: usize)
    ensures
        lies_at(value, ptr) <==> call_ensures(address_of::<T>, (value,), ptr),
        lies_at(value, ptr) ==> ptr != 0,
{
}

} // verus!
