//! Measurements that report where they could not be made.
//!
//! Whether some containers can be measured depends on what only the measurement
//! itself finds out: the sizes of blocks, the address of an item, the capacity of
//! a table, whether a cell is borrowed. These traits find out, and return `None`
//! where a measurement of [`MallocSizeOf`] or [`MallocShallowSizeOf`] would not
//! be possible.
use crate::measurement::{
    lemma_over_yields, lemma_then_all_first_fits, lemma_then_all_prefix_fits,
    lemma_then_all_step, Measurement,
};
use crate::ops::{MallocSizeOfOps, OpsModel};
use crate::order::{around_first, block_around_first, each_in_order, in_some_order};
use crate::traits::{measurements, MallocShallowSizeOf, MallocSizeOf};
use crate::walk::{checked_block_around, estimate, estimate_of_sum, multiples_of, value_behind};
use vstd::prelude::*;

verus! {

/// Trait for measuring the "shallow" heap usage of a container that cannot
/// always be measured.
pub trait MallocCheckedShallowSizeOf: MallocShallowSizeOf {
    /// `shallow_size_of`, or `None` where it may not be called.
    fn checked_shallow_size_of(&self, ops: &mut MallocSizeOfOps) -> (n: Option<usize>)
        ensures
            match n {
                Some(n) => self.shallow_measurement().yields(old(ops)@, final(ops)@, n as nat),
                None => !self.shallow_measurement().fits(old(ops)@),
            },
            final(ops)@ == old(ops)@,
    ;
}

/// Trait for measuring the "deep" heap usage of a data structure, whether or not it
/// can be measured.
pub trait MallocCheckedSizeOf: MallocSizeOf {
    /// `size_of`, or `None` where it may not be called.
    fn checked_size_of(&self, ops: &mut MallocSizeOfOps) -> (n: Option<usize>)
        ensures
            match n {
                Some(n) => self.measurement().yields(old(ops)@, final(ops)@, n as nat),
                None => !self.measurement().fits(old(ops)@),
            },
            final(ops)@.continues(old(ops)@),
    ;
}

/// A measurement may have had the outcome `n`: it yielded a number, or it could
/// not be made.
pub open spec fn came_out(
    m: Measurement,
    before: OpsModel,
    after: OpsModel,
    n: Option<usize>,
) -> bool {
    match n {
        Some(n) => m.yields(before, after, n as nat),
        None => !m.fits(before),
    }
}

/// The size of the block around the first item, if there is one, or `None` where
/// it lies at the address of an empty allocation.
pub(crate) fn checked_around_first<T>(
    first: Option<&T>,
    ops: &MallocSizeOfOps,
    Ghost(firsts): Ghost<spec_fn(Option<T>) -> bool>,
) -> (n: Option<usize>)
    requires
        firsts(value_behind(first)),
        ops@.enclosing_size is Some,
    ensures
        match n {
            Some(n) => around_first(firsts).yields(ops@, ops@, n as nat),
            None => !around_first(firsts).fits(ops@),
        },
{
    let n = match first {
        Some(item) => checked_block_around(item, ops),
        None => Some(0),
    };
    proof {
        let body = block_around_first::<T>();
        match n {
            Some(n) => lemma_over_yields(
                firsts,
                body,
                value_behind(first),
                ops@,
                ops@,
                n as nat,
            ),
            None => assert(!body(value_behind(first)).fits(ops@)),
        }
    }
    n
}

/// The bytes of `count` places of `unit` bytes each, or `None` where they do not
/// fit a `usize`.
pub(crate) fn checked_estimate(
    count: usize,
    unit: usize,
    ops: &MallocSizeOfOps,
    Ghost(counts): Ghost<spec_fn(usize) -> bool>,
) -> (n: Option<usize>)
    requires
        counts(count),
    ensures
        match n {
            Some(n) => estimate(counts, unit as nat).yields(ops@, ops@, n as nat),
            None => !estimate(counts, unit as nat).fits(ops@),
        },
{
    let n = count.checked_mul(unit);
    proof {
        match n {
            Some(n) => lemma_over_yields(
                counts,
                multiples_of(unit as nat),
                count,
                ops@,
                ops@,
                n as nat,
            ),
            None => assert(!multiples_of(unit as nat)(count).fits(ops@)),
        }
    }
    n
}

/// The bytes of `count` places, each of which takes `a`, `b` and `c` bytes, or
/// `None` where they do not fit a `usize`.
pub(crate) fn checked_estimate_of_sum(
    count: usize,
    a: usize,
    b: usize,
    c: usize,
    ops: &MallocSizeOfOps,
    Ghost(counts): Ghost<spec_fn(usize) -> bool>,
) -> (n: Option<usize>)
    requires
        counts(count),
    ensures
        match n {
            Some(n) => estimate_of_sum(counts, (a + b + c) as nat).yields(ops@, ops@, n as nat),
            None => !estimate_of_sum(counts, (a + b + c) as nat).fits(ops@),
        },
{
    match a.checked_add(b) {
        Some(ab) => match ab.checked_add(c) {
            Some(unit) => checked_estimate(count, unit, ops, Ghost(counts)),
            None => None,
        },
        None => None,
    }
}

/// The outcome of one measurement and then another: the sum, or `None` where it
/// does not fit a `usize` or there is none.
pub(crate) fn checked_sum(
    a: Option<usize>,
    b: Option<usize>,
    Ghost(one): Ghost<Measurement>,
    Ghost(other): Ghost<Measurement>,
    Ghost(before): Ghost<OpsModel>,
    Ghost(mid): Ghost<OpsModel>,
    Ghost(after): Ghost<OpsModel>,
) -> (n: Option<usize>)
    requires
        came_out(one, before, mid, a),
        a is Some ==> came_out(other, mid, after, b),
    ensures
        came_out(one.plus(other), before, after, n),
{
    match (a, b) {
        (Some(a), Some(b)) => {
            let n = a.checked_add(b);
            proof {
                match n {
                    Some(n) => assert(one.plus_yields(other, before, after, n as nat)),
                    None => assert(!one.plus_fits(other, before)),
                }
            }
            n
        },
        (Some(_), None) => {
            assert(!one.plus_fits(other, before));
            None
        },
        (None, _) => None,
    }
}

/// The outcome of a first measurement and then that of `value`.
pub(crate) fn checked_then<T: MallocCheckedSizeOf>(
    start: Option<usize>,
    value: &T,
    ops: &mut MallocSizeOfOps,
    Ghost(first): Ghost<Measurement>,
    Ghost(origin): Ghost<OpsModel>,
) -> (n: Option<usize>)
    requires
        came_out(first, origin, old(ops)@, start),
    ensures
        came_out(first.plus(value.measurement()), origin, final(ops)@, n),
        final(ops)@.continues(old(ops)@),
{
    if start.is_none() {
        return None;
    }
    let ghost mid = ops@;
    let size = value.checked_size_of(ops);
    checked_sum(
        start,
        size,
        Ghost(first),
        Ghost(value.measurement()),
        Ghost(origin),
        Ghost(mid),
        Ghost(ops@),
    )
}

/// The outcome of one step more of a sum.
pub(crate) fn checked_step(
    n: usize,
    size: Option<usize>,
    Ghost(first): Ghost<Measurement>,
    Ghost(rest): Ghost<Seq<Measurement>>,
    Ghost(k): Ghost<int>,
    Ghost(origin): Ghost<OpsModel>,
    Ghost(mid): Ghost<OpsModel>,
    Ghost(after): Ghost<OpsModel>,
) -> (sum: Option<usize>)
    requires
        0 <= k < rest.len(),
        first.then_all(rest.take(k)).yields(origin, mid, n as nat),
        came_out(rest[k], mid, after, size),
    ensures
        match sum {
            Some(sum) => first.then_all(rest.take(k + 1)).yields(origin, after, sum as nat),
            None => !first.then_all(rest).fits(origin),
        },
{
    proof {
        lemma_then_all_step(first, rest, k);
    }
    let sum = checked_sum(
        Some(n),
        size,
        Ghost(first.then_all(rest.take(k))),
        Ghost(rest[k]),
        Ghost(origin),
        Ghost(mid),
        Ghost(after),
    );
    proof {
        if sum is None && first.then_all(rest).fits(origin) {
            lemma_then_all_prefix_fits(first, rest, k + 1, origin);
        }
    }
    sum
}

/// The outcome of a first measurement and then each of `items`.
pub(crate) fn checked_add_each<T: MallocCheckedSizeOf>(
    start: Option<usize>,
    items: &[T],
    ops: &mut MallocSizeOfOps,
    Ghost(first): Ghost<Measurement>,
    Ghost(origin): Ghost<OpsModel>,
) -> (n: Option<usize>)
    requires
        came_out(first, origin, old(ops)@, start),
    ensures
        came_out(first.then_all(measurements(items@)), origin, final(ops)@, n),
        final(ops)@.continues(old(ops)@),
{
    let ghost rest = measurements(items@);
    let mut n: usize = match start {
        Some(start) => start,
        None => {
            proof {
                if first.then_all(rest).fits(origin) {
                    lemma_then_all_first_fits(first, rest, origin);
                }
            }
            return None;
        },
    };
    assert(rest.take(0) =~= Seq::<Measurement>::empty());
    for i in 0..items.len()
        invariant
            rest == measurements(items@),
            ops@.continues(old(ops)@),
            first.then_all(rest.take(i as int)).yields(origin, ops@, n as nat),
    {
        let ghost before = ops@;
        let size = items[i].checked_size_of(ops);
        match checked_step(
            n,
            size,
            Ghost(first),
            Ghost(rest),
            Ghost(i as int),
            Ghost(origin),
            Ghost(before),
            Ghost(ops@),
        ) {
            Some(sum) => {
                n = sum;
            },
            None => return None,
        }
    }
    assert(rest.take(items@.len() as int) =~= rest);
    Some(n)
}

/// The outcome of a first measurement and then each of `items`.
pub(crate) fn checked_add_each_ref<T: MallocCheckedSizeOf>(
    start: Option<usize>,
    items: &[&T],
    ops: &mut MallocSizeOfOps,
    Ghost(first): Ghost<Measurement>,
    Ghost(origin): Ghost<OpsModel>,
) -> (n: Option<usize>)
    requires
        came_out(first, origin, old(ops)@, start),
    ensures
        came_out(first.then_all(measurements(items@.unref())), origin, final(ops)@, n),
        final(ops)@.continues(old(ops)@),
{
    let ghost rest = measurements(items@.unref());
    let mut n: usize = match start {
        Some(start) => start,
        None => {
            proof {
                if first.then_all(rest).fits(origin) {
                    lemma_then_all_first_fits(first, rest, origin);
                }
            }
            return None;
        },
    };
    assert(rest.take(0) =~= Seq::<Measurement>::empty());
    for i in 0..items.len()
        invariant
            rest == measurements(items@.unref()),
            ops@.continues(old(ops)@),
            first.then_all(rest.take(i as int)).yields(origin, ops@, n as nat),
    {
        let ghost before = ops@;
        let size = items[i].checked_size_of(ops);
        match checked_step(
            n,
            size,
            Ghost(first),
            Ghost(rest),
            Ghost(i as int),
            Ghost(origin),
            Ghost(before),
            Ghost(ops@),
        ) {
            Some(sum) => {
                n = sum;
            },
            None => return None,
        }
    }
    assert(rest.take(items@.len() as int) =~= rest);
    Some(n)
}

/// The outcome of a first measurement and then the key and the value of
/// each of `entries`.
pub(crate) fn checked_add_each_entry<K: MallocCheckedSizeOf, V: MallocCheckedSizeOf>(
    start: Option<usize>,
    entries: &[(&K, &V)],
    ops: &mut MallocSizeOfOps,
    Ghost(first): Ghost<Measurement>,
    Ghost(origin): Ghost<OpsModel>,
) -> (n: Option<usize>)
    requires
        came_out(first, origin, old(ops)@, start),
    ensures
        came_out(first.then_all(measurements(entries@.unref())), origin, final(ops)@, n),
        final(ops)@.continues(old(ops)@),
{
    let ghost rest = measurements(entries@.unref());
    let mut n: usize = match start {
        Some(start) => start,
        None => {
            proof {
                if first.then_all(rest).fits(origin) {
                    lemma_then_all_first_fits(first, rest, origin);
                }
            }
            return None;
        },
    };
    assert(rest.take(0) =~= Seq::<Measurement>::empty());
    for i in 0..entries.len()
        invariant
            rest == measurements(entries@.unref()),
            ops@.continues(old(ops)@),
            first.then_all(rest.take(i as int)).yields(origin, ops@, n as nat),
    {
        let ghost before = ops@;
        let ghost key = entries@[i as int].0.measurement();
        assert(rest[i as int] == key.plus(entries@[i as int].1.measurement()));
        let size = entries[i].0.checked_size_of(ops);
        let size = checked_then(size, entries[i].1, ops, Ghost(key), Ghost(before));
        match checked_step(
            n,
            size,
            Ghost(first),
            Ghost(rest),
            Ghost(i as int),
            Ghost(origin),
            Ghost(before),
            Ghost(ops@),
        ) {
            Some(sum) => {
                n = sum;
            },
            None => return None,
        }
    }
    assert(rest.take(entries@.len() as int) =~= rest);
    Some(n)
}

/// The outcome of a shallow measurement and then each of `items`, which may stand in this
/// order.
pub(crate) fn checked_add_in_order<T: MallocCheckedSizeOf>(
    start: Option<usize>,
    items: &[&T],
    ops: &mut MallocSizeOfOps,
    Ghost(shallow): Ghost<Measurement>,
    Ghost(orders): Ghost<spec_fn(Seq<T>) -> bool>,
    Ghost(origin): Ghost<OpsModel>,
) -> (n: Option<usize>)
    requires
        came_out(shallow, origin, old(ops)@, start),
        orders(items@.unref()),
    ensures
        came_out(in_some_order(shallow, orders), origin, final(ops)@, n),
        final(ops)@.continues(old(ops)@),
{
    let ghost order = items@.unref();
    let ghost body = each_in_order::<T>(shallow);
    let n = checked_add_each_ref(start, items, ops, Ghost(shallow), Ghost(origin));
    proof {
        match n {
            Some(n) => lemma_over_yields(orders, body, order, origin, ops@, n as nat),
            None => assert(!body(order).fits(origin)),
        }
    }
    n
}

/// The outcome of a shallow measurement and then the key and the
/// value of each of `entries`, which may stand in this
/// order.
pub(crate) fn checked_add_entries_in_order<K: MallocCheckedSizeOf, V: MallocCheckedSizeOf>(
    start: Option<usize>,
    entries: &[(&K, &V)],
    ops: &mut MallocSizeOfOps,
    Ghost(shallow): Ghost<Measurement>,
    Ghost(orders): Ghost<spec_fn(Seq<(K, V)>) -> bool>,
    Ghost(origin): Ghost<OpsModel>,
) -> (n: Option<usize>)
    requires
        came_out(shallow, origin, old(ops)@, start),
        orders(entries@.unref()),
    ensures
        came_out(in_some_order(shallow, orders), origin, final(ops)@, n),
        final(ops)@.continues(old(ops)@),
{
    let ghost order = entries@.unref();
    let ghost body = each_in_order::<(K, V)>(shallow);
    let n = checked_add_each_entry(start, entries, ops, Ghost(shallow), Ghost(origin));
    proof {
        match n {
            Some(n) => lemma_over_yields(orders, body, order, origin, ops@, n as nat),
            None => assert(!body(order).fits(origin)),
        }
    }
    n
}

} // verus!
