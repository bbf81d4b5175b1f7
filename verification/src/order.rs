//! Walking over a collection whose order is its own.
use crate::measurement::{
    lemma_over_fits, lemma_over_yields, lemma_then_all_first_fits, Measurement,
};
use crate::ops::{MallocSizeOfOps, OpsModel};
use crate::traits::{measurements, MallocSizeOf};
use crate::walk::{add_each_entry, add_each_ref, block_around, measure_block_around, value_behind};
use vstd::prelude::*;
use vstd::std_specs::iter::IteratorSpec;

verus! {

/// The block around an item, if there is one.
pub open spec fn block_around_first<T>() -> spec_fn(Option<T>) -> Measurement {
    |first: Option<T>|
        match first {
            Some(item) => block_around(&item),
            None => Measurement::nothing(),
        }
}

/// `shallow`, and then each item of an order.
pub open spec fn each_in_order<T: MallocSizeOf>(shallow: Measurement) -> spec_fn(
    Seq<T>,
) -> Measurement {
    |order: Seq<T>| shallow.then_all(measurements(order))
}

/// `shallow`, and then each item, in one of `orders`.
pub open spec fn in_some_order<T: MallocSizeOf>(
    shallow: Measurement,
    orders: spec_fn(Seq<T>) -> bool,
) -> Measurement {
    Measurement::over(orders, each_in_order(shallow))
}

/// The block around the item that comes first, if there is one.
pub open spec fn around_first<T>(firsts: spec_fn(Option<T>) -> bool) -> Measurement {
    Measurement::over(firsts, block_around_first())
}

/// The size of the block around the first item, if there is one.
pub(crate) fn measure_around_first<T>(
    first: Option<&T>,
    ops: &MallocSizeOfOps,
    Ghost(firsts): Ghost<spec_fn(Option<T>) -> bool>,
) -> (n: usize)
    requires
        firsts(value_behind(first)),
        around_first(firsts).fits(ops@),
    ensures
        around_first(firsts).yields(ops@, ops@, n as nat),
{
    proof {
        lemma_over_fits(firsts, block_around_first(), value_behind(first), ops@);
    }
    let n = match first {
        Some(item) => measure_block_around(item, ops),
        None => 0,
    };
    proof {
        lemma_over_yields(firsts, block_around_first(), value_behind(first), ops@, ops@, n as nat);
    }
    n
}

/// The next item of an iterator.
pub(crate) fn advance<I: Iterator>(iter: &mut I) -> (item: Option<I::Item>)
    ensures
        <I as IteratorSpec>::obeys_prophetic_iter_laws(old(iter)) ==> {
            let before = <I as IteratorSpec>::remaining(old(iter));
            let after = <I as IteratorSpec>::remaining(final(iter));
            &&& <I as IteratorSpec>::obeys_prophetic_iter_laws(final(iter))
            &&& if before.len() > 0 {
                item == Some(before[0]) && after == before.drop_first()
            } else {
                item is None && after == before
            }
        },
{
    iter.next()
}

/// The items of an iterator, `count` at the most.
pub(crate) fn collect<I: Iterator>(iter: I, count: usize) -> (items: Vec<I::Item>)
    ensures
        iter.obeys_prophetic_iter_laws() && iter.remaining().len() <= count ==> items@
            == iter.remaining(),
{
    let mut rest = iter;
    let mut items: Vec<I::Item> = Vec::new();
    let mut taken: usize = 0;
    while taken < count
        invariant
            taken <= count,
            iter.obeys_prophetic_iter_laws() ==> {
                &&& rest.obeys_prophetic_iter_laws()
                &&& items@ + rest.remaining() == iter.remaining()
                &&& items@.len() == taken
            },
        decreases count - taken,
    {
        match advance(&mut rest) {
            Some(item) => items.push(item),
            None => {
                assert(iter.obeys_prophetic_iter_laws() ==> items@ == items@ + rest.remaining());
                return items;
            },
        }
        taken = taken + 1;
    }
    items
}

pub(crate) proof fn lemma_first_of_all<T>(all: Seq<T>)
    ensures
        all.len() > 0 ==> all.to_set().contains(all[0]),
        all.len() == 0 ==> all.to_set() == Set::<T>::empty(),
{
    if all.len() > 0 {
        assert(all.contains(all[0]));
    } else {
        assert(all.to_set() =~= Set::<T>::empty());
    }
}

/// Where a container can be measured in every order, its shallow part can.
pub(crate) proof fn lemma_in_order_first_fits<T: MallocSizeOf>(
    shallow: Measurement,
    orders: spec_fn(Seq<T>) -> bool,
    order: Seq<T>,
    ops: OpsModel,
)
    requires
        orders(order),
        in_some_order(shallow, orders).fits(ops),
    ensures
        shallow.fits(ops),
{
    lemma_over_fits(orders, each_in_order(shallow), order, ops);
    lemma_then_all_first_fits(shallow, measurements(order), ops);
}

/// Adds the size of each of `items`, which may stand in this order, to
/// `start`, which `shallow` yielded.
pub(crate) fn add_in_order<T: MallocSizeOf>(
    start: usize,
    items: &[&T],
    ops: &mut MallocSizeOfOps,
    Ghost(shallow): Ghost<Measurement>,
    Ghost(orders): Ghost<spec_fn(Seq<T>) -> bool>,
    Ghost(origin): Ghost<OpsModel>,
) -> (n: usize)
    requires
        shallow.yields(origin, old(ops)@, start as nat),
        orders(items@.unref()),
        in_some_order(shallow, orders).fits(origin),
    ensures
        in_some_order(shallow, orders).yields(origin, final(ops)@, n as nat),
        final(ops)@.continues(old(ops)@),
{
    let ghost order = items@.unref();
    proof {
        lemma_over_fits(orders, each_in_order(shallow), order, origin);
    }
    let n = add_each_ref(start, items, ops, Ghost(shallow), Ghost(origin));
    proof {
        lemma_over_yields(orders, each_in_order(shallow), order, origin, ops@, n as nat);
    }
    n
}

/// Adds the sizes of the key and of the value of each of `entries`, which may
/// stand in this order, to `start`, which `shallow` yielded.
pub(crate) fn add_entries_in_order<K: MallocSizeOf, V: MallocSizeOf>(
    start: usize,
    entries: &[(&K, &V)],
    ops: &mut MallocSizeOfOps,
    Ghost(shallow): Ghost<Measurement>,
    Ghost(orders): Ghost<spec_fn(Seq<(K, V)>) -> bool>,
    Ghost(origin): Ghost<OpsModel>,
) -> (n: usize)
    requires
        shallow.yields(origin, old(ops)@, start as nat),
        orders(entries@.unref()),
        in_some_order(shallow, orders).fits(origin),
    ensures
        in_some_order(shallow, orders).yields(origin, final(ops)@, n as nat),
        final(ops)@.continues(old(ops)@),
{
    let ghost order = entries@.unref();
    proof {
        lemma_over_fits(orders, each_in_order(shallow), order, origin);
    }
    let n = add_each_entry(start, entries, ops, Ghost(shallow), Ghost(origin));
    proof {
        lemma_over_yields(orders, each_in_order(shallow), order, origin, ops@, n as nat);
    }
    n
}

} // verus!
