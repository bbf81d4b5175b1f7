//! What the ways of putting measurements together come to.
use crate::measurement::{lemma_over_fits, Measurement};
use crate::ops::{sizes_of, sizes_of_available, OpsModel, Target};
use crate::traits::{measurements, MallocSizeOf};
use crate::walk::{
    addresses, block_around, block_at, block_of, estimate, estimate_of_sum, interior_pointers,
    lies_at, multiples_of, on_wasm, value_behind,
};
use vstd::prelude::*;

verus! {

/// An address up to 256 stands for an empty allocation, which has no bytes. Of
/// each other the size operation is asked.
pub proof fn law_reports(ops: OpsModel, ptr: usize, n: usize)
    ensures
        OpsModel::is_empty(ptr) <==> ptr <= 256,
        ptr <= 256 ==> (ops.reports(ptr, n) <==> n == 0),
        ptr > 256 ==> (ops.reports(ptr, n) <==> (ops.block_size)(ptr, n)),
{
}

/// The operation on interior pointers is asked of a block around an address, and
/// where there is none, nothing is reported.
pub proof fn law_reports_enclosing(ops: OpsModel, ptr: usize, n: usize)
    ensures
        ops.reports_enclosing(ptr, n) <==> ops.enclosing_size is Some && (ops.enclosing_size->0)(
            ptr,
            n,
        ),
{
}

/// To see a pointer changes nothing but the pointers that have been seen, and
/// nothing at all where they are not kept.
pub proof fn law_with_seen(ops: OpsModel, ptr: usize, other: usize)
    ensures
        ops.with_seen(ptr).target == ops.target,
        ops.with_seen(ptr).block_size == ops.block_size,
        ops.with_seen(ptr).enclosing_size == ops.enclosing_size,
        ops.with_seen(ptr).seen is Some <==> ops.seen is Some,
        ops.seen is Some ==> (ops.with_seen(ptr).seen->0.contains(other) <==> other == ptr
            || ops.seen->0.contains(other)),
        ops.with_seen(ptr).continues(ops),
{
}

/// Operations go on as others if they answer the same and keep at least the pointers
/// that those kept.
pub proof fn law_what_continues(before: OpsModel, after: OpsModel)
    ensures
        after.continues(before) <==> {
            &&& after.target == before.target
            &&& after.block_size == before.block_size
            &&& after.enclosing_size == before.enclosing_size
            &&& after.seen is Some == before.seen is Some
            &&& before.seen is Some ==> forall|ptr: usize| #[trigger]
                before.seen->0.contains(ptr) ==> after.seen->0.contains(ptr)
        },
{
}

/// The sizes of a function are those that it may return, and an operation is
/// available where there is a function.
pub proof fn law_sizes_of<F: Fn(usize) -> usize>(f: F, ptr: usize, n: usize)
    ensures
        sizes_of(f)(ptr, n) <==> call_ensures(f, (ptr,), n),
        sizes_of_available(Some(f)) is Some,
        (sizes_of_available(Some(f))->0)(ptr, n) <==> call_ensures(f, (ptr,), n),
        sizes_of_available(None::<F>) is None,
{
}

/// A fixed size is returned whatever the operations are, and changes nothing.
pub proof fn law_fixed_sizes(size: nat, before: OpsModel, after: OpsModel, n: nat)
    ensures
        Measurement::exactly(size).yields(before, after, n) <==> after == before && n == size,
        Measurement::exactly(size).fits(before) <==> size <= usize::MAX,
        Measurement::always(size).yields(before, after, n) <==> after == before && n == size,
        Measurement::always(size).fits(before),
        Measurement::nothing().yields(before, after, n) <==> after == before && n == 0,
        Measurement::nothing().fits(before),
        !Measurement::impossible().yields(before, after, n),
        !Measurement::impossible().fits(before),
{
}

/// A block has the bytes that the size operation reports of its address, and an
/// empty one has none. To ask for it changes nothing, and can always be done.
pub proof fn law_block(ptr: usize, before: OpsModel, after: OpsModel, n: nat)
    ensures
        Measurement::block(ptr).fits(before),
        ptr <= 256 ==> (Measurement::block(ptr).yields(before, after, n) <==> after == before && n
            == 0),
        ptr > 256 ==> (Measurement::block(ptr).yields(before, after, n) <==> after == before && n
            <= usize::MAX && (before.block_size)(ptr, n as usize)),
{
}

/// A block around an address has the bytes that the operation on interior pointers
/// reports. There must be one, and the address must not stand for an empty
/// allocation.
pub proof fn law_enclosing_block(ptr: usize, before: OpsModel, after: OpsModel, n: nat)
    ensures
        Measurement::enclosing(ptr).fits(before) <==> before.enclosing_size is Some && ptr > 256,
        Measurement::enclosing(ptr).yields(before, after, n) <==> {
            &&& before.enclosing_size is Some
            &&& after == before
            &&& n <= usize::MAX
            &&& (before.enclosing_size->0)(ptr, n as usize)
        },
{
}

/// A measurement by cases is one of the two, as the operations are.
pub proof fn law_cases(
    cond: spec_fn(OpsModel) -> bool,
    yes: Measurement,
    no: Measurement,
    before: OpsModel,
    after: OpsModel,
    n: nat,
)
    ensures
        cond(before) ==> {
            &&& Measurement::when(cond, yes, no).fits(before) <==> yes.fits(before)
            &&& Measurement::when(cond, yes, no).yields(before, after, n) <==> yes.yields(
                before,
                after,
                n,
            )
        },
        !cond(before) ==> {
            &&& Measurement::when(cond, yes, no).fits(before) <==> no.fits(before)
            &&& Measurement::when(cond, yes, no).yields(before, after, n) <==> no.yields(
                before,
                after,
                n,
            )
        },
        on_wasm()(before) <==> before.target == Target::Wasm,
        interior_pointers()(before) <==> before.enclosing_size is Some,
{
}

/// A measurement of what is found out returns what it returns of something that may
/// be found, and can be made where it can be made of everything that may be found.
pub proof fn law_choices<A>(
    domain: spec_fn(A) -> bool,
    body: spec_fn(A) -> Measurement,
    before: OpsModel,
    after: OpsModel,
    n: nat,
)
    ensures
        Measurement::over(domain, body).fits(before) <==> forall|a: A| #[trigger]
            domain(a) ==> body(a).fits(before),
        Measurement::over(domain, body).yields(before, after, n) <==> exists|a: A| #[trigger]
            domain(a) && body(a).yields(before, after, n),
{
}

/// A pointer that has been seen yields no bytes; one that has not yields what lies
/// behind it, and has been seen from then on. The pointers must be kept.
pub proof fn law_once(
    ptr: usize,
    body: Measurement,
    before: OpsModel,
    after: OpsModel,
    n: nat,
)
    ensures
        before.seen is None ==> {
            &&& !Measurement::once(ptr, body).fits(before)
            &&& !Measurement::once(ptr, body).yields(before, after, n)
        },
        before.seen is Some && before.seen->0.contains(ptr) ==> {
            &&& Measurement::once(ptr, body).fits(before)
            &&& Measurement::once(ptr, body).yields(before, after, n) <==> after == before && n == 0
        },
        before.seen is Some && !before.seen->0.contains(ptr) ==> {
            &&& Measurement::once(ptr, body).fits(before) <==> body.fits(before.with_seen(ptr))
            &&& Measurement::once(ptr, body).yields(before, after, n) <==> body.yields(
                before.with_seen(ptr),
                after,
                n,
            )
        },
{
    if before.seen is Some && before.seen->0.contains(ptr) {
        assert(before.seen->0.insert(ptr) =~= before.seen->0);
        assert(before.with_seen(ptr) == before);
    }
}

/// What a value that may lie at some addresses yields, it yields for one of them.
pub proof fn law_once_at(
    at: spec_fn(usize) -> bool,
    body: Measurement,
    before: OpsModel,
    after: OpsModel,
    n: nat,
)
    ensures
        Measurement::once_at(at, body).fits(before) <==> forall|ptr: usize| #[trigger]
            at(ptr) ==> Measurement::once(ptr, body).fits(before),
        Measurement::once_at(at, body).yields(before, after, n) <==> exists|ptr: usize| #[trigger]
            at(ptr) && Measurement::once(ptr, body).yields(before, after, n),
{
    let bodies = |ptr: usize| Measurement::once(ptr, body);
    assert(Measurement::once_at(at, body) == Measurement::over(at, bodies));
    if Measurement::once_at(at, body).yields(before, after, n) {
        let ptr = choose|ptr: usize| #[trigger] at(ptr) && bodies(ptr).yields(before, after, n);
        assert(at(ptr) && Measurement::once(ptr, body).yields(before, after, n));
    }
    if Measurement::once_at(at, body).fits(before) {
        assert forall|ptr: usize| #[trigger] at(ptr) implies Measurement::once(ptr, body).fits(
            before,
        ) by {
            assert(bodies(ptr).fits(before));
        }
    }
    if exists|ptr: usize| #[trigger]
        at(ptr) && Measurement::once(ptr, body).yields(before, after, n) {
        let ptr = choose|ptr: usize| #[trigger]
            at(ptr) && Measurement::once(ptr, body).yields(before, after, n);
        assert(at(ptr) && bodies(ptr).yields(before, after, n));
    }
}

/// One measurement and then another return the sum of what they return. Both are
/// made where each can be made, and where the sum fits a `usize` whatever they
/// return.
pub proof fn law_sum(
    a: Measurement,
    b: Measurement,
    before: OpsModel,
    after: OpsModel,
    n: nat,
)
    ensures
        a.plus(b).yields(before, after, n) <==> exists|mid: OpsModel, x: nat, y: nat|
            {
                &&& #[trigger] a.yields(before, mid, x)
                &&& #[trigger] b.yields(mid, after, y)
                &&& n == x + y
            },
        a.plus(b).fits(before) <==> {
            &&& a.fits(before)
            &&& forall|mid: OpsModel, x: nat| #[trigger] a.yields(before, mid, x) ==> b.fits(mid)
            &&& forall|mid: OpsModel, end: OpsModel, x: nat, y: nat| #[trigger]
                a.yields(before, mid, x) && #[trigger] b.yields(mid, end, y) ==> x + y
                    <= usize::MAX
        },
{
    assert(a.plus(b).yields(before, after, n) <==> a.plus_yields(b, before, after, n));
    assert(a.plus(b).fits(before) <==> a.plus_fits(b, before));
}

/// A first measurement and no others is the first one; one more of the others adds
/// exactly what that one returns.
pub proof fn law_sum_of_more(first: Measurement, rest: Seq<Measurement>, next: Measurement)
    ensures
        first.then_all(Seq::<Measurement>::empty()) == first,
        first.then_all(rest.push(next)) == first.then_all(rest).plus(next),
{
    assert(rest.push(next).drop_last() =~= rest);
}

/// With operations of a family, a measurement returns `size` bytes and stays in the
/// family.
pub open spec fn always_returns(
    m: Measurement,
    family: spec_fn(OpsModel) -> bool,
    size: nat,
) -> bool {
    forall|before: OpsModel, after: OpsModel, n: nat| #[trigger]
        m.yields(before, after, n) && family(before) ==> family(after) && n == size
}

/// With operations of a family, a measurement stays in the family.
pub open spec fn stays_in(m: Measurement, family: spec_fn(OpsModel) -> bool) -> bool {
    forall|before: OpsModel, after: OpsModel, n: nat| #[trigger]
        m.yields(before, after, n) && family(before) ==> family(after)
}

/// Where each of the others has a size of its own, the sum is what the first returns
/// and all of those sizes, however many they are.
pub proof fn law_sum_of_sizes(
    first: Measurement,
    rest: Seq<Measurement>,
    family: spec_fn(OpsModel) -> bool,
    sizes: Seq<nat>,
    before: OpsModel,
    after: OpsModel,
    n: nat,
)
    requires
        sizes.len() == rest.len(),
        family(before),
        stays_in(first, family),
        forall|i: int|
            0 <= i < rest.len() ==> always_returns(#[trigger] rest[i], family, sizes[i]),
        first.then_all(rest).yields(before, after, n),
    ensures
        family(after),
        exists|mid: OpsModel, x: nat|
            {
                &&& #[trigger] first.yields(before, mid, x)
                &&& n == sizes.fold_left(x, |sum: nat, size: nat| sum + size)
            },
    decreases rest.len(),
{
    if rest.len() > 0 {
        let (most, last) = (rest.drop_last(), rest.last());
        let so_far = first.then_all(most);
        assert(so_far.plus(last).yields(before, after, n));
        assert(so_far.plus_yields(last, before, after, n));
        let (mid, x, y): (OpsModel, nat, nat) = choose|mid: OpsModel, x: nat, y: nat|
            {
                &&& #[trigger] so_far.yields(before, mid, x)
                &&& #[trigger] last.yields(mid, after, y)
                &&& n == x + y
            };
        assert forall|i: int| 0 <= i < most.len() implies always_returns(
            #[trigger] most[i],
            family,
            sizes.drop_last()[i],
        ) by {
            assert(always_returns(rest[i], family, sizes[i]));
        }
        law_sum_of_sizes(first, most, family, sizes.drop_last(), before, mid, x);
        assert(always_returns(rest[rest.len() - 1], family, sizes[rest.len() - 1]));
    }
}

/// Where each of the others has the same size, that size is added as often as there
/// are others.
pub proof fn law_sum_of_equal_sizes(
    first: Measurement,
    rest: Seq<Measurement>,
    family: spec_fn(OpsModel) -> bool,
    size: nat,
    before: OpsModel,
    after: OpsModel,
    n: nat,
)
    requires
        family(before),
        stays_in(first, family),
        forall|i: int| 0 <= i < rest.len() ==> always_returns(#[trigger] rest[i], family, size),
        first.then_all(rest).yields(before, after, n),
    ensures
        family(after),
        exists|mid: OpsModel, x: nat| #[trigger]
            first.yields(before, mid, x) && n == x + rest.len() * size,
    decreases rest.len(),
{
    if rest.len() > 0 {
        let (most, last) = (rest.drop_last(), rest.last());
        let so_far = first.then_all(most);
        assert(so_far.plus(last).yields(before, after, n));
        assert(so_far.plus_yields(last, before, after, n));
        let (mid, x, y): (OpsModel, nat, nat) = choose|mid: OpsModel, x: nat, y: nat|
            {
                &&& #[trigger] so_far.yields(before, mid, x)
                &&& #[trigger] last.yields(mid, after, y)
                &&& n == x + y
            };
        assert forall|i: int| 0 <= i < most.len() implies always_returns(
            #[trigger] most[i],
            family,
            size,
        ) by {
            assert(always_returns(rest[i], family, size));
        }
        law_sum_of_equal_sizes(first, most, family, size, before, mid, x);
        assert(always_returns(rest[rest.len() - 1], family, size));
        assert(rest.len() * size == most.len() * size + size) by (nonlinear_arith)
            requires
                rest.len() == most.len() + 1,
        ;
    } else {
        assert(rest.len() * size == 0) by (nonlinear_arith)
            requires
                rest.len() == 0,
        ;
    }
}

/// There is one measurement for each item: that of the item.
pub proof fn law_measurements<T: MallocSizeOf>(items: Seq<T>, i: int)
    ensures
        measurements(items).len() == items.len(),
        0 <= i < items.len() ==> measurements(items)[i] == items[i].measurement(),
{
}

/// The block at one of some addresses has the bytes that are reported of one of
/// them, and can always be asked for.
pub proof fn law_block_at(
    at: spec_fn(usize) -> bool,
    before: OpsModel,
    after: OpsModel,
    n: nat,
)
    ensures
        block_at(at).fits(before),
        block_at(at).yields(before, after, n) <==> exists|ptr: usize| #[trigger]
            at(ptr) && Measurement::block(ptr).yields(before, after, n),
{
    if exists|ptr: usize| #[trigger]
        at(ptr) && Measurement::block(ptr).yields(before, after, n) {
        let ptr = choose|ptr: usize| #[trigger]
            at(ptr) && Measurement::block(ptr).yields(before, after, n);
        assert(at(ptr) && crate::walk::blocks()(ptr).yields(before, after, n));
    }
    if block_at(at).yields(before, after, n) {
        let ptr = choose|ptr: usize| #[trigger]
            at(ptr) && crate::walk::blocks()(ptr).yields(before, after, n);
        assert(at(ptr) && Measurement::block(ptr).yields(before, after, n));
    }
}

/// The block of a value is the one at an address that the value may lie at, and the
/// block around it is the one around such an address.
pub proof fn law_blocks_of_values<T: ?Sized>(
    value: &T,
    before: OpsModel,
    after: OpsModel,
    n: nat,
)
    ensures
        forall|ptr: usize| #[trigger] addresses(value)(ptr) <==> lies_at(value, ptr),
        block_of(value).fits(before),
        block_of(value).yields(before, after, n) <==> exists|ptr: usize| #[trigger]
            lies_at(value, ptr) && Measurement::block(ptr).yields(before, after, n),
        block_around(value).fits(before) <==> forall|ptr: usize| #[trigger]
            lies_at(value, ptr) ==> Measurement::enclosing(ptr).fits(before),
        block_around(value).yields(before, after, n) <==> exists|ptr: usize| #[trigger]
            lies_at(value, ptr) && Measurement::enclosing(ptr).yields(before, after, n),
{
    let at = addresses(value);
    law_block_at(at, before, after, n);
    if block_of(value).yields(before, after, n) {
        let ptr = choose|ptr: usize| #[trigger]
            at(ptr) && Measurement::block(ptr).yields(before, after, n);
        assert(lies_at(value, ptr));
    }
    if exists|ptr: usize| #[trigger]
        lies_at(value, ptr) && Measurement::block(ptr).yields(before, after, n) {
        let ptr = choose|ptr: usize| #[trigger]
            lies_at(value, ptr) && Measurement::block(ptr).yields(before, after, n);
        assert(at(ptr));
    }
    let around = crate::walk::enclosing_blocks();
    if block_around(value).fits(before) {
        assert forall|ptr: usize| #[trigger] lies_at(value, ptr) implies Measurement::enclosing(
            ptr,
        ).fits(before) by {
            lemma_over_fits(at, around, ptr, before);
        }
    }
    if forall|ptr: usize| #[trigger]
        lies_at(value, ptr) ==> Measurement::enclosing(ptr).fits(before) {
        assert forall|ptr: usize| #[trigger] at(ptr) implies around(ptr).fits(before) by {
            assert(lies_at(value, ptr));
        }
    }
    if block_around(value).yields(before, after, n) {
        let ptr = choose|ptr: usize| #[trigger]
            at(ptr) && around(ptr).yields(before, after, n);
        assert(lies_at(value, ptr) && Measurement::enclosing(ptr).yields(before, after, n));
    }
    if exists|ptr: usize| #[trigger]
        lies_at(value, ptr) && Measurement::enclosing(ptr).yields(before, after, n) {
        let ptr = choose|ptr: usize| #[trigger]
            lies_at(value, ptr) && Measurement::enclosing(ptr).yields(before, after, n);
        assert(at(ptr) && around(ptr).yields(before, after, n));
    }
}

/// An estimate is one of the counts times the unit, and can be made where each of
/// them times the unit fits a `usize`, and the unit too where it is a sum.
pub proof fn law_estimates(
    counts: spec_fn(usize) -> bool,
    unit: nat,
    before: OpsModel,
    after: OpsModel,
    n: nat,
)
    ensures
        estimate(counts, unit).fits(before) <==> forall|count: usize| #[trigger]
            counts(count) ==> count * unit <= usize::MAX,
        estimate(counts, unit).yields(before, after, n) <==> after == before && exists|
            count: usize,
        | #[trigger] counts(count) && n == count * unit,
        estimate_of_sum(counts, unit).fits(before) <==> unit <= usize::MAX && forall|count: usize|
         #[trigger] counts(count) ==> count * unit <= usize::MAX,
        estimate_of_sum(counts, unit).yields(before, after, n) <==> unit <= usize::MAX && after
            == before && exists|count: usize| #[trigger] counts(count) && n == count * unit,
{
    let body = multiples_of(unit);
    assert forall|count: usize| #[trigger] counts(count) implies (body(count).fits(before)
        <==> count * unit <= usize::MAX) && (body(count).yields(before, after, n) <==> after
        == before && n == count * unit) by {}
}

/// The value behind a reference is the one that it refers to.
pub proof fn law_value_behind<T>(value: &T)
    ensures
        value_behind(Some(value)) == Some(*value),
        value_behind(None::<&T>) is None,
{
}

} // verus!
