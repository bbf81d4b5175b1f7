//! What holds of every measurement.
use crate::measurement::Measurement;
use crate::ops::{OpsModel, Target};
use crate::traits::{
    measurements, MallocConditionalShallowSizeOf, MallocConditionalSizeOf, MallocSizeOf,
};
use crate::walk::{block_at, block_of};
use vstd::prelude::*;

verus! {

/// Two measurements may return the same.
pub open spec fn same_sizes(one: Measurement, other: Measurement) -> bool {
    forall|before: OpsModel, after: OpsModel, n: nat|
        #![trigger one.yields(before, after, n)]
        #![trigger other.yields(before, after, n)]
        one.yields(before, after, n) == other.yields(before, after, n)
}

/// A measurement leaves the operations as they were.
pub open spec fn keeps_ops(m: Measurement) -> bool {
    forall|before: OpsModel, after: OpsModel, n: nat| #[trigger]
        m.yields(before, after, n) ==> after == before
}

/// A measurement forgets no pointer that has been seen.
pub open spec fn keeps_seen(m: Measurement) -> bool {
    forall|before: OpsModel, after: OpsModel, n: nat| #[trigger]
        m.yields(before, after, n) && before.seen is Some ==> after.seen is Some
            && before.seen->0.subset_of(after.seen->0)
}

/// With operations of a family, a measurement can be made, returns `bound`
/// bytes at the most and stays in the family.
pub open spec fn bounded(m: Measurement, family: spec_fn(OpsModel) -> bool, bound: nat) -> bool {
    forall|ops: OpsModel| #[trigger]
        family(ops) ==> m.fits(ops) && forall|after: OpsModel, n: nat| #[trigger]
            m.yields(ops, after, n) ==> family(after) && n <= bound
}

/// It does not matter how a sum is bracketed.
pub proof fn law_sum_associative(a: Measurement, b: Measurement, c: Measurement)
    ensures
        same_sizes(a.plus(b).plus(c), a.plus(b.plus(c))),
{
    let left = a.plus(b).plus(c);
    let right = a.plus(b.plus(c));
    assert forall|before: OpsModel, after: OpsModel, n: nat|
        left.yields(before, after, n) == #[trigger] right.yields(before, after, n) by {
        if left.yields(before, after, n) {
            let (m2, xy, z): (OpsModel, nat, nat) = choose|mid: OpsModel, p: nat, q: nat|
                {
                    &&& #[trigger] a.plus(b).yields(before, mid, p)
                    &&& #[trigger] c.yields(mid, after, q)
                    &&& n == p + q
                };
            assert(a.plus_yields(b, before, m2, xy));
            let (m1, x, y): (OpsModel, nat, nat) = choose|mid: OpsModel, p: nat, q: nat|
                {
                    &&& #[trigger] a.yields(before, mid, p)
                    &&& #[trigger] b.yields(mid, m2, q)
                    &&& xy == p + q
                };
            assert(b.plus_yields(c, m1, after, y + z));
            assert(b.plus(c).yields(m1, after, y + z));
        }
        if right.yields(before, after, n) {
            let (m1, x, yz): (OpsModel, nat, nat) = choose|mid: OpsModel, p: nat, q: nat|
                {
                    &&& #[trigger] a.yields(before, mid, p)
                    &&& #[trigger] b.plus(c).yields(mid, after, q)
                    &&& n == p + q
                };
            assert(b.plus_yields(c, m1, after, yz));
            let (m2, y, z): (OpsModel, nat, nat) = choose|mid: OpsModel, p: nat, q: nat|
                {
                    &&& #[trigger] b.yields(m1, mid, p)
                    &&& #[trigger] c.yields(mid, after, q)
                    &&& yz == p + q
                };
            assert(a.plus_yields(b, before, m2, x + y));
            assert(a.plus(b).yields(before, m2, x + y));
        }
    }
}

/// Adding nothing, before or after, changes nothing.
pub proof fn law_nothing_is_neutral(m: Measurement)
    ensures
        same_sizes(Measurement::nothing().plus(m), m),
        same_sizes(m.plus(Measurement::nothing()), m),
{
    let nothing = Measurement::nothing();
    assert forall|before: OpsModel, after: OpsModel, n: nat|
        nothing.plus(m).yields(before, after, n) == #[trigger] m.yields(before, after, n) by {
        if m.yields(before, after, n) {
            assert(nothing.yields(before, before, 0));
            assert(nothing.plus_yields(m, before, after, n));
        }
    }
    assert forall|before: OpsModel, after: OpsModel, n: nat|
        m.plus(nothing).yields(before, after, n) == #[trigger] m.yields(before, after, n) by {
        if m.yields(before, after, n) {
            assert(nothing.yields(after, after, 0));
            assert(m.plus_yields(nothing, before, after, n));
        }
    }
}

/// Measurements that may return the same can replace each other in a sum.
pub proof fn law_same_sums(a: Measurement, a2: Measurement, b: Measurement, b2: Measurement)
    requires
        same_sizes(a, a2),
        same_sizes(b, b2),
    ensures
        same_sizes(a.plus(b), a2.plus(b2)),
{
    assert forall|before: OpsModel, after: OpsModel, n: nat|
        a.plus(b).yields(before, after, n) == #[trigger] a2.plus(b2).yields(before, after, n) by {
        if a.plus(b).yields(before, after, n) {
            assert(a.plus_yields(b, before, after, n));
            let (mid, x, y): (OpsModel, nat, nat) = choose|mid: OpsModel, x: nat, y: nat|
                {
                    &&& #[trigger] a.yields(before, mid, x)
                    &&& #[trigger] b.yields(mid, after, y)
                    &&& n == x + y
                };
            assert(a2.yields(before, mid, x) && b2.yields(mid, after, y));
            assert(a2.plus_yields(b2, before, after, n));
        }
        if a2.plus(b2).yields(before, after, n) {
            assert(a2.plus_yields(b2, before, after, n));
            let (mid, x, y): (OpsModel, nat, nat) = choose|mid: OpsModel, x: nat, y: nat|
                {
                    &&& #[trigger] a2.yields(before, mid, x)
                    &&& #[trigger] b2.yields(mid, after, y)
                    &&& n == x + y
                };
            assert(a.yields(before, mid, x) && b.yields(mid, after, y));
            assert(a.plus_yields(b, before, after, n));
        }
    }
}

/// A first measurement and then the others may return what the first returns,
/// and what the others return by themselves.
pub proof fn law_first_and_rest(first: Measurement, rest: Seq<Measurement>)
    ensures
        same_sizes(first.then_all(rest), first.plus(Measurement::nothing().then_all(rest))),
    decreases rest.len(),
{
    let nothing = Measurement::nothing();
    if rest.len() == 0 {
        law_nothing_is_neutral(first);
    } else {
        let (most, last) = (rest.drop_last(), rest.last());
        law_first_and_rest(first, most);
        law_same_sums(
            first.then_all(most),
            first.plus(nothing.then_all(most)),
            last,
            last,
        );
        law_sum_associative(first, nothing.then_all(most), last);
    }
}

/// A sum is at least its first part.
pub proof fn law_sum_at_least_first(
    first: Measurement,
    rest: Seq<Measurement>,
    before: OpsModel,
    after: OpsModel,
    n: nat,
)
    requires
        first.then_all(rest).yields(before, after, n),
    ensures
        exists|mid: OpsModel, a: nat| #[trigger] first.yields(before, mid, a) && a <= n,
{
    law_first_and_rest(first, rest);
    let contents = Measurement::nothing().then_all(rest);
    assert(first.plus(contents).yields(before, after, n));
    assert(first.plus_yields(contents, before, after, n));
}

/// Where the others own nothing, only the first measurement counts.
pub proof fn law_rest_without_heap(first: Measurement, rest: Seq<Measurement>)
    requires
        forall|i: int| 0 <= i < rest.len() ==> #[trigger] rest[i] == Measurement::nothing(),
    ensures
        same_sizes(first.then_all(rest), first),
    decreases rest.len(),
{
    if rest.len() > 0 {
        let (most, nothing) = (rest.drop_last(), Measurement::nothing());
        law_rest_without_heap(first, most);
        law_same_sums(first.then_all(most), first, nothing, nothing);
        law_nothing_is_neutral(first);
    }
}

/// Where the others own nothing, all can be measured with operations with which
/// the first measurement can be made.
pub proof fn law_rest_without_heap_fits(
    first: Measurement,
    rest: Seq<Measurement>,
    ops: OpsModel,
)
    requires
        forall|i: int| 0 <= i < rest.len() ==> #[trigger] rest[i] == Measurement::nothing(),
        first.fits(ops),
        forall|after: OpsModel, n: nat| #[trigger]
            first.yields(ops, after, n) ==> n <= usize::MAX,
    ensures
        first.then_all(rest).fits(ops),
    decreases rest.len(),
{
    if rest.len() > 0 {
        let (most, nothing) = (rest.drop_last(), Measurement::nothing());
        let so_far = first.then_all(most);
        law_rest_without_heap_fits(first, most, ops);
        law_rest_without_heap(first, most);
        assert forall|mid: OpsModel, a: nat| #[trigger]
            so_far.yields(ops, mid, a) implies nothing.fits(mid) && forall|
            after: OpsModel,
            b: nat,
        | #[trigger] nothing.yields(mid, after, b) ==> a + b <= usize::MAX by {
            assert(first.yields(ops, mid, a));
        }
        assert(so_far.plus_fits(nothing, ops));
    }
}

/// A sum is bounded by the bounds of its parts, and can be made where they fit
/// a `usize`.
pub proof fn law_bounded_sum(
    first: Measurement,
    rest: Seq<Measurement>,
    family: spec_fn(OpsModel) -> bool,
    first_bound: nat,
    rest_bound: nat,
)
    requires
        bounded(first, family, first_bound),
        forall|i: int|
            0 <= i < rest.len() ==> bounded(#[trigger] rest[i], family, rest_bound),
        first_bound + rest.len() * rest_bound <= usize::MAX,
    ensures
        bounded(first.then_all(rest), family, first_bound + rest.len() * rest_bound),
    decreases rest.len(),
{
    if rest.len() > 0 {
        let (most, last) = (rest.drop_last(), rest.last());
        let so_far = first.then_all(most);
        let bound = first_bound + most.len() * rest_bound;
        assert(rest.len() * rest_bound == most.len() * rest_bound + rest_bound) by (nonlinear_arith)
            requires
                rest.len() == most.len() + 1,
        ;
        law_bounded_sum(first, most, family, first_bound, rest_bound);
        assert forall|ops: OpsModel| #[trigger] family(ops) implies so_far.plus(last).fits(ops)
            && forall|after: OpsModel, n: nat| #[trigger]
            so_far.plus(last).yields(ops, after, n) ==> family(after) && n <= bound
            + rest_bound by {
            assert(bounded(rest[rest.len() - 1], family, rest_bound));
            assert forall|mid: OpsModel, a: nat| #[trigger]
                so_far.yields(ops, mid, a) implies last.fits(mid) && forall|
                after: OpsModel,
                b: nat,
            | #[trigger]
                last.yields(mid, after, b) ==> a + b <= usize::MAX by {
                assert(family(mid));
            }
            assert(so_far.plus_fits(last, ops));
            assert forall|after: OpsModel, n: nat| #[trigger]
                so_far.plus(last).yields(ops, after, n) implies family(after) && n <= bound
                + rest_bound by {
                assert(so_far.plus_yields(last, ops, after, n));
            }
        }
    }
}

/// A sum of two is bounded by the sum of their bounds, and can be made where
/// that fits a `usize`.
pub proof fn law_bounded_pair(
    a: Measurement,
    b: Measurement,
    family: spec_fn(OpsModel) -> bool,
    a_bound: nat,
    b_bound: nat,
)
    requires
        bounded(a, family, a_bound),
        bounded(b, family, b_bound),
        a_bound + b_bound <= usize::MAX,
    ensures
        bounded(a.plus(b), family, a_bound + b_bound),
{
    let rest = seq![b];
    assert(rest.len() * b_bound == b_bound) by (nonlinear_arith)
        requires
            rest.len() == 1,
    ;
    law_bounded_sum(a, rest, family, a_bound, b_bound);
    assert(rest.drop_last() =~= Seq::<Measurement>::empty());
    assert(a.then_all(rest.drop_last()) == a);
}

/// Operations for a native machine that report no block of more than `limit`
/// bytes.
pub open spec fn reporting_at_most(limit: nat) -> spec_fn(OpsModel) -> bool {
    |ops: OpsModel|
        {
            &&& ops.target == Target::Native
            &&& forall|ptr: usize, n: usize| #[trigger] (ops.block_size)(ptr, n) ==> n <= limit
        }
}

/// A block is no larger than the largest that the operations report.
pub proof fn law_block_bounded<T: ?Sized>(value: &T, limit: nat)
    ensures
        bounded(block_of(value), reporting_at_most(limit), limit),
{
}

/// A buffer, wherever it lies, is no larger than the largest block that the
/// operations report.
pub proof fn law_buffer_bounded(addresses: spec_fn(usize) -> bool, limit: nat)
    ensures
        bounded(block_at(addresses), reporting_at_most(limit), limit),
{
}

/// A value that owns nothing is bounded by zero, whatever the operations are.
pub proof fn law_nothing_bounded(family: spec_fn(OpsModel) -> bool)
    ensures
        bounded(Measurement::nothing(), family, 0),
{
}

/// A buffer that lies at one address, of which the operations report one size, is
/// of that size, however often it is measured.
pub proof fn law_buffer_at_one_address(
    addresses: spec_fn(usize) -> bool,
    ptr: usize,
    size: usize,
    before: OpsModel,
    after: OpsModel,
    n: nat,
)
    requires
        forall|p: usize| #[trigger] addresses(p) ==> p == ptr,
        forall|m: usize| #[trigger] before.reports(ptr, m) ==> m == size,
        block_at(addresses).yields(before, after, n),
    ensures
        n == size,
        after == before,
{
}

/// The block at the address of an empty allocation has no bytes, whatever the
/// operations would report.
pub proof fn law_empty_block(ptr: usize, before: OpsModel, after: OpsModel, n: nat)
    requires
        OpsModel::is_empty(ptr),
    ensures
        Measurement::block(ptr).yields(before, after, n) <==> after == before && n == 0,
{
}

/// What operations become in one measurement after another is what they become in
/// measurements: they answer the same, and no pointer is forgotten.
pub proof fn law_continues(before: OpsModel, mid: OpsModel, after: OpsModel)
    requires
        mid.continues(before),
        after.continues(mid),
    ensures
        before.continues(before),
        after.continues(before),
        before.seen is Some ==> after.seen is Some && before.seen->0.subset_of(after.seen->0),
{
}

/// A pointer that has been seen is seen from then on, and no other pointer is.
pub proof fn law_seen_is_remembered(ops: OpsModel, ptr: usize, other: usize)
    requires
        ops.seen is Some,
    ensures
        ops.with_seen(ptr).seen is Some,
        ops.with_seen(ptr).seen->0.contains(other) == (other == ptr
            || ops.seen->0.contains(other)),
        ops.with_seen(ptr).with_seen(ptr) == ops.with_seen(ptr),
{
    assert(ops.with_seen(ptr).with_seen(ptr).seen->0 =~= ops.with_seen(ptr).seen->0);
}

/// A shared value counts the first time only: once it has been measured, it
/// yields no bytes and changes nothing, however often it is measured again.
pub proof fn law_counted_once(
    ptr: usize,
    body: Measurement,
    before: OpsModel,
    mid: OpsModel,
    after: OpsModel,
    first: nat,
    again: nat,
)
    requires
        keeps_seen(body),
        Measurement::once(ptr, body).yields(before, mid, first),
        Measurement::once(ptr, body).yields(mid, after, again),
    ensures
        !before.seen->0.contains(ptr) ==> body.yields(before.with_seen(ptr), mid, first),
        before.seen->0.contains(ptr) ==> first == 0,
        again == 0,
        after == mid,
{
    if before.seen->0.contains(ptr) {
        assert(mid.seen->0.contains(ptr));
    } else {
        assert(before.with_seen(ptr).seen->0.contains(ptr));
        assert(mid.seen->0.contains(ptr));
    }
    assert(mid.with_seen(ptr).seen->0 =~= mid.seen->0);
}

/// A value that always lies at one address counts the first time only, however
/// it is shared.
pub proof fn law_conditional_counts_once<T: MallocConditionalSizeOf>(
    value: &T,
    ptr: usize,
    before: OpsModel,
    mid: OpsModel,
    after: OpsModel,
    first: nat,
    again: nat,
)
    requires
        forall|p: usize| #[trigger] value.shared_at(p) ==> p == ptr,
        keeps_seen(value.shared_measurement()),
        Measurement::once_at(|p: usize| value.shared_at(p), value.shared_measurement()).yields(
            before,
            mid,
            first,
        ),
        Measurement::once_at(|p: usize| value.shared_at(p), value.shared_measurement()).yields(
            mid,
            after,
            again,
        ),
    ensures
        before.seen->0.contains(ptr) ==> first == 0,
        !before.seen->0.contains(ptr) ==> value.shared_measurement().yields(
            before.with_seen(ptr),
            mid,
            first,
        ),
        again == 0,
        after == mid,
{
    law_counted_once(ptr, value.shared_measurement(), before, mid, after, first, again);
}

/// The same for a measurement that leaves out the contents.
pub proof fn law_conditional_shallow_counts_once<T: MallocConditionalShallowSizeOf>(
    value: &T,
    ptr: usize,
    before: OpsModel,
    mid: OpsModel,
    after: OpsModel,
    first: nat,
    again: nat,
)
    requires
        forall|p: usize| #[trigger] value.shallow_shared_at(p) ==> p == ptr,
        keeps_seen(value.shallow_shared_measurement()),
        Measurement::once_at(
            |p: usize| value.shallow_shared_at(p),
            value.shallow_shared_measurement(),
        ).yields(before, mid, first),
        Measurement::once_at(
            |p: usize| value.shallow_shared_at(p),
            value.shallow_shared_measurement(),
        ).yields(mid, after, again),
    ensures
        before.seen->0.contains(ptr) ==> first == 0,
        !before.seen->0.contains(ptr) ==> value.shallow_shared_measurement().yields(
            before.with_seen(ptr),
            mid,
            first,
        ),
        again == 0,
        after == mid,
{
    law_counted_once(
        ptr,
        value.shallow_shared_measurement(),
        before,
        mid,
        after,
        first,
        again,
    );
}

/// The first time, a shared value can be measured where the value itself can;
/// later it always can.
pub proof fn law_counted_once_fits(ptr: usize, body: Measurement, ops: OpsModel)
    requires
        ops.seen is Some,
    ensures
        Measurement::once(ptr, body).fits(ops) == (ops.seen->0.contains(ptr) || body.fits(
            ops.with_seen(ptr),
        )),
{
}

/// Reading a block leaves the operations as they were, and so does a fixed size.
pub proof fn law_block_keeps_ops(ptr: usize, n: nat)
    ensures
        keeps_ops(Measurement::block(ptr)),
        keeps_ops(Measurement::enclosing(ptr)),
        keeps_ops(Measurement::exactly(n)),
        keeps_ops(Measurement::always(n)),
{
}

/// A measurement by cases leaves the operations as they were, if each case does.
pub proof fn law_cases_keep_ops(
    cond: spec_fn(OpsModel) -> bool,
    yes: Measurement,
    no: Measurement,
)
    requires
        keeps_ops(yes),
        keeps_ops(no),
    ensures
        keeps_ops(Measurement::when(cond, yes, no)),
{
    assert forall|before: OpsModel, after: OpsModel, n: nat| #[trigger]
        Measurement::when(cond, yes, no).yields(before, after, n) implies after == before by {
        if cond(before) {
            assert(yes.yields(before, after, n));
        } else {
            assert(no.yields(before, after, n));
        }
    }
}

/// A measurement of what is found out leaves the operations as they were, if it
/// does so whatever is found out.
pub proof fn law_choices_keep_ops<A>(
    domain: spec_fn(A) -> bool,
    body: spec_fn(A) -> Measurement,
)
    requires
        forall|a: A| #[trigger] domain(a) ==> keeps_ops(body(a)),
    ensures
        keeps_ops(Measurement::over(domain, body)),
{
    assert forall|before: OpsModel, after: OpsModel, n: nat| #[trigger]
        Measurement::over(domain, body).yields(before, after, n) implies after == before by {
        let a = choose|a: A| #[trigger] domain(a) && body(a).yields(before, after, n);
        assert(keeps_ops(body(a)));
        assert(body(a).yields(before, after, n));
    }
}

/// A measurement that leaves the operations as they were forgets no pointer.
pub proof fn law_keeping_ops_keeps_seen(m: Measurement)
    requires
        keeps_ops(m),
    ensures
        keeps_seen(m),
{
}

/// Measuring values of which each leaves the operations as they were leaves
/// them so.
pub proof fn law_sum_keeps_ops(first: Measurement, rest: Seq<Measurement>)
    requires
        keeps_ops(first),
        forall|i: int| 0 <= i < rest.len() ==> keeps_ops(#[trigger] rest[i]),
    ensures
        keeps_ops(first.then_all(rest)),
    decreases rest.len(),
{
    if rest.len() > 0 {
        let (most, last) = (rest.drop_last(), rest.last());
        law_sum_keeps_ops(first, most);
        assert(keeps_ops(rest[rest.len() - 1]));
        assert forall|before: OpsModel, after: OpsModel, n: nat| #[trigger]
            first.then_all(rest).yields(before, after, n) implies after == before by {
            assert(first.then_all(most).plus_yields(last, before, after, n));
        }
    }
}

/// Measuring values of which none forgets a pointer that has been seen forgets
/// none.
pub proof fn law_sum_keeps_seen(first: Measurement, rest: Seq<Measurement>)
    requires
        keeps_seen(first),
        forall|i: int| 0 <= i < rest.len() ==> keeps_seen(#[trigger] rest[i]),
    ensures
        keeps_seen(first.then_all(rest)),
    decreases rest.len(),
{
    if rest.len() > 0 {
        let (most, last) = (rest.drop_last(), rest.last());
        let so_far = first.then_all(most);
        law_sum_keeps_seen(first, most);
        assert(keeps_seen(rest[rest.len() - 1]));
        assert forall|before: OpsModel, after: OpsModel, n: nat| #[trigger]
            first.then_all(rest).yields(before, after, n) && before.seen is Some implies after.seen
            is Some && before.seen->0.subset_of(after.seen->0) by {
            assert(so_far.plus_yields(last, before, after, n));
            let (mid, x, y): (OpsModel, nat, nat) = choose|mid: OpsModel, x: nat, y: nat|
                {
                    &&& #[trigger] so_far.yields(before, mid, x)
                    &&& #[trigger] last.yields(mid, after, y)
                    &&& n == x + y
                };
            assert(before.seen->0.subset_of(mid.seen->0));
            assert(mid.seen->0.subset_of(after.seen->0));
        }
    }
}

/// A shared value forgets no pointer that has been seen, if the value behind it
/// does not.
pub proof fn law_once_keeps_seen(ptr: usize, body: Measurement)
    requires
        keeps_seen(body),
    ensures
        keeps_seen(Measurement::once(ptr, body)),
{
    assert forall|before: OpsModel, after: OpsModel, n: nat| #[trigger]
        Measurement::once(ptr, body).yields(before, after, n) && before.seen is Some implies
        after.seen is Some && before.seen->0.subset_of(after.seen->0) by {
        assert(before.seen->0.subset_of(before.with_seen(ptr).seen->0));
        if !before.seen->0.contains(ptr) {
            assert(body.yields(before.with_seen(ptr), after, n));
        }
    }
}

/// Two measurements that leave the operations as they were can change places.
proof fn lemma_swap(start: Measurement, a: Measurement, b: Measurement)
    requires
        keeps_ops(a),
        keeps_ops(b),
    ensures
        same_sizes(start.plus(a).plus(b), start.plus(b).plus(a)),
{
    assert forall|before: OpsModel, after: OpsModel, n: nat| #[trigger]
        start.plus(a).plus(b).yields(before, after, n) implies start.plus(b).plus(a).yields(
        before,
        after,
        n,
    ) by {
        lemma_swap_once(start, a, b, before, after, n);
    }
    assert forall|before: OpsModel, after: OpsModel, n: nat| #[trigger]
        start.plus(b).plus(a).yields(before, after, n) implies start.plus(a).plus(b).yields(
        before,
        after,
        n,
    ) by {
        lemma_swap_once(start, b, a, before, after, n);
    }
}

proof fn lemma_swap_once(
    start: Measurement,
    a: Measurement,
    b: Measurement,
    before: OpsModel,
    after: OpsModel,
    n: nat,
)
    requires
        keeps_ops(a),
        keeps_ops(b),
        start.plus(a).plus(b).yields(before, after, n),
    ensures
        start.plus(b).plus(a).yields(before, after, n),
{
    assert(start.plus(a).plus_yields(b, before, after, n));
    let (m2, xy, z): (OpsModel, nat, nat) = choose|mid: OpsModel, p: nat, q: nat|
        {
            &&& #[trigger] start.plus(a).yields(before, mid, p)
            &&& #[trigger] b.yields(mid, after, q)
            &&& n == p + q
        };
    assert(start.plus_yields(a, before, m2, xy));
    let (m1, x, y): (OpsModel, nat, nat) = choose|mid: OpsModel, p: nat, q: nat|
        {
            &&& #[trigger] start.yields(before, mid, p)
            &&& #[trigger] a.yields(mid, m2, q)
            &&& xy == p + q
        };
    assert(b.yields(m1, m1, z));
    assert(start.plus_yields(b, before, m1, x + z));
    assert(start.plus(b).yields(before, m1, x + z));
    assert(start.plus(b).plus_yields(a, before, after, n));
}

/// A part of a sum can be moved to its end, where the parts leave the operations
/// as they were.
proof fn lemma_move_to_end(first: Measurement, rest: Seq<Measurement>, j: int)
    requires
        0 <= j < rest.len(),
        forall|i: int| 0 <= i < rest.len() ==> keeps_ops(#[trigger] rest[i]),
    ensures
        same_sizes(first.then_all(rest), first.then_all(rest.remove(j)).plus(rest[j])),
    decreases rest.len(),
{
    let (most, last) = (rest.drop_last(), rest.last());
    if j == rest.len() - 1 {
        assert(rest.remove(j) =~= most);
    } else {
        let others = first.then_all(most.remove(j));
        lemma_move_to_end(first, most, j);
        law_same_sums(first.then_all(most), others.plus(rest[j]), last, last);
        assert(keeps_ops(rest[j]) && keeps_ops(rest[rest.len() - 1]));
        lemma_swap(others, rest[j], last);
        assert(rest.remove(j).drop_last() =~= most.remove(j));
        assert(rest.remove(j).last() == last);
    }
}

/// The order in which items are measured does not matter, where measuring an
/// item leaves the operations as they were.
pub proof fn law_order_does_not_matter<T: MallocSizeOf>(
    first: Measurement,
    one: Seq<T>,
    other: Seq<T>,
)
    requires
        one.to_multiset() == other.to_multiset(),
        forall|i: int| 0 <= i < one.len() ==> keeps_ops(#[trigger] one[i].measurement()),
    ensures
        same_sizes(
            first.then_all(measurements(one)),
            first.then_all(measurements(other)),
        ),
    decreases one.len(),
{
    broadcast use vstd::seq_lib::group_to_multiset_ensures;

    assert(one.len() == one.to_multiset().len() == other.len());
    if one.len() > 0 {
        let k = one.len() - 1;
        let last = one[k];
        assert(one.contains(last));
        assert(other.to_multiset().count(last) > 0);
        assert(other.contains(last));
        let j = choose|j: int| 0 <= j < other.len() && other[j] == last;
        let (most, others) = (one.remove(k), other.remove(j));
        assert(most.to_multiset() == others.to_multiset());
        assert forall|i: int| 0 <= i < other.len() implies keeps_ops(
            #[trigger] other[i].measurement(),
        ) by {
            assert(other.contains(other[i]));
            assert(one.to_multiset().count(other[i]) > 0);
            assert(one.contains(other[i]));
        }
        law_order_does_not_matter(first, most, others);
        let m = last.measurement();
        assert(measurements(one).drop_last() =~= measurements(most));
        assert(measurements(other).remove(j) =~= measurements(others));
        law_same_sums(
            first.then_all(measurements(most)),
            first.then_all(measurements(others)),
            m,
            m,
        );
        lemma_move_to_end(first, measurements(other), j);
    } else {
        assert(one =~= other);
    }
}

} // verus!
