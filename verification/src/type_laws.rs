//! What the measurement of each type comes to, in terms of its parts.
use crate::buffers::{
    bit_vec_blocks, byte_buf_addresses, bytes_of, inline_vec_addresses, inline_vec_states,
    layer0_addresses, layer0_of, layer1_addresses, layer1_of, layer2_addresses, layer2_of,
    layer_measurement, ByteBuffer, InlineVec,
};
use crate::compound::{cell_values, mutex_values, ref_cell_values};
use crate::host::host_domains;
use crate::json::{json_model, JsonModel, JsonParts};
use crate::measurement::Measurement;
use crate::measurement_laws::{
    always_returns, law_block_at, law_blocks_of_values, law_choices, law_estimates, law_sum,
    law_sum_of_equal_sizes,
};
use crate::ops::{OpsModel, Target};
use crate::rtree::{children_measurements, ParentNode, RTree, RTreeNode};
use crate::sequences::{
    deque_capacities, lemma_deque_shallow_fits, lemma_vec_shallow_fits, string_addresses,
    vec_addresses, vec_capacities,
};
use crate::traits::{measurements, MallocShallowSizeOf, MallocSizeOf};
use crate::walk::{block_at, block_of, lies_at, on_wasm};
use euclid::{
    Angle, Length, Point2D, Rect, Scale, SideOffsets2D, Size2D, Transform2D, Transform3D, Vector2D,
};
use hibitset::BitSet;
use lyon::lyon_tessellation::VertexBuffers;
use serde_json::Value;
use smallbitvec::SmallBitVec;
use std::borrow::Cow;
use std::cell::{Cell, RefCell};
use std::collections::VecDeque;
use std::sync::Mutex;
use url::Host;
use vstd::prelude::*;
use vstd::utf8::encode_utf8;

verus! {

/// A string has the bytes that the size operation reports of its address, whatever
/// other operations there are. On WebAssembly it counts eight times its length.
pub proof fn law_string(string: &String, before: OpsModel, after: OpsModel, n: nat)
    ensures
        before.target == Target::Native ==> {
            &&& string.measurement().fits(before)
            &&& string.measurement().yields(before, after, n) <==> exists|ptr: usize| #[trigger]
                string_addresses(string)(ptr) && Measurement::block(ptr).yields(before, after, n)
        },
        before.target == Target::Wasm ==> {
            &&& string.measurement().fits(before) <==> 8 * encode_utf8(string@).len() <= usize::MAX
            &&& string.measurement().yields(before, after, n) <==> after == before && n == 8
                * encode_utf8(string@).len()
        },
{
    law_block_at(string_addresses(string), before, after, n);
}

/// A slice counts as the block that starts with it, except on WebAssembly, and then
/// each of its items.
pub proof fn law_slice<T: MallocSizeOf>(
    slice: &[T],
    before: OpsModel,
    after: OpsModel,
    n: nat,
)
    ensures
        before.target == Target::Native ==> {
            &&& slice.measurement().fits(before) <==> block_of(slice).then_all(
                measurements(slice@),
            ).fits(before)
            &&& slice.measurement().yields(before, after, n) <==> block_of(slice).then_all(
                measurements(slice@),
            ).yields(before, after, n)
        },
        before.target == Target::Wasm ==> {
            &&& slice.measurement().fits(before) <==> Measurement::nothing().then_all(
                measurements(slice@),
            ).fits(before)
            &&& slice.measurement().yields(before, after, n) <==> Measurement::nothing().then_all(
                measurements(slice@),
            ).yields(before, after, n)
        },
{
    let by_cases = Measurement::when(on_wasm(), Measurement::nothing(), block_of(slice));
    if before.target == Target::Native {
        lemma_first_replaced(by_cases, block_of(slice), measurements(slice@), before, after, n);
    } else {
        lemma_first_replaced(
            by_cases,
            Measurement::nothing(),
            measurements(slice@),
            before,
            after,
            n,
        );
    }
}

/// A first measurement can be replaced by one that does the same with the operations
/// that there are before it.
proof fn lemma_first_replaced(
    one: Measurement,
    other: Measurement,
    rest: Seq<Measurement>,
    before: OpsModel,
    after: OpsModel,
    n: nat,
)
    requires
        one.fits(before) == other.fits(before),
        forall|end: OpsModel, m: nat|
            #![trigger one.yields(before, end, m)]
            #![trigger other.yields(before, end, m)]
            one.yields(before, end, m) == other.yields(before, end, m),
    ensures
        one.then_all(rest).fits(before) == other.then_all(rest).fits(before),
        one.then_all(rest).yields(before, after, n) == other.then_all(rest).yields(
            before,
            after,
            n,
        ),
    decreases rest.len(),
{
    if rest.len() > 0 {
        let (most, last) = (rest.drop_last(), rest.last());
        let (a, b) = (one.then_all(most), other.then_all(most));
        assert forall|end: OpsModel, m: nat|
            #![trigger a.yields(before, end, m)]
            #![trigger b.yields(before, end, m)]
            a.yields(before, end, m) == b.yields(before, end, m) by {
            lemma_first_replaced(one, other, most, before, end, m);
        }
        lemma_first_replaced(one, other, most, before, after, n);
        law_sum(a, last, before, after, n);
        law_sum(b, last, before, after, n);
        assert(one.then_all(rest) == a.plus(last));
        assert(other.then_all(rest) == b.plus(last));
    }
}

/// The buffer of a vector has the bytes that the size operation reports of the
/// address of its elements, whatever other operations there are. On WebAssembly it
/// counts as the elements that it has room for.
pub proof fn law_vec_shallow<T>(vec: &Vec<T>, before: OpsModel, after: OpsModel, n: nat)
    ensures
        vec.shallow_measurement().fits(before),
        before.target == Target::Native ==> (vec.shallow_measurement().yields(before, after, n)
            <==> exists|ptr: usize| #[trigger]
            vec_addresses(vec)(ptr) && Measurement::block(ptr).yields(before, after, n)),
        before.target == Target::Wasm ==> (vec.shallow_measurement().yields(before, after, n)
            <==> after == before && exists|count: usize| #[trigger]
            vec_capacities(vec)(count) && n == count * vstd::layout::size_of::<T>()),
{
    lemma_vec_shallow_fits(vec, before);
    law_block_at(vec_addresses(vec), before, after, n);
    law_estimates(vec_capacities(vec), vstd::layout::size_of::<T>(), before, after, n);
}

/// A vector counts as its buffer and then each of its items.
pub proof fn law_vec_items<T: MallocSizeOf>(
    vec: &Vec<T>,
    before: OpsModel,
    after: OpsModel,
    n: nat,
)
    ensures
        vec.measurement().fits(before) <==> vec.shallow_measurement().then_all(
            measurements(vec@),
        ).fits(before),
        vec.measurement().yields(before, after, n) <==> vec.shallow_measurement().then_all(
            measurements(vec@),
        ).yields(before, after, n),
{
}

/// A vector whose items have the same size counts as its buffer and that size for
/// each of them.
pub proof fn law_vec_of_equal_items<T: MallocSizeOf>(
    vec: &Vec<T>,
    family: spec_fn(OpsModel) -> bool,
    size: nat,
    before: OpsModel,
    after: OpsModel,
    n: nat,
)
    requires
        family(before),
        forall|i: int|
            0 <= i < vec@.len() ==> always_returns(
                #[trigger] vec@[i].measurement(),
                family,
                size,
            ),
        vec.measurement().yields(before, after, n),
    ensures
        exists|x: nat| #[trigger]
            vec.shallow_measurement().yields(before, before, x) && n == x + vec@.len() * size,
{
    let rest = measurements(vec@);
    assert forall|i: int| 0 <= i < rest.len() implies always_returns(
        #[trigger] rest[i],
        family,
        size,
    ) by {
        assert(rest[i] == vec@[i].measurement());
    }
    law_sum_of_equal_sizes(vec.shallow_measurement(), rest, family, size, before, after, n);
}

/// The buffer of a deque is the block around its front item, where interior pointers
/// are supported, and else an estimate: as many items as there is room for. An empty
/// deque has no block, nor has one of items that take up no space.
pub proof fn law_deque_shallow<T>(
    deque: &VecDeque<T>,
    before: OpsModel,
    after: OpsModel,
    n: nat,
)
    ensures
        before.enclosing_size is Some && deque@.len() > 0 && vstd::layout::size_of::<T>() > 0 ==> {
            &&& deque.shallow_measurement().fits(before) <==> forall|ptr: usize| #[trigger]
                lies_at(&deque@[0], ptr) ==> ptr > 256
            &&& deque.shallow_measurement().yields(before, after, n) <==> exists|ptr: usize|
             #[trigger]
                lies_at(&deque@[0], ptr) && Measurement::enclosing(ptr).yields(before, after, n)
        },
        before.enclosing_size is Some && (deque@.len() == 0 || vstd::layout::size_of::<T>() == 0)
            ==> {
            &&& deque.shallow_measurement().fits(before)
            &&& deque.shallow_measurement().yields(before, after, n) <==> after == before && n == 0
        },
        before.enclosing_size is None ==> {
            &&& deque.shallow_measurement().fits(before)
            &&& deque.shallow_measurement().yields(before, after, n) <==> after == before && exists|
                count: usize,
            | #[trigger]
                deque_capacities(deque)(count) && n == count * vstd::layout::size_of::<T>()
        },
{
    lemma_deque_shallow_fits(deque, before);
    if deque@.len() > 0 {
        law_blocks_of_values(&deque@[0], before, after, n);
    }
    law_estimates(deque_capacities(deque), vstd::layout::size_of::<T>(), before, after, n);
}

/// A deque counts as its buffer and then each of its items, from front to back.
pub proof fn law_deque_items<T: MallocSizeOf>(
    deque: &VecDeque<T>,
    before: OpsModel,
    after: OpsModel,
    n: nat,
)
    ensures
        deque.measurement().fits(before) <==> deque.shallow_measurement().then_all(
            measurements(deque@),
        ).fits(before),
        deque.measurement().yields(before, after, n) <==> deque.shallow_measurement().then_all(
            measurements(deque@),
        ).yields(before, after, n),
{
}

/// A deque whose items have the same size counts as its buffer and that size for
/// each of them.
pub proof fn law_deque_of_equal_items<T: MallocSizeOf>(
    deque: &VecDeque<T>,
    family: spec_fn(OpsModel) -> bool,
    size: nat,
    before: OpsModel,
    after: OpsModel,
    n: nat,
)
    requires
        family(before),
        forall|i: int|
            0 <= i < deque@.len() ==> always_returns(
                #[trigger] deque@[i].measurement(),
                family,
                size,
            ),
        deque.measurement().yields(before, after, n),
    ensures
        exists|x: nat| #[trigger]
            deque.shallow_measurement().yields(before, before, x) && n == x + deque@.len() * size,
{
    let rest = measurements(deque@);
    assert forall|i: int| 0 <= i < rest.len() implies always_returns(
        #[trigger] rest[i],
        family,
        size,
    ) by {
        assert(rest[i] == deque@[i].measurement());
    }
    law_sum_of_equal_sizes(deque.shallow_measurement(), rest, family, size, before, after, n);
}

/// The block of a box is the one that starts with the value in it; on WebAssembly it
/// does not count.
pub proof fn law_box_shallow<T: ?Sized>(
    boxed: &Box<T>,
    before: OpsModel,
    after: OpsModel,
    n: nat,
)
    ensures
        boxed.shallow_measurement().fits(before),
        before.target == Target::Native ==> (boxed.shallow_measurement().yields(before, after, n)
            <==> exists|ptr: usize| #[trigger]
            lies_at(&**boxed, ptr) && Measurement::block(ptr).yields(before, after, n)),
        before.target == Target::Wasm ==> (boxed.shallow_measurement().yields(before, after, n)
            <==> after == before && n == 0),
{
    law_blocks_of_values(&**boxed, before, after, n);
}

/// A box counts as its block and then the value in it.
pub proof fn law_box<T: MallocSizeOf>(boxed: &Box<T>, before: OpsModel, after: OpsModel, n: nat)
    ensures
        boxed.measurement().fits(before) <==> boxed.shallow_measurement().plus(
            (**boxed).measurement(),
        ).fits(before),
        boxed.measurement().yields(before, after, n) <==> exists|a: nat, b: nat|
            {
                &&& #[trigger] boxed.shallow_measurement().yields(before, before, a)
                &&& #[trigger] (**boxed).measurement().yields(before, after, b)
                &&& n == a + b
            },
{
    law_sum(boxed.shallow_measurement(), (**boxed).measurement(), before, after, n);
}

/// A box of a value whose type is not known counts as its block and then the value.
pub proof fn law_box_of_any(
    boxed: &Box<dyn MallocSizeOf>,
    before: OpsModel,
    after: OpsModel,
    n: nat,
)
    ensures
        boxed.measurement().fits(before) <==> boxed.shallow_measurement().plus(
            (**boxed).measurement(),
        ).fits(before),
        boxed.measurement().yields(before, after, n) <==> exists|a: nat, b: nat|
            {
                &&& #[trigger] boxed.shallow_measurement().yields(before, before, a)
                &&& #[trigger] (**boxed).measurement().yields(before, after, b)
                &&& n == a + b
            },
{
    law_sum(boxed.shallow_measurement(), (**boxed).measurement(), before, after, n);
}

/// A boxed slice counts as its block and then each of its items.
pub proof fn law_boxed_slice<T: MallocSizeOf>(
    boxed: &Box<[T]>,
    before: OpsModel,
    after: OpsModel,
    n: nat,
)
    ensures
        boxed.measurement().fits(before) <==> boxed.shallow_measurement().then_all(
            measurements((**boxed)@),
        ).fits(before),
        boxed.measurement().yields(before, after, n) <==> boxed.shallow_measurement().then_all(
            measurements((**boxed)@),
        ).yields(before, after, n),
{
}

/// A boxed string counts as its block.
pub proof fn law_boxed_str(boxed: &Box<str>, before: OpsModel, after: OpsModel, n: nat)
    ensures
        boxed.measurement().fits(before),
        boxed.measurement().yields(before, after, n) <==> boxed.shallow_measurement().yields(
            before,
            after,
            n,
        ),
{
}

/// An array counts as each of its items.
pub proof fn law_array<T: MallocSizeOf, const N: usize>(
    array: &[T; N],
    before: OpsModel,
    after: OpsModel,
    n: nat,
)
    ensures
        array.measurement().fits(before) <==> Measurement::nothing().then_all(
            measurements(array@),
        ).fits(before),
        array.measurement().yields(before, after, n) <==> Measurement::nothing().then_all(
            measurements(array@),
        ).yields(before, after, n),
{
}

/// An array whose items have the same size counts that size for each of them.
pub proof fn law_array_of_equal_items<T: MallocSizeOf, const N: usize>(
    array: &[T; N],
    family: spec_fn(OpsModel) -> bool,
    size: nat,
    before: OpsModel,
    after: OpsModel,
    n: nat,
)
    requires
        family(before),
        forall|i: int|
            0 <= i < N ==> always_returns(#[trigger] array@[i].measurement(), family, size),
        array.measurement().yields(before, after, n),
    ensures
        n == N * size,
{
    let rest = measurements(array@);
    assert forall|i: int| 0 <= i < rest.len() implies always_returns(
        #[trigger] rest[i],
        family,
        size,
    ) by {
        assert(rest[i] == array@[i].measurement());
    }
    law_sum_of_equal_sizes(Measurement::nothing(), rest, family, size, before, after, n);
}

/// Three measurements one after another return the sum of what each returns.
pub proof fn law_three_parts(
    a: Measurement,
    b: Measurement,
    c: Measurement,
    before: OpsModel,
    after: OpsModel,
    n: nat,
)
    ensures
        a.plus(b).plus(c).yields(before, after, n) <==> exists|
            m1: OpsModel,
            m2: OpsModel,
            x: nat,
            y: nat,
            z: nat,
        |
            {
                &&& #[trigger] a.yields(before, m1, x)
                &&& #[trigger] b.yields(m1, m2, y)
                &&& #[trigger] c.yields(m2, after, z)
                &&& n == x + y + z
            },
{
    let ab = a.plus(b);
    law_sum(ab, c, before, after, n);
    if ab.plus(c).yields(before, after, n) {
        let (m2, xy, z): (OpsModel, nat, nat) = choose|mid: OpsModel, p: nat, q: nat|
            {
                &&& #[trigger] ab.yields(before, mid, p)
                &&& #[trigger] c.yields(mid, after, q)
                &&& n == p + q
            };
        law_sum(a, b, before, m2, xy);
        let (m1, x, y): (OpsModel, nat, nat) = choose|mid: OpsModel, p: nat, q: nat|
            {
                &&& #[trigger] a.yields(before, mid, p)
                &&& #[trigger] b.yields(mid, m2, q)
                &&& xy == p + q
            };
        assert(a.yields(before, m1, x) && b.yields(m1, m2, y) && c.yields(m2, after, z));
    }
    assert forall|m1: OpsModel, m2: OpsModel, x: nat, y: nat, z: nat| #[trigger]
        a.yields(before, m1, x) && #[trigger] b.yields(m1, m2, y) && #[trigger] c.yields(
            m2,
            after,
            z,
        ) && n == x + y + z implies ab.plus(c).yields(before, after, n) by {
        law_sum(a, b, before, m2, x + y);
        assert(ab.yields(before, m2, x + y));
    }
}

/// Four measurements one after another return the sum of what each returns.
pub proof fn law_four_parts(
    a: Measurement,
    b: Measurement,
    c: Measurement,
    d: Measurement,
    before: OpsModel,
    after: OpsModel,
    n: nat,
)
    ensures
        a.plus(b).plus(c).plus(d).yields(before, after, n) <==> exists|
            m1: OpsModel,
            m2: OpsModel,
            m3: OpsModel,
            x: nat,
            y: nat,
            z: nat,
            w: nat,
        |
            {
                &&& #[trigger] a.yields(before, m1, x)
                &&& #[trigger] b.yields(m1, m2, y)
                &&& #[trigger] c.yields(m2, m3, z)
                &&& #[trigger] d.yields(m3, after, w)
                &&& n == x + y + z + w
            },
{
    let abc = a.plus(b).plus(c);
    law_sum(abc, d, before, after, n);
    if abc.plus(d).yields(before, after, n) {
        let (m3, xyz, w): (OpsModel, nat, nat) = choose|mid: OpsModel, p: nat, q: nat|
            {
                &&& #[trigger] abc.yields(before, mid, p)
                &&& #[trigger] d.yields(mid, after, q)
                &&& n == p + q
            };
        law_three_parts(a, b, c, before, m3, xyz);
        let (m1, m2, x, y, z): (OpsModel, OpsModel, nat, nat, nat) = choose|
            m1: OpsModel,
            m2: OpsModel,
            x: nat,
            y: nat,
            z: nat,
        |
            {
                &&& #[trigger] a.yields(before, m1, x)
                &&& #[trigger] b.yields(m1, m2, y)
                &&& #[trigger] c.yields(m2, m3, z)
                &&& xyz == x + y + z
            };
        assert(a.yields(before, m1, x) && b.yields(m1, m2, y) && c.yields(m2, m3, z) && d.yields(
            m3,
            after,
            w,
        ));
    }
    assert forall|
        m1: OpsModel,
        m2: OpsModel,
        m3: OpsModel,
        x: nat,
        y: nat,
        z: nat,
        w: nat,
    | #[trigger]
        a.yields(before, m1, x) && #[trigger] b.yields(m1, m2, y) && #[trigger] c.yields(m2, m3, z)
            && #[trigger] d.yields(m3, after, w) && n == x + y + z + w implies abc.plus(d).yields(
        before,
        after,
        n,
    ) by {
        law_three_parts(a, b, c, before, m3, x + y + z);
        assert(abc.yields(before, m3, x + y + z));
    }
}

/// A pair counts as its first part and then its second, each of them once.
pub proof fn law_pair<T1: MallocSizeOf, T2: MallocSizeOf>(
    pair: &(T1, T2),
    before: OpsModel,
    after: OpsModel,
    n: nat,
)
    ensures
        pair.measurement().fits(before) <==> pair.0.measurement().plus(pair.1.measurement()).fits(
            before,
        ),
        pair.measurement().yields(before, after, n) <==> exists|mid: OpsModel, x: nat, y: nat|
            {
                &&& #[trigger] pair.0.measurement().yields(before, mid, x)
                &&& #[trigger] pair.1.measurement().yields(mid, after, y)
                &&& n == x + y
            },
{
    law_sum(pair.0.measurement(), pair.1.measurement(), before, after, n);
}

/// A tuple of three counts as its parts one after another, each of them once.
pub proof fn law_triple<T1: MallocSizeOf, T2: MallocSizeOf, T3: MallocSizeOf>(
    triple: &(T1, T2, T3),
    before: OpsModel,
    after: OpsModel,
    n: nat,
)
    ensures
        triple.measurement().fits(before) <==> triple.0.measurement().plus(
            triple.1.measurement(),
        ).plus(triple.2.measurement()).fits(before),
        triple.measurement().yields(before, after, n) <==> exists|
            m1: OpsModel,
            m2: OpsModel,
            x: nat,
            y: nat,
            z: nat,
        |
            {
                &&& #[trigger] triple.0.measurement().yields(before, m1, x)
                &&& #[trigger] triple.1.measurement().yields(m1, m2, y)
                &&& #[trigger] triple.2.measurement().yields(m2, after, z)
                &&& n == x + y + z
            },
{
    law_three_parts(
        triple.0.measurement(),
        triple.1.measurement(),
        triple.2.measurement(),
        before,
        after,
        n,
    );
}

/// A tuple of four counts as its parts one after another, each of them once.
pub proof fn law_quadruple<
    T1: MallocSizeOf,
    T2: MallocSizeOf,
    T3: MallocSizeOf,
    T4: MallocSizeOf,
>(tuple: &(T1, T2, T3, T4), before: OpsModel, after: OpsModel, n: nat)
    ensures
        tuple.measurement().fits(before) <==> tuple.0.measurement().plus(
            tuple.1.measurement(),
        ).plus(tuple.2.measurement()).plus(tuple.3.measurement()).fits(before),
        tuple.measurement().yields(before, after, n) <==> exists|
            m1: OpsModel,
            m2: OpsModel,
            m3: OpsModel,
            x: nat,
            y: nat,
            z: nat,
            w: nat,
        |
            {
                &&& #[trigger] tuple.0.measurement().yields(before, m1, x)
                &&& #[trigger] tuple.1.measurement().yields(m1, m2, y)
                &&& #[trigger] tuple.2.measurement().yields(m2, m3, z)
                &&& #[trigger] tuple.3.measurement().yields(m3, after, w)
                &&& n == x + y + z + w
            },
{
    law_four_parts(
        tuple.0.measurement(),
        tuple.1.measurement(),
        tuple.2.measurement(),
        tuple.3.measurement(),
        before,
        after,
        n,
    );
}

/// An optional value counts as the value, and owns nothing where there is none.
pub proof fn law_option<T: MallocSizeOf>(value: &T)
    ensures
        Some(*value).measurement() == value.measurement(),
        None::<T>.measurement() == Measurement::nothing(),
{
}

/// A result counts as what it holds, whichever of the two that is.
pub proof fn law_result<T: MallocSizeOf, E: MallocSizeOf>(value: T, error: E)
    ensures
        Ok::<T, E>(value).measurement() == value.measurement(),
        Err::<T, E>(error).measurement() == error.measurement(),
{
}

/// A value that is borrowed owns nothing, and one that is owned counts.
pub proof fn law_cow<'a, B: ?Sized + ToOwned>(borrowed: &'a B, owned: B::Owned) where
    B::Owned: MallocSizeOf,

    ensures
        Cow::Borrowed(borrowed).measurement() == Measurement::nothing(),
        Cow::<'a, B>::Owned(owned).measurement() == owned.measurement(),
{
}

/// A cell counts as a value that it may hold.
pub proof fn law_cell<T: MallocSizeOf + Copy>(
    cell: &Cell<T>,
    before: OpsModel,
    after: OpsModel,
    n: nat,
)
    ensures
        cell.measurement().fits(before) <==> forall|value: T| #[trigger]
            cell_values(cell)(value) ==> value.measurement().fits(before),
        cell.measurement().yields(before, after, n) <==> exists|value: T| #[trigger]
            cell_values(cell)(value) && value.measurement().yields(before, after, n),
{
    law_choices(
        cell_values(cell),
        crate::compound::measurement_of::<T>(),
        before,
        after,
        n,
    );
}

/// A cell that is borrowed at run time counts as a value that it may hold, and can be
/// measured where it cannot be found mutably borrowed.
pub proof fn law_ref_cell<T: MallocSizeOf>(
    cell: &RefCell<T>,
    before: OpsModel,
    after: OpsModel,
    n: nat,
)
    ensures
        cell.measurement().fits(before) <==> !ref_cell_values(cell)(None) && forall|value: T|
         #[trigger]
            ref_cell_values(cell)(Some(value)) ==> value.measurement().fits(before),
        cell.measurement().yields(before, after, n) <==> exists|value: T| #[trigger]
            ref_cell_values(cell)(Some(value)) && value.measurement().yields(before, after, n),
{
    lemma_if_reached::<T>(ref_cell_values(cell), before, after, n);
}

/// A mutex counts as a value that it may guard, and can be measured where it cannot be
/// found poisoned or held.
pub proof fn law_mutex<T: MallocSizeOf>(
    mutex: &Mutex<T>,
    before: OpsModel,
    after: OpsModel,
    n: nat,
)
    ensures
        mutex.measurement().fits(before) <==> !mutex_values(mutex)(None) && forall|value: T|
         #[trigger]
            mutex_values(mutex)(Some(value)) ==> value.measurement().fits(before),
        mutex.measurement().yields(before, after, n) <==> exists|value: T| #[trigger]
            mutex_values(mutex)(Some(value)) && value.measurement().yields(before, after, n),
{
    lemma_if_reached::<T>(mutex_values(mutex), before, after, n);
}

/// A value that must be reached is measured where it is always reached.
proof fn lemma_if_reached<T: MallocSizeOf>(
    values: spec_fn(Option<T>) -> bool,
    before: OpsModel,
    after: OpsModel,
    n: nat,
)
    ensures
        Measurement::over(values, crate::compound::measurement_if_reached::<T>()).fits(before)
            <==> !values(None) && forall|value: T| #[trigger]
            values(Some(value)) ==> value.measurement().fits(before),
        Measurement::over(values, crate::compound::measurement_if_reached::<T>()).yields(
            before,
            after,
            n,
        ) <==> exists|value: T| #[trigger]
            values(Some(value)) && value.measurement().yields(before, after, n),
{
    let body = crate::compound::measurement_if_reached::<T>();
    let m = Measurement::over(values, body);
    law_choices(values, body, before, after, n);
    if m.fits(before) {
        assert forall|value: T| #[trigger] values(Some(value)) implies value.measurement().fits(
            before,
        ) by {
            assert(body(Some(value)).fits(before));
        }
        if values(None) {
            assert(body(None).fits(before));
        }
    }
    if !values(None) && forall|value: T| #[trigger]
        values(Some(value)) ==> value.measurement().fits(before) {
        assert forall|value: Option<T>| #[trigger] values(value) implies body(value).fits(
            before,
        ) by {
            if value is Some {
                assert(values(Some(value->0)));
            }
        }
    }
    if m.yields(before, after, n) {
        let value = choose|value: Option<T>| #[trigger]
            values(value) && body(value).yields(before, after, n);
        assert(values(Some(value->0)) && (value->0).measurement().yields(before, after, n));
    }
    if exists|value: T| #[trigger]
        values(Some(value)) && value.measurement().yields(before, after, n) {
        let value = choose|value: T| #[trigger]
            values(Some(value)) && value.measurement().yields(before, after, n);
        assert(values(Some(value)) && body(Some(value)).yields(before, after, n));
    }
}

/// A JSON string counts as its string does, whatever operations there are.
pub proof fn law_json_string(value: &Value, string: String)
    requires
        json_model(*value) == JsonModel::String(string),
    ensures
        value.measurement() == string.measurement(),
{
}

/// A JSON value that holds no other owns nothing, and can always be measured.
pub proof fn law_json_plain(value: &Value, before: OpsModel, after: OpsModel, n: nat)
    requires
        json_model(*value) is Null || json_model(*value) is Bool || json_model(*value) is Number,
    ensures
        value.measurement().fits(before),
        value.measurement().yields(before, after, n) <==> after == before && n == 0,
{
}

/// A JSON array counts as its buffer and then each of its items, at any depth.
pub proof fn law_json_array_items(
    value: &Value,
    items: Vec<Value>,
    before: OpsModel,
    after: OpsModel,
    n: nat,
)
    requires
        json_model(*value) == JsonModel::Array(items),
        forall|i: int| 0 <= i < items@.len() ==> decreases_to!(*value => #[trigger] items@[i]),
    ensures
        value.measurement().fits(before) <==> items.shallow_measurement().then_all(
            measurements(items@),
        ).fits(before),
        value.measurement().yields(before, after, n) <==> items.shallow_measurement().then_all(
            measurements(items@),
        ).yields(before, after, n),
{
    assert(crate::json::item_measurements(*value, items@) =~= measurements(items@));
}

/// A JSON object counts as the key and the value of each of its entries, at any depth.
pub proof fn law_json_object_entries(
    value: &Value,
    entries: Seq<(String, Value)>,
    before: OpsModel,
    after: OpsModel,
    n: nat,
)
    requires
        json_model(*value) == JsonModel::Object(entries),
        forall|i: int|
            0 <= i < entries.len() ==> decreases_to!(*value => (#[trigger] entries[i]).1),
    ensures
        value.measurement().fits(before) <==> Measurement::nothing().then_all(
            measurements(entries),
        ).fits(before),
        value.measurement().yields(before, after, n) <==> Measurement::nothing().then_all(
            measurements(entries),
        ).yields(before, after, n),
{
    assert(crate::json::entry_measurements(*value, entries) =~= measurements(entries)) by {
        assert forall|i: int| 0 <= i < entries.len() implies crate::json::entry_measurements(
            *value,
            entries,
        )[i] == measurements(entries)[i] by {
            assert(crate::json::inside(*value, entries[i].1));
        }
    }
}

/// The parts of a JSON value are what it is made of: the whole string, all items and
/// all entries.
pub proof fn law_json_parts<'a>(
    string: &'a String,
    items: &'a Vec<Value>,
    entries: Vec<(&'a String, &'a Value)>,
)
    ensures
        JsonParts::<'a>::Null.model() is Null,
        JsonParts::<'a>::Bool.model() is Bool,
        JsonParts::<'a>::Number.model() is Number,
        JsonParts::<'a>::String(string).model() == JsonModel::String(*string),
        JsonParts::<'a>::Array(items).model() == JsonModel::Array(*items),
        JsonParts::<'a>::Object(entries).model() == JsonModel::Object(entries@.unref()),
{
}

/// Each item of an array and the value of each entry of an object is a proper part of
/// the JSON value that holds it.
pub proof fn law_json_inside(whole: Value, items: Vec<Value>, entries: Seq<(String, Value)>)
    ensures
        crate::json::all_inside(whole, JsonModel::Array(items)) <==> forall|i: int|
            0 <= i < items@.len() ==> decreases_to!(whole => #[trigger] items@[i]),
        crate::json::all_inside(whole, JsonModel::Object(entries)) <==> forall|i: int|
            0 <= i < entries.len() ==> decreases_to!(whole => (#[trigger] entries[i]).1),
{
    let values = crate::json::values_of(entries);
    assert forall|i: int| 0 <= i < entries.len() implies values[i] == (#[trigger] entries[i]).1 by {
    }
    if crate::json::all_inside(whole, JsonModel::Object(entries)) {
        assert forall|i: int| 0 <= i < entries.len() implies decreases_to!(
            whole => (#[trigger] entries[i]).1
        ) by {
            assert(crate::json::inside(whole, values[i]));
        }
    }
    if forall|i: int|
        0 <= i < entries.len() ==> decreases_to!(whole => (#[trigger] entries[i]).1) {
        assert forall|i: int| 0 <= i < values.len() implies crate::json::inside(
            whole,
            #[trigger] values[i],
        ) by {
            assert(values[i] == entries[i].1);
        }
    }
    if crate::json::all_inside(whole, JsonModel::Array(items)) {
        assert forall|i: int| 0 <= i < items@.len() implies decreases_to!(
            whole => #[trigger] items@[i]
        ) by {
            assert(crate::json::inside(whole, items@[i]));
        }
    }
}

/// A leaf of an R-tree counts as its item, an inner node as a parent, and a tree as its
/// topmost node.
pub proof fn law_rtree_nodes<'a, T: MallocSizeOf>(
    item: &'a T,
    parent: ParentNode<'a, T>,
    tree: &RTree<'a, T>,
)
    ensures
        RTreeNode::<'a, T>::Leaf(item).measurement() == item.measurement(),
        RTreeNode::<'a, T>::Parent(parent).measurement() == parent.measurement(),
        tree.measurement() == tree.root.measurement(),
{
}

/// A parent in an R-tree counts as the block of its children, except on WebAssembly,
/// and then each of its children.
pub proof fn law_rtree_parent<'a, T: MallocSizeOf>(
    parent: &ParentNode<'a, T>,
    before: OpsModel,
    after: OpsModel,
    n: nat,
)
    ensures
        before.target == Target::Native ==> {
            &&& parent.measurement().fits(before) <==> Measurement::block(parent.block).then_all(
                measurements(parent.children@),
            ).fits(before)
            &&& parent.measurement().yields(before, after, n) <==> Measurement::block(
                parent.block,
            ).then_all(measurements(parent.children@)).yields(before, after, n)
        },
        before.target == Target::Wasm ==> {
            &&& parent.measurement().fits(before) <==> Measurement::nothing().then_all(
                measurements(parent.children@),
            ).fits(before)
            &&& parent.measurement().yields(before, after, n)
                <==> Measurement::nothing().then_all(measurements(parent.children@)).yields(
                before,
                after,
                n,
            )
        },
{
    let rest = measurements(parent.children@);
    assert(children_measurements(parent.children) =~= rest);
    let block = Measurement::block(parent.block);
    let by_cases = Measurement::when(on_wasm(), Measurement::nothing(), block);
    assert(parent.measurement() == by_cases.then_all(rest));
    if before.target == Target::Native {
        lemma_first_replaced(by_cases, block, rest, before, after, n);
    } else {
        lemma_first_replaced(by_cases, Measurement::nothing(), rest, before, after, n);
    }
}

/// A parent whose children have the same size counts as the block of its children and
/// that size for each of them.
pub proof fn law_rtree_of_equal_children<'a, T: MallocSizeOf>(
    parent: &ParentNode<'a, T>,
    family: spec_fn(OpsModel) -> bool,
    size: nat,
    before: OpsModel,
    after: OpsModel,
    n: nat,
)
    requires
        before.target == Target::Native,
        family(before),
        forall|i: int|
            0 <= i < parent.children@.len() ==> always_returns(
                #[trigger] parent.children@[i].measurement(),
                family,
                size,
            ),
        parent.measurement().yields(before, after, n),
    ensures
        exists|x: nat|
            {
                &&& #[trigger] Measurement::block(parent.block).yields(before, before, x)
                &&& n == x + parent.children@.len() * size
            },
{
    law_rtree_parent(parent, before, after, n);
    let rest = measurements(parent.children@);
    assert forall|i: int| 0 <= i < rest.len() implies always_returns(
        #[trigger] rest[i],
        family,
        size,
    ) by {
        assert(rest[i] == parent.children@[i].measurement());
    }
    law_sum_of_equal_sizes(
        Measurement::block(parent.block),
        rest,
        family,
        size,
        before,
        after,
        n,
    );
}

/// A buffer of bytes counts as the block at their address, deep and shallow.
pub proof fn law_byte_buffer(buf: &ByteBuffer, before: OpsModel, after: OpsModel, n: nat)
    ensures
        buf.shallow_measurement().fits(before),
        buf.shallow_measurement().yields(before, after, n) <==> exists|ptr: usize| #[trigger]
            byte_buf_addresses(buf)(ptr) && Measurement::block(ptr).yields(before, after, n),
        buf.measurement().fits(before),
        buf.measurement().yields(before, after, n) <==> exists|ptr: usize| #[trigger]
            byte_buf_addresses(buf)(ptr) && Measurement::block(ptr).yields(before, after, n),
{
    law_block_at(byte_buf_addresses(buf), before, after, n);
    let bytes = measurements(bytes_of(*buf));
    crate::laws::law_rest_without_heap(buf.shallow_measurement(), bytes);
    crate::laws::law_rest_without_heap_fits(buf.shallow_measurement(), bytes, before);
}

/// A bit vector counts as its block on the heap, if it has one.
pub proof fn law_bit_vec(bits: &SmallBitVec, before: OpsModel, after: OpsModel, n: nat)
    ensures
        bits.measurement().fits(before),
        bits.measurement().yields(before, after, n) <==> {
            ||| bit_vec_blocks(bits)(None) && after == before && n == 0
            ||| exists|ptr: usize| #[trigger]
                bit_vec_blocks(bits)(Some(ptr)) && Measurement::block(ptr).yields(before, after, n)
        },
{
    let (blocks, body) = (bit_vec_blocks(bits), crate::buffers::block_if_any());
    law_choices(blocks, body, before, after, n);
    if bits.measurement().yields(before, after, n) {
        let ptr = choose|ptr: Option<usize>| #[trigger]
            blocks(ptr) && body(ptr).yields(before, after, n);
        assert(ptr is Some ==> blocks(Some(ptr->0)));
    }
    if blocks(None) && after == before && n == 0 {
        assert(body(None).yields(before, after, n));
    }
    if exists|ptr: usize| #[trigger]
        blocks(Some(ptr)) && Measurement::block(ptr).yields(before, after, n) {
        let ptr = choose|ptr: usize| #[trigger]
            blocks(Some(ptr)) && Measurement::block(ptr).yields(before, after, n);
        assert(blocks(Some(ptr)) && body(Some(ptr)).yields(before, after, n));
    }
}

/// A bit set counts as the buffers of its three layers, each of them once. On
/// WebAssembly they do not count.
pub proof fn law_bit_set(set: &BitSet, before: OpsModel, after: OpsModel, n: nat)
    ensures
        before.target == Target::Native ==> {
            &&& set.measurement().fits(before) <==> block_at(layer0_addresses(set)).plus(
                block_at(layer1_addresses(set)),
            ).plus(block_at(layer2_addresses(set))).fits(before)
            &&& set.measurement().yields(before, after, n) <==> block_at(
                layer0_addresses(set),
            ).plus(block_at(layer1_addresses(set))).plus(block_at(layer2_addresses(set))).yields(
                before,
                after,
                n,
            )
        },
        before.target == Target::Wasm ==> {
            &&& set.measurement().fits(before)
            &&& set.measurement().yields(before, after, n) <==> after == before && n == 0
        },
{
    let (a0, a1, a2) = (layer0_addresses(set), layer1_addresses(set), layer2_addresses(set));
    let (w0, w1, w2) = (layer0_of(*set), layer1_of(*set), layer2_of(*set));
    let (m0, m1, m2) = (
        layer_measurement(a0, w0),
        layer_measurement(a1, w1),
        layer_measurement(a2, w2),
    );
    assert(set.measurement() == m0.plus(m1).plus(m2));
    lemma_layer(a0, w0, before);
    lemma_layer(a1, w1, before);
    lemma_layer(a2, w2, before);
    if before.target == Target::Native {
        let (b0, b1, b2) = (block_at(a0), block_at(a1), block_at(a2));
        law_block_at(a0, before, before, 0);
        law_block_at(a1, before, before, 0);
        law_block_at(a2, before, before, 0);
        lemma_two_sums(m0, m1, b0, b1, before);
        lemma_two_sums(m0.plus(m1), m2, b0.plus(b1), b2, before);
    } else {
        let nothing = Measurement::nothing();
        let none = nothing.plus(nothing);
        lemma_two_sums(m0, m1, nothing, nothing, before);
        lemma_two_sums(m0.plus(m1), m2, none, nothing, before);
        lemma_nothing_twice(nothing, before);
        lemma_nothing_twice(none, before);
        assert(none.plus(nothing).yields(before, after, n) <==> after == before && n == 0);
    }
}

/// Nothing after nothing is nothing.
proof fn lemma_nothing_twice(m: Measurement, before: OpsModel)
    requires
        m.fits(before),
        forall|after: OpsModel, n: nat| #[trigger]
            m.yields(before, after, n) <==> after == before && n == 0,
    ensures
        m.plus(Measurement::nothing()).fits(before),
        forall|after: OpsModel, n: nat| #[trigger]
            m.plus(Measurement::nothing()).yields(before, after, n) <==> after == before && n == 0,
{
    let nothing = Measurement::nothing();
    law_sum(m, nothing, before, before, 0);
    assert forall|after: OpsModel, n: nat| #[trigger]
        m.plus(nothing).yields(before, after, n) <==> after == before && n == 0 by {
        law_sum(m, nothing, before, after, n);
        if after == before && n == 0 {
            assert(m.yields(before, before, 0) && nothing.yields(before, before, 0));
        }
    }
}

/// What one layer of a bit set yields: its words own nothing.
proof fn lemma_layer(at: spec_fn(usize) -> bool, words: Seq<usize>, before: OpsModel)
    ensures
        layer_measurement(at, words).fits(before),
        before.target == Target::Native ==> forall|after: OpsModel, n: nat|
            #![trigger layer_measurement(at, words).yields(before, after, n)]
            #![trigger block_at(at).yields(before, after, n)]
            layer_measurement(at, words).yields(before, after, n) == block_at(at).yields(
                before,
                after,
                n,
            ),
        before.target == Target::Wasm ==> forall|after: OpsModel, n: nat|
            #![trigger layer_measurement(at, words).yields(before, after, n)]
            #![trigger Measurement::nothing().yields(before, after, n)]
            layer_measurement(at, words).yields(before, after, n)
                == Measurement::nothing().yields(before, after, n),
        forall|after: OpsModel, n: nat| #[trigger]
            layer_measurement(at, words).yields(before, after, n) ==> after == before,
{
    let first = crate::buffers::layer_buffer(at);
    crate::laws::law_rest_without_heap(first, measurements(words));
    crate::laws::law_rest_without_heap_fits(first, measurements(words), before);
}

/// Sums of measurements that do the same, and leave the operations as they were, can
/// be made with the same operations and return the same.
proof fn lemma_two_sums(
    a: Measurement,
    b: Measurement,
    c: Measurement,
    d: Measurement,
    before: OpsModel,
)
    requires
        a.fits(before) == c.fits(before),
        b.fits(before) == d.fits(before),
        forall|after: OpsModel, n: nat|
            #![trigger a.yields(before, after, n)]
            #![trigger c.yields(before, after, n)]
            a.yields(before, after, n) == c.yields(before, after, n),
        forall|after: OpsModel, n: nat|
            #![trigger b.yields(before, after, n)]
            #![trigger d.yields(before, after, n)]
            b.yields(before, after, n) == d.yields(before, after, n),
        forall|after: OpsModel, n: nat| #[trigger]
            a.yields(before, after, n) ==> after == before,
        forall|after: OpsModel, n: nat| #[trigger]
            b.yields(before, after, n) ==> after == before,
    ensures
        a.plus(b).fits(before) == c.plus(d).fits(before),
        forall|after: OpsModel, n: nat|
            #![trigger a.plus(b).yields(before, after, n)]
            #![trigger c.plus(d).yields(before, after, n)]
            a.plus(b).yields(before, after, n) == c.plus(d).yields(before, after, n),
        forall|after: OpsModel, n: nat| #[trigger]
            a.plus(b).yields(before, after, n) ==> after == before,
{
    law_sum(a, b, before, before, 0);
    law_sum(c, d, before, before, 0);
    assert forall|after: OpsModel, n: nat|
        a.plus(b).yields(before, after, n) == c.plus(d).yields(before, after, n) && (a.plus(
            b,
        ).yields(before, after, n) ==> after == before) by {
        law_sum(a, b, before, after, n);
        law_sum(c, d, before, after, n);
    }
}

/// A vertex buffer counts as its vertices and then its indices.
pub proof fn law_vertex_buffers<T: MallocSizeOf>(
    long: &VertexBuffers<T, u32>,
    short: &VertexBuffers<T, u16>,
    before: OpsModel,
    after: OpsModel,
    n: nat,
)
    ensures
        long.measurement().fits(before) <==> long.vertices.measurement().plus(
            long.indices.measurement(),
        ).fits(before),
        long.measurement().yields(before, after, n) <==> exists|mid: OpsModel, x: nat, y: nat|
            {
                &&& #[trigger] long.vertices.measurement().yields(before, mid, x)
                &&& #[trigger] long.indices.measurement().yields(mid, after, y)
                &&& n == x + y
            },
        short.measurement().fits(before) <==> short.vertices.measurement().plus(
            short.indices.measurement(),
        ).fits(before),
        short.measurement().yields(before, after, n) <==> exists|mid: OpsModel, x: nat, y: nat|
            {
                &&& #[trigger] short.vertices.measurement().yields(before, mid, x)
                &&& #[trigger] short.indices.measurement().yields(mid, after, y)
                &&& n == x + y
            },
{
    law_sum(long.vertices.measurement(), long.indices.measurement(), before, after, n);
    law_sum(short.vertices.measurement(), short.indices.measurement(), before, after, n);
}

/// A vector with room for some items in itself owns a buffer where it has spilled,
/// and else nothing. The buffer has the bytes that the size operation reports of the
/// address of the items; on WebAssembly it counts as the room in the vector.
pub proof fn law_inline_vec_shallow<T, const N: usize>(
    vec: &InlineVec<T, N>,
    before: OpsModel,
    after: OpsModel,
    n: nat,
)
    ensures
        vec.shallow_measurement().fits(before),
        vec.shallow_measurement().yields(before, after, n) <==> exists|state: (bool, Seq<T>)|
         #[trigger]
            inline_vec_states(vec)(state) && if !state.0 {
                after == before && n == 0
            } else if before.target == Target::Wasm {
                after == before && n == vstd::layout::size_of::<[T; N]>()
            } else {
                block_at(inline_vec_addresses(vec)).yields(before, after, n)
            },
{
    law_choices(
        inline_vec_states(vec),
        crate::buffers::buffer_in_state(vec),
        before,
        after,
        n,
    );
    law_block_at(inline_vec_addresses(vec), before, after, n);
}

/// Such a vector counts as its buffer and then each of its items, whether or not it
/// has spilled.
pub proof fn law_inline_vec_items<T: MallocSizeOf, const N: usize>(
    vec: &InlineVec<T, N>,
    before: OpsModel,
    after: OpsModel,
    n: nat,
)
    ensures
        vec.measurement().yields(before, after, n) <==> exists|state: (bool, Seq<T>)| #[trigger]
            inline_vec_states(vec)(state) && if !state.0 {
                Measurement::nothing().then_all(measurements(state.1)).yields(before, after, n)
            } else if before.target == Target::Wasm {
                Measurement::always(vstd::layout::size_of::<[T; N]>()).then_all(
                    measurements(state.1),
                ).yields(before, after, n)
            } else {
                block_at(inline_vec_addresses(vec)).then_all(measurements(state.1)).yields(
                    before,
                    after,
                    n,
                )
            },
        vec.measurement().fits(before) <==> forall|state: (bool, Seq<T>)| #[trigger]
            inline_vec_states(vec)(state) ==> if !state.0 {
                Measurement::nothing().then_all(measurements(state.1)).fits(before)
            } else if before.target == Target::Wasm {
                Measurement::always(vstd::layout::size_of::<[T; N]>()).then_all(
                    measurements(state.1),
                ).fits(before)
            } else {
                block_at(inline_vec_addresses(vec)).then_all(measurements(state.1)).fits(before)
            },
{
    let (states, body) = (inline_vec_states(vec), crate::buffers::buffer_and_items(vec));
    law_choices(states, body, before, after, n);
    let block = block_at(inline_vec_addresses(vec));
    let room = Measurement::always(vstd::layout::size_of::<[T; N]>());
    let by_cases = Measurement::when(on_wasm(), room, block);
    assert forall|state: (bool, Seq<T>)| #[trigger] states(state) implies {
        let first = if !state.0 {
            Measurement::nothing()
        } else if before.target == Target::Wasm {
            room
        } else {
            block
        };
        &&& body(state).fits(before) == first.then_all(measurements(state.1)).fits(before)
        &&& body(state).yields(before, after, n) == first.then_all(measurements(state.1)).yields(
            before,
            after,
            n,
        )
    } by {
        if state.0 {
            let first = if before.target == Target::Wasm {
                room
            } else {
                block
            };
            lemma_first_replaced(by_cases, first, measurements(state.1), before, after, n);
        }
    }
}

/// A host counts as its domain name, and owns nothing where it is an address.
pub proof fn law_host(host: &Host<String>, before: OpsModel, after: OpsModel, n: nat)
    ensures
        host.measurement().fits(before) <==> forall|name: String| #[trigger]
            host_domains(host)(Some(name)) ==> name.measurement().fits(before),
        host.measurement().yields(before, after, n) <==> {
            ||| host_domains(host)(None) && after == before && n == 0
            ||| exists|name: String| #[trigger]
                host_domains(host)(Some(name)) && name.measurement().yields(before, after, n)
        },
{
    let (domains, body) = (host_domains(host), crate::host::domain_measurement());
    law_choices(domains, body, before, after, n);
    if host.measurement().fits(before) {
        assert forall|name: String| #[trigger] domains(Some(name)) implies name.measurement().fits(
            before,
        ) by {
            assert(body(Some(name)).fits(before));
        }
    }
    if forall|name: String| #[trigger] domains(Some(name)) ==> name.measurement().fits(before) {
        assert forall|name: Option<String>| #[trigger] domains(name) implies body(name).fits(
            before,
        ) by {
            assert(name is Some ==> domains(Some(name->0)));
        }
    }
    if host.measurement().yields(before, after, n) {
        let name = choose|name: Option<String>| #[trigger]
            domains(name) && body(name).yields(before, after, n);
        assert(name is Some ==> domains(Some(name->0)));
    }
    if domains(None) && after == before && n == 0 {
        assert(body(None).yields(before, after, n));
    }
    if exists|name: String| #[trigger]
        domains(Some(name)) && name.measurement().yields(before, after, n) {
        let name = choose|name: String| #[trigger]
            domains(Some(name)) && name.measurement().yields(before, after, n);
        assert(domains(Some(name)) && body(Some(name)).yields(before, after, n));
    }
}

/// What a host with a domain name, or without one, counts as.
pub proof fn law_domain(name: String)
    ensures
        crate::host::domain_measurement()(Some(name)) == name.measurement(),
        crate::host::domain_measurement()(None) == Measurement::nothing(),
{
}

/// A length, a scale and an angle count as their number.
pub proof fn law_one_number<T: MallocSizeOf, U, Src, Dst>(
    length: &Length<T, U>,
    scale: &Scale<T, Src, Dst>,
    angle: &Angle<T>,
)
    ensures
        length.measurement() == length.0.measurement(),
        scale.measurement() == scale.0.measurement(),
        angle.measurement() == angle.radians.measurement(),
{
}

/// A point counts as its two coordinates, each of them once.
pub proof fn law_point<T: MallocSizeOf, U>(
    value: &Point2D<T, U>,
    before: OpsModel,
    after: OpsModel,
    n: nat,
)
    ensures
        value.measurement().fits(before) <==> value.x.measurement().plus(
            value.y.measurement(),
        ).fits(before),
        value.measurement().yields(before, after, n) <==> exists|mid: OpsModel, x: nat, y: nat|
            {
                &&& #[trigger] value.x.measurement().yields(before, mid, x)
                &&& #[trigger] value.y.measurement().yields(mid, after, y)
                &&& n == x + y
            },
{
    law_sum(value.x.measurement(), value.y.measurement(), before, after, n);
}

/// A vector of the plane counts as its two coordinates, each of them once.
pub proof fn law_vector<T: MallocSizeOf, U>(
    value: &Vector2D<T, U>,
    before: OpsModel,
    after: OpsModel,
    n: nat,
)
    ensures
        value.measurement().fits(before) <==> value.x.measurement().plus(
            value.y.measurement(),
        ).fits(before),
        value.measurement().yields(before, after, n) <==> exists|mid: OpsModel, x: nat, y: nat|
            {
                &&& #[trigger] value.x.measurement().yields(before, mid, x)
                &&& #[trigger] value.y.measurement().yields(mid, after, y)
                &&& n == x + y
            },
{
    law_sum(value.x.measurement(), value.y.measurement(), before, after, n);
}

/// A size counts as its width and then its height.
pub proof fn law_size<T: MallocSizeOf, U>(
    value: &Size2D<T, U>,
    before: OpsModel,
    after: OpsModel,
    n: nat,
)
    ensures
        value.measurement().fits(before) <==> value.width.measurement().plus(
            value.height.measurement(),
        ).fits(before),
        value.measurement().yields(before, after, n) <==> exists|mid: OpsModel, x: nat, y: nat|
            {
                &&& #[trigger] value.width.measurement().yields(before, mid, x)
                &&& #[trigger] value.height.measurement().yields(mid, after, y)
                &&& n == x + y
            },
{
    law_sum(value.width.measurement(), value.height.measurement(), before, after, n);
}

/// A rectangle counts as its corner and then its size.
pub proof fn law_rect<T: MallocSizeOf, U>(
    value: &Rect<T, U>,
    before: OpsModel,
    after: OpsModel,
    n: nat,
)
    ensures
        value.measurement().fits(before) <==> value.origin.measurement().plus(
            value.size.measurement(),
        ).fits(before),
        value.measurement().yields(before, after, n) <==> exists|mid: OpsModel, x: nat, y: nat|
            {
                &&& #[trigger] value.origin.measurement().yields(before, mid, x)
                &&& #[trigger] value.size.measurement().yields(mid, after, y)
                &&& n == x + y
            },
{
    law_sum(value.origin.measurement(), value.size.measurement(), before, after, n);
}

/// Side offsets count as the four offsets, each of them once.
pub proof fn law_side_offsets<T: MallocSizeOf, U>(
    value: &SideOffsets2D<T, U>,
    before: OpsModel,
    after: OpsModel,
    n: nat,
)
    ensures
        value.measurement().fits(before) <==> Measurement::nothing().then_all(
            measurements(seq![
                value.top,
                value.right,
                value.bottom,
                value.left,
            ]),
        ).fits(before),
        value.measurement().yields(before, after, n) <==> Measurement::nothing().then_all(
            measurements(seq![
                value.top,
                value.right,
                value.bottom,
                value.left,
            ]),
        ).yields(before, after, n),
{
}

/// A transform of the plane counts as its six elements, each of them once.
pub proof fn law_transform2d<T: MallocSizeOf, Src, Dst>(
    value: &Transform2D<T, Src, Dst>,
    before: OpsModel,
    after: OpsModel,
    n: nat,
)
    ensures
        value.measurement().fits(before) <==> Measurement::nothing().then_all(
            measurements(seq![
                value.m11,
                value.m12,
                value.m21,
                value.m22,
                value.m31,
                value.m32,
            ]),
        ).fits(before),
        value.measurement().yields(before, after, n) <==> Measurement::nothing().then_all(
            measurements(seq![
                value.m11,
                value.m12,
                value.m21,
                value.m22,
                value.m31,
                value.m32,
            ]),
        ).yields(before, after, n),
{
}

/// A transform of space counts as its sixteen elements, each of them once.
pub proof fn law_transform3d<T: MallocSizeOf, Src, Dst>(
    value: &Transform3D<T, Src, Dst>,
    before: OpsModel,
    after: OpsModel,
    n: nat,
)
    ensures
        value.measurement().fits(before) <==> Measurement::nothing().then_all(
            measurements(seq![
                value.m11,
                value.m12,
                value.m13,
                value.m14,
                value.m21,
                value.m22,
                value.m23,
                value.m24,
                value.m31,
                value.m32,
                value.m33,
                value.m34,
                value.m41,
                value.m42,
                value.m43,
                value.m44,
            ]),
        ).fits(before),
        value.measurement().yields(before, after, n) <==> Measurement::nothing().then_all(
            measurements(seq![
                value.m11,
                value.m12,
                value.m13,
                value.m14,
                value.m21,
                value.m22,
                value.m23,
                value.m24,
                value.m31,
                value.m32,
                value.m33,
                value.m34,
                value.m41,
                value.m42,
                value.m43,
                value.m44,
            ]),
        ).yields(before, after, n),
{
}

} // verus!
