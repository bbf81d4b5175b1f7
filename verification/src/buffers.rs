//! Buffers and bit sets of other crates.
use crate::checked::{checked_add_each, checked_sum, checked_then, MallocCheckedSizeOf};
use crate::laws::{law_rest_without_heap, law_rest_without_heap_fits};
use crate::measurement::{
    lemma_over_fits, lemma_over_yields, lemma_then_all_first_fits, Measurement,
};
use crate::ops::{MallocSizeOfOps, Target};
use crate::sequences::slice_block;
use crate::traits::{measurements, MallocShallowSizeOf, MallocSizeOf};
use crate::walk::{add_each, block_at, lies_at, measure_block_at, on_wasm};
use hibitset::BitSet;
use lyon::lyon_tessellation::VertexBuffers;
use serde_bytes::ByteBuf;
use smallbitvec::SmallBitVec;
use smallvec::SmallVec;
use std::mem::size_of;
use vstd::prelude::*;

verus! {

/// A `serde_bytes::ByteBuf`: a vector of bytes.
#[verifier::external_body]
pub struct ByteBuffer {
    /// The buffer.
    pub inner: ByteBuf,
}

/// The bytes that a [`ByteBuffer`] holds.
pub uninterp spec fn bytes_of(buf: ByteBuffer) -> Seq<u8>;

/// The bytes of a buffer: `ByteBuf::deref`, which gives its vector, as a slice.
#[verifier::external_body]
fn byte_buf_as_slice(buf: &ByteBuffer) -> (bytes: &[u8])
    ensures
        bytes@ == bytes_of(*buf),
{
    buf.inner.as_slice()
}

/// The address of the bytes of a buffer: `as_ptr` of the vector that
/// `ByteBuf::deref` gives, as a number.
///
/// It is never null. Where else the bytes lie depends on the machine, and nothing
/// more is said of it.
#[verifier::external_body]
fn byte_buf_address(buf: &ByteBuffer) -> (ptr: usize)
    ensures
        ptr != 0,
{
    buf.inner.as_ptr().addr()
}

/// The addresses that the bytes of `buf` may lie at.
pub closed spec fn byte_buf_addresses(buf: &ByteBuffer) -> spec_fn(usize) -> bool {
    |ptr: usize| call_ensures(byte_buf_address, (buf,), ptr)
}

impl MallocShallowSizeOf for ByteBuffer {
    open spec fn shallow_measurement(&self) -> Measurement {
        block_at(byte_buf_addresses(self))
    }

    fn shallow_size_of(&self, ops: &mut MallocSizeOfOps) -> (n: usize) {
        measure_block_at(byte_buf_address(self), ops, Ghost(byte_buf_addresses(self)))
    }
}

impl MallocSizeOf for ByteBuffer {
    open spec fn measurement(&self) -> Measurement {
        self.shallow_measurement().then_all(measurements(bytes_of(*self)))
    }

    fn size_of(&self, ops: &mut MallocSizeOfOps) -> (n: usize) {
        let ghost origin = ops@;
        let ghost first = self.shallow_measurement();
        proof {
            lemma_then_all_first_fits(first, measurements(bytes_of(*self)), origin);
        }
        let n = self.shallow_size_of(ops);
        add_each(n, byte_buf_as_slice(self), ops, Ghost(first), Ghost(origin))
    }
}

impl MallocCheckedSizeOf for ByteBuffer {
    fn checked_size_of(&self, ops: &mut MallocSizeOfOps) -> (n: Option<usize>) {
        let ghost origin = ops@;
        proof {
            law_rest_without_heap_fits(
                self.shallow_measurement(),
                measurements(bytes_of(*self)),
                origin,
            );
        }
        Some(self.size_of(ops))
    }
}

/// `smallbitvec::SmallBitVec`: bits in one word, or else on the heap.
#[verifier::external_type_specification]
#[verifier::external_body]
pub struct ExSmallBitVec(SmallBitVec);

/// The address of the allocation of a bit vector, if it has one:
/// `SmallBitVec::heap_ptr`.
///
/// Where the allocation lies depends on the machine, and whether there is one
/// depends on how the vector grew. Nothing more is said of either.
#[verifier::external_body]
fn bit_vec_heap_ptr(bits: &SmallBitVec) -> Option<usize> {
    bits.heap_ptr().map(|ptr| ptr.addr())
}

/// The addresses that the allocation of `bits` may lie at, and `None` where
/// there may be none.
pub closed spec fn bit_vec_blocks(bits: &SmallBitVec) -> spec_fn(Option<usize>) -> bool {
    |ptr: Option<usize>| call_ensures(bit_vec_heap_ptr, (bits,), ptr)
}

/// The block at an address, if there is one.
pub open spec fn block_if_any() -> spec_fn(Option<usize>) -> Measurement {
    |ptr: Option<usize>|
        match ptr {
            Some(ptr) => Measurement::block(ptr),
            None => Measurement::nothing(),
        }
}

impl MallocSizeOf for SmallBitVec {
    open spec fn measurement(&self) -> Measurement {
        Measurement::over(bit_vec_blocks(self), block_if_any())
    }

    fn size_of(&self, ops: &mut MallocSizeOfOps) -> (n: usize) {
        let ptr = bit_vec_heap_ptr(self);
        let n = if let Some(ptr) = ptr {
            ops.malloc_size_of(ptr)
        } else {
            0
        };
        proof {
            lemma_over_yields(bit_vec_blocks(self), block_if_any(), ptr, ops@, ops@, n as nat);
        }
        n
    }
}

impl MallocCheckedSizeOf for SmallBitVec {
    fn checked_size_of(&self, ops: &mut MallocSizeOfOps) -> (n: Option<usize>) {
        Some(self.size_of(ops))
    }
}

/// `hibitset::BitSet`: layers of words, each of which sums up the one below.
#[verifier::external_type_specification]
#[verifier::external_body]
pub struct ExBitSet(BitSet);

/// The words of the lowest layer of a [`BitSet`].
pub uninterp spec fn layer0_of(set: BitSet) -> Seq<usize>;

/// The words of the second layer of a [`BitSet`].
pub uninterp spec fn layer1_of(set: BitSet) -> Seq<usize>;

/// The words of the third layer of a [`BitSet`].
pub uninterp spec fn layer2_of(set: BitSet) -> Seq<usize>;

/// The lowest layer: `BitSet::layer0_as_slice`.
#[verifier::external_body]
fn bit_set_layer0(set: &BitSet) -> (words: &[usize])
    ensures
        words@ == layer0_of(*set),
{
    set.layer0_as_slice()
}

/// The second layer: `BitSet::layer1_as_slice`.
#[verifier::external_body]
fn bit_set_layer1(set: &BitSet) -> (words: &[usize])
    ensures
        words@ == layer1_of(*set),
{
    set.layer1_as_slice()
}

/// The third layer: `BitSet::layer2_as_slice`.
#[verifier::external_body]
fn bit_set_layer2(set: &BitSet) -> (words: &[usize])
    ensures
        words@ == layer2_of(*set),
{
    set.layer2_as_slice()
}

/// The addresses that the lowest layer of `set` may lie at.
pub closed spec fn layer0_addresses(set: &BitSet) -> spec_fn(usize) -> bool {
    |ptr: usize|
        exists|words: &[usize]| #[trigger]
            call_ensures(bit_set_layer0, (set,), words) && lies_at(words, ptr)
}

/// The addresses that the second layer of `set` may lie at.
pub closed spec fn layer1_addresses(set: &BitSet) -> spec_fn(usize) -> bool {
    |ptr: usize|
        exists|words: &[usize]| #[trigger]
            call_ensures(bit_set_layer1, (set,), words) && lies_at(words, ptr)
}

/// The addresses that the third layer of `set` may lie at.
pub closed spec fn layer2_addresses(set: &BitSet) -> spec_fn(usize) -> bool {
    |ptr: usize|
        exists|words: &[usize]| #[trigger]
            call_ensures(bit_set_layer2, (set,), words) && lies_at(words, ptr)
}

/// The buffer of a layer, except on WebAssembly.
pub open spec fn layer_buffer(addresses: spec_fn(usize) -> bool) -> Measurement {
    Measurement::when(on_wasm(), Measurement::nothing(), block_at(addresses))
}

/// The buffer of a layer, and then its words, each of which owns nothing.
pub open spec fn layer_measurement(
    addresses: spec_fn(usize) -> bool,
    words: Seq<usize>,
) -> Measurement {
    layer_buffer(addresses).then_all(measurements(words))
}

/// The size of a layer, which lies at one of `addresses`.
fn measure_layer(
    words: &[usize],
    ops: &mut MallocSizeOfOps,
    Ghost(addresses): Ghost<spec_fn(usize) -> bool>,
) -> (n: usize)
    requires
        forall|ptr: usize| #[trigger] lies_at(words, ptr) ==> addresses(ptr),
    ensures
        layer_measurement(addresses, words@).yields(old(ops)@, final(ops)@, n as nat),
        final(ops)@.continues(old(ops)@),
{
    let ghost origin = ops@;
    proof {
        law_rest_without_heap_fits(slice_block(words), measurements(words@), origin);
        law_rest_without_heap(slice_block(words), measurements(words@));
        law_rest_without_heap(layer_buffer(addresses), measurements(words@));
    }
    let n = words.size_of(ops);
    proof {
        assert(slice_block(words).yields(origin, ops@, n as nat));
        if origin.target == Target::Native {
            let ptr = choose|ptr: usize| #[trigger]
                crate::walk::addresses(words)(ptr) && Measurement::block(ptr).yields(
                    origin,
                    ops@,
                    n as nat,
                );
            assert(addresses(ptr));
        }
        assert(layer_buffer(addresses).yields(origin, ops@, n as nat));
    }
    n
}

impl MallocSizeOf for BitSet {
    /// The three layers that are kept on the heap.
    open spec fn measurement(&self) -> Measurement {
        layer_measurement(layer0_addresses(self), layer0_of(*self)).plus(
            layer_measurement(layer1_addresses(self), layer1_of(*self)),
        ).plus(layer_measurement(layer2_addresses(self), layer2_of(*self)))
    }

    fn size_of(&self, ops: &mut MallocSizeOfOps) -> (n: usize) {
        let ghost origin = ops@;
        let ghost m01 = layer_measurement(layer0_addresses(self), layer0_of(*self)).plus(
            layer_measurement(layer1_addresses(self), layer1_of(*self)),
        );
        let n0 = measure_layer(bit_set_layer0(self), ops, Ghost(layer0_addresses(self)));
        let n1 = measure_layer(bit_set_layer1(self), ops, Ghost(layer1_addresses(self)));
        assert(m01.yields(origin, ops@, (n0 + n1) as nat));
        let n2 = measure_layer(bit_set_layer2(self), ops, Ghost(layer2_addresses(self)));
        n0 + n1 + n2
    }
}

impl MallocCheckedSizeOf for BitSet {
    fn checked_size_of(&self, ops: &mut MallocSizeOfOps) -> (n: Option<usize>) {
        let ghost origin = ops@;
        let ghost (m0, m1, m2) = (
            layer_measurement(layer0_addresses(self), layer0_of(*self)),
            layer_measurement(layer1_addresses(self), layer1_of(*self)),
            layer_measurement(layer2_addresses(self), layer2_of(*self)),
        );
        let n0 = measure_layer(bit_set_layer0(self), ops, Ghost(layer0_addresses(self)));
        let ghost second = ops@;
        let n1 = measure_layer(bit_set_layer1(self), ops, Ghost(layer1_addresses(self)));
        let ghost third = ops@;
        let n2 = measure_layer(bit_set_layer2(self), ops, Ghost(layer2_addresses(self)));
        let n01 = checked_sum(
            Some(n0),
            Some(n1),
            Ghost(m0),
            Ghost(m1),
            Ghost(origin),
            Ghost(second),
            Ghost(third),
        );
        checked_sum(
            n01,
            Some(n2),
            Ghost(m0.plus(m1)),
            Ghost(m2),
            Ghost(origin),
            Ghost(third),
            Ghost(ops@),
        )
    }
}

/// `lyon_tessellation::VertexBuffers`, with its public fields: vertices and
/// indices.
#[verifier::external_type_specification]
#[verifier::reject_recursive_types(OutputVertex)]
#[verifier::reject_recursive_types(OutputIndex)]
pub struct ExVertexBuffers<OutputVertex, OutputIndex>(VertexBuffers<OutputVertex, OutputIndex>);

impl<T: MallocSizeOf> MallocSizeOf for VertexBuffers<T, u32> {
    open spec fn measurement(&self) -> Measurement {
        self.vertices.measurement().plus(self.indices.measurement())
    }

    fn size_of(&self, ops: &mut MallocSizeOfOps) -> (n: usize) {
        let vertices = self.vertices.size_of(ops);
        let indices = self.indices.size_of(ops);
        vertices + indices
    }
}

impl<T: MallocCheckedSizeOf> MallocCheckedSizeOf for VertexBuffers<T, u32> {
    fn checked_size_of(&self, ops: &mut MallocSizeOfOps) -> (n: Option<usize>) {
        let ghost origin = ops@;
        let vertices = self.vertices.checked_size_of(ops);
        checked_then(
            vertices,
            &self.indices,
            ops,
            Ghost(self.vertices.measurement()),
            Ghost(origin),
        )
    }
}

impl<T: MallocSizeOf> MallocSizeOf for VertexBuffers<T, u16> {
    open spec fn measurement(&self) -> Measurement {
        self.vertices.measurement().plus(self.indices.measurement())
    }

    fn size_of(&self, ops: &mut MallocSizeOfOps) -> (n: usize) {
        let vertices = self.vertices.size_of(ops);
        let indices = self.indices.size_of(ops);
        vertices + indices
    }
}

impl<T: MallocCheckedSizeOf> MallocCheckedSizeOf for VertexBuffers<T, u16> {
    fn checked_size_of(&self, ops: &mut MallocSizeOfOps) -> (n: Option<usize>) {
        let ghost origin = ops@;
        let vertices = self.vertices.checked_size_of(ops);
        checked_then(
            vertices,
            &self.indices,
            ops,
            Ghost(self.vertices.measurement()),
            Ghost(origin),
        )
    }
}

/// A `smallvec::SmallVec` with room for `N` items before it spills to the heap.
#[verifier::external_body]
#[verifier::reject_recursive_types(T)]
pub struct InlineVec<T, const N: usize> {
    /// The vector.
    pub inner: SmallVec<[T; N]>,
}

/// The items of a vector: `SmallVec::as_slice`.
///
/// Nothing is said of them but that they are what the vector holds.
#[verifier::external_body]
fn inline_vec_as_slice<T, const N: usize>(vec: &InlineVec<T, N>) -> &[T] {
    vec.inner.as_slice()
}

/// The items of `vec` may not have room in the vector.
spec fn overfull<T, const N: usize>(vec: &InlineVec<T, N>) -> bool {
    vstd::layout::size_of::<T>() > 0 && exists|items: &[T]|
        items@.len() > N && #[trigger] call_ensures(inline_vec_as_slice::<T, N>, (vec,), items)
}

/// Whether the items of a vector lie on the heap: `SmallVec::spilled`.
///
/// They do where there are more of them than there is room for in the vector,
/// unless they take up no space. Where there are fewer it depends on how the
/// vector grew, and nothing is said of it.
#[verifier::external_body]
fn inline_vec_spilled<T, const N: usize>(vec: &InlineVec<T, N>) -> (spilled: bool)
    ensures
        overfull(vec) ==> spilled,
{
    vec.inner.spilled()
}

/// The address of the items of a vector: `SmallVec::as_ptr`, as a number.
///
/// It is never null. Where else the items lie depends on the machine, and nothing
/// more is said of it.
#[verifier::external_body]
fn inline_vec_address<T, const N: usize>(vec: &InlineVec<T, N>) -> (ptr: usize)
    ensures
        ptr != 0,
{
    vec.inner.as_ptr().addr()
}

/// The addresses that the items of `vec` may lie at.
pub closed spec fn inline_vec_addresses<T, const N: usize>(
    vec: &InlineVec<T, N>,
) -> spec_fn(usize) -> bool {
    |ptr: usize| call_ensures(inline_vec_address::<T, N>, (vec,), ptr)
}

/// A vector as it may be found: whether it has spilled, and its items.
pub closed spec fn inline_vec_states<T, const N: usize>(
    vec: &InlineVec<T, N>,
) -> spec_fn((bool, Seq<T>)) -> bool {
    |state: (bool, Seq<T>)|
        exists|items: &[T]|
            {
                &&& #[trigger] call_ensures(inline_vec_as_slice::<T, N>, (vec,), items)
                &&& items@ == state.1
                &&& call_ensures(inline_vec_spilled::<T, N>, (vec,), state.0)
            }
}

/// A vector with more than `N` items has spilled, unless they take up no space.
pub proof fn lemma_overfull_spilled<T, const N: usize>(
    vec: &InlineVec<T, N>,
    state: (bool, Seq<T>),
)
    requires
        inline_vec_states(vec)(state),
        state.1.len() > N,
        vstd::layout::size_of::<T>() > 0,
    ensures
        state.0,
{
}

/// The buffer of a vector that has spilled. On WebAssembly it counts as large as
/// the `N` places in the vector.
pub open spec fn spilled_buffer<T, const N: usize>(
    vec: &InlineVec<T, N>,
    spilled: bool,
) -> Measurement {
    if spilled {
        Measurement::when(
            on_wasm(),
            Measurement::always(vstd::layout::size_of::<[T; N]>()),
            block_at(inline_vec_addresses(vec)),
        )
    } else {
        Measurement::nothing()
    }
}

/// The buffer of a vector in a state in which it may be found.
pub open spec fn buffer_in_state<T, const N: usize>(vec: &InlineVec<T, N>) -> spec_fn(
    (bool, Seq<T>),
) -> Measurement {
    |state: (bool, Seq<T>)| spilled_buffer(vec, state.0)
}

/// The buffer of a vector in a state in which it may be found, and then the
/// items.
pub open spec fn buffer_and_items<T: MallocSizeOf, const N: usize>(
    vec: &InlineVec<T, N>,
) -> spec_fn((bool, Seq<T>)) -> Measurement {
    |state: (bool, Seq<T>)| spilled_buffer(vec, state.0).then_all(measurements(state.1))
}

/// The size of the buffer of a vector.
fn measure_spilled<T, const N: usize>(
    vec: &InlineVec<T, N>,
    spilled: bool,
    ops: &MallocSizeOfOps,
) -> (n: usize)
    ensures
        spilled_buffer(vec, spilled).yields(ops@, ops@, n as nat),
{
    if spilled {
        match ops.target() {
            Target::Wasm => size_of::<[T; N]>(),
            Target::Native => measure_block_at(
                inline_vec_address(vec),
                ops,
                Ghost(inline_vec_addresses(vec)),
            ),
        }
    } else {
        0
    }
}

impl<T, const N: usize> MallocShallowSizeOf for InlineVec<T, N> {
    open spec fn shallow_measurement(&self) -> Measurement {
        Measurement::over(inline_vec_states(self), buffer_in_state(self))
    }

    fn shallow_size_of(&self, ops: &mut MallocSizeOfOps) -> (n: usize) {
        let ghost states = inline_vec_states(self);
        let spilled = inline_vec_spilled(self);
        let items = inline_vec_as_slice(self);
        let ghost state = (spilled, items@);
        let n = measure_spilled(self, spilled, ops);
        proof {
            assert(states(state));
            lemma_over_yields(states, buffer_in_state(self), state, ops@, ops@, n as nat);
        }
        n
    }
}

impl<T: MallocSizeOf, const N: usize> MallocSizeOf for InlineVec<T, N> {
    open spec fn measurement(&self) -> Measurement {
        Measurement::over(inline_vec_states(self), buffer_and_items(self))
    }

    fn size_of(&self, ops: &mut MallocSizeOfOps) -> (n: usize) {
        let ghost origin = ops@;
        let ghost states = inline_vec_states(self);
        let ghost body = buffer_and_items(self);
        let spilled = inline_vec_spilled(self);
        let items = inline_vec_as_slice(self);
        let ghost state = (spilled, items@);
        proof {
            assert(states(state));
            lemma_over_fits(states, body, state, origin);
        }
        let n = measure_spilled(self, spilled, ops);
        let n = add_each(
            n,
            items,
            ops,
            Ghost(spilled_buffer(self, spilled)),
            Ghost(origin),
        );
        proof {
            lemma_over_yields(states, body, state, origin, ops@, n as nat);
        }
        n
    }
}

impl<T: MallocCheckedSizeOf, const N: usize> MallocCheckedSizeOf for InlineVec<T, N> {
    fn checked_size_of(&self, ops: &mut MallocSizeOfOps) -> (n: Option<usize>) {
        let ghost origin = ops@;
        let ghost states = inline_vec_states(self);
        let ghost body = buffer_and_items(self);
        let spilled = inline_vec_spilled(self);
        let items = inline_vec_as_slice(self);
        let ghost state = (spilled, items@);
        let n = measure_spilled(self, spilled, ops);
        let n = checked_add_each(
            Some(n),
            items,
            ops,
            Ghost(spilled_buffer(self, spilled)),
            Ghost(origin),
        );
        proof {
            assert(states(state));
            match n {
                Some(n) => lemma_over_yields(states, body, state, origin, ops@, n as nat),
                None => assert(!body(state).fits(origin)),
            }
        }
        n
    }
}

/// What is found of buffers and bit sets is what they say of themselves.
proof fn law_found(buf: &ByteBuffer, bits: &SmallBitVec, set: &BitSet, ptr: usize)
    ensures
        byte_buf_addresses(buf)(ptr) <==> call_ensures(byte_buf_address, (buf,), ptr),
        bit_vec_blocks(bits)(Some(ptr)) <==> call_ensures(bit_vec_heap_ptr, (bits,), Some(ptr)),
        bit_vec_blocks(bits)(None) <==> call_ensures(bit_vec_heap_ptr, (bits,), None),
        layer0_addresses(set)(ptr) <==> exists|words: &[usize]| #[trigger]
            call_ensures(bit_set_layer0, (set,), words) && lies_at(words, ptr),
        layer1_addresses(set)(ptr) <==> exists|words: &[usize]| #[trigger]
            call_ensures(bit_set_layer1, (set,), words) && lies_at(words, ptr),
        layer2_addresses(set)(ptr) <==> exists|words: &[usize]| #[trigger]
            call_ensures(bit_set_layer2, (set,), words) && lies_at(words, ptr),
{
}

/// What is found of a vector with room for some items in itself is what it says of
/// itself: all of its items, and whether they lie on the heap.
proof fn law_inline_vec_found<T, const N: usize>(
    vec: &InlineVec<T, N>,
    ptr: usize,
    spilled: bool,
    items: Seq<T>,
)
    ensures
        inline_vec_addresses(vec)(ptr) <==> call_ensures(inline_vec_address::<T, N>, (vec,), ptr),
        inline_vec_states(vec)((spilled, items)) <==> call_ensures(
            inline_vec_spilled::<T, N>,
            (vec,),
            spilled,
        ) && exists|slice: &[T]| #[trigger]
            call_ensures(inline_vec_as_slice::<T, N>, (vec,), slice) && slice@ == items,
{
}

} // verus!
