//! Strings, slices, vectors and deques.
use crate::checked::{
    checked_add_each, checked_estimate, checked_step, MallocCheckedShallowSizeOf,
    MallocCheckedSizeOf,
};
use crate::measurement::{
    lemma_then_all_first_fits, lemma_then_all_prefix_fits, lemma_then_all_step, Measurement,
};
use crate::ops::{MallocSizeOfOps, OpsModel, Target};
use crate::traits::{measurements, MallocShallowSizeOf, MallocSizeOf};
use crate::walk::{
    add_each, block_around, block_at, block_of, checked_block_around, estimate,
    interior_pointers, measure_block_around, measure_block_at, measure_block_of,
    measure_estimate, on_wasm,
};
use std::collections::VecDeque;
use std::mem::size_of;
use vstd::prelude::*;
use vstd::utf8::encode_utf8;

verus! {

/// The address of the bytes of a string: `String::as_ptr`, as a number.
///
/// It is never null. Where else the bytes lie depends on the machine, and nothing
/// more is said of it.
#[verifier::external_body]
fn string_address(string: &String) -> (ptr: usize)
    ensures
        ptr != 0,
{
    string.as_ptr().addr()
}

/// The addresses that the bytes of `string` may lie at.
pub closed spec fn string_addresses(string: &String) -> spec_fn(usize) -> bool {
    |ptr: usize| call_ensures(string_address, (string,), ptr)
}

impl MallocSizeOf for String {
    open spec fn measurement(&self) -> Measurement {
        Measurement::when(
            on_wasm(),
            Measurement::exactly(encode_utf8(self@).len() * 8),
            block_at(string_addresses(self)),
        )
    }

    fn size_of(&self, ops: &mut MallocSizeOfOps) -> (n: usize) {
        match ops.target() {
            Target::Wasm => self.as_str().as_bytes().len() * 8,
            Target::Native => measure_block_at(
                string_address(self),
                ops,
                Ghost(string_addresses(self)),
            ),
        }
    }
}

impl MallocCheckedSizeOf for String {
    fn checked_size_of(&self, ops: &mut MallocSizeOfOps) -> (n: Option<usize>) {
        match ops.target() {
            Target::Wasm => self.as_str().as_bytes().len().checked_mul(8),
            Target::Native => Some(self.size_of(ops)),
        }
    }
}

/// The block that a slice starts, except on WebAssembly.
pub open spec fn slice_block<T>(slice: &[T]) -> Measurement {
    Measurement::when(on_wasm(), Measurement::nothing(), block_of(slice))
}

/// The size of the block that a slice starts, except on WebAssembly.
pub(crate) fn measure_slice_block<T>(slice: &[T], ops: &MallocSizeOfOps) -> (n: usize)
    ensures
        slice_block(slice).yields(ops@, ops@, n as nat),
{
    match ops.target() {
        Target::Wasm => 0,
        Target::Native => measure_block_of(slice, ops),
    }
}

impl<T: MallocSizeOf> MallocSizeOf for [T] {
    open spec fn measurement(&self) -> Measurement {
        slice_block(self).then_all(measurements(self@))
    }

    fn size_of(&self, ops: &mut MallocSizeOfOps) -> (n: usize) {
        let ghost origin = ops@;
        let n = measure_slice_block(self, ops);
        add_each(n, self, ops, Ghost(slice_block(self)), Ghost(origin))
    }
}

impl<T: MallocCheckedSizeOf> MallocCheckedSizeOf for [T] {
    fn checked_size_of(&self, ops: &mut MallocSizeOfOps) -> (n: Option<usize>) {
        let ghost origin = ops@;
        let n = measure_slice_block(self, ops);
        checked_add_each(Some(n), self, ops, Ghost(slice_block(self)), Ghost(origin))
    }
}

/// The address of the elements of a vector: `Vec::as_ptr`, as a number.
///
/// It is never null. Where else the elements lie depends on the machine, and
/// nothing more is said of it.
#[verifier::external_body]
fn vec_address<T>(vec: &Vec<T>) -> (ptr: usize)
    ensures
        ptr != 0,
{
    vec.as_ptr().addr()
}

/// The addresses that the elements of `vec` may lie at.
pub closed spec fn vec_addresses<T>(vec: &Vec<T>) -> spec_fn(usize) -> bool {
    |ptr: usize| call_ensures(vec_address::<T>, (vec,), ptr)
}

/// The capacity of a vector: `Vec::capacity`.
///
/// A vector can hold the elements that it holds, and its capacity is of
/// `isize::MAX` bytes at the most. How many more elements fit without a new
/// allocation is the allocator's choice, and nothing more is said of it.
#[verifier::external_body]
fn vec_capacity<T>(vec: &Vec<T>) -> (count: usize)
    ensures
        count >= vec@.len(),
        count * vstd::layout::size_of::<T>() <= isize::MAX,
{
    vec.capacity()
}

/// The capacities that `vec` may have.
pub closed spec fn vec_capacities<T>(vec: &Vec<T>) -> spec_fn(usize) -> bool {
    |count: usize| call_ensures(vec_capacity::<T>, (vec,), count)
}

impl<T> MallocShallowSizeOf for Vec<T> {
    open spec fn shallow_measurement(&self) -> Measurement {
        Measurement::when(
            on_wasm(),
            estimate(vec_capacities(self), vstd::layout::size_of::<T>()),
            block_at(vec_addresses(self)),
        )
    }

    fn shallow_size_of(&self, ops: &mut MallocSizeOfOps) -> (n: usize) {
        match ops.target() {
            Target::Wasm => {
                let count = vec_capacity(self);
                measure_estimate(count, size_of::<T>(), ops, Ghost(vec_capacities(self)))
            },
            Target::Native => measure_block_at(vec_address(self), ops, Ghost(vec_addresses(self))),
        }
    }
}

/// The buffer of a vector can always be measured, and has no more bytes than a
/// `usize` can hold.
pub proof fn lemma_vec_shallow_fits<T>(vec: &Vec<T>, ops: OpsModel)
    ensures
        vec.shallow_measurement().fits(ops),
        forall|after: OpsModel, n: nat| #[trigger]
            vec.shallow_measurement().yields(ops, after, n) ==> n <= usize::MAX,
{
}

impl<T: MallocSizeOf> MallocSizeOf for Vec<T> {
    open spec fn measurement(&self) -> Measurement {
        self.shallow_measurement().then_all(measurements(self@))
    }

    fn size_of(&self, ops: &mut MallocSizeOfOps) -> (n: usize) {
        let ghost origin = ops@;
        let ghost first = self.shallow_measurement();
        proof {
            lemma_then_all_first_fits(first, measurements(self@), origin);
        }
        let n = self.shallow_size_of(ops);
        add_each(n, self.as_slice(), ops, Ghost(first), Ghost(origin))
    }
}

impl<T: MallocCheckedSizeOf> MallocCheckedSizeOf for Vec<T> {
    fn checked_size_of(&self, ops: &mut MallocSizeOfOps) -> (n: Option<usize>) {
        let ghost origin = ops@;
        let ghost first = self.shallow_measurement();
        proof {
            lemma_vec_shallow_fits(self, origin);
        }
        let n = self.shallow_size_of(ops);
        checked_add_each(Some(n), self.as_slice(), ops, Ghost(first), Ghost(origin))
    }
}

/// The capacity of a deque: `VecDeque::capacity`.
///
/// A deque can hold the elements that it holds. It keeps them in one ring buffer,
/// and no allocation is of more than `isize::MAX` bytes. How many more elements
/// fit without a new one is the allocator's choice, and nothing more is said of
/// it.
#[verifier::external_body]
fn deque_capacity<T>(deque: &VecDeque<T>) -> (count: usize)
    ensures
        count >= deque@.len(),
        count * vstd::layout::size_of::<T>() <= isize::MAX,
{
    deque.capacity()
}

/// The capacities that `deque` may have.
pub closed spec fn deque_capacities<T>(deque: &VecDeque<T>) -> spec_fn(usize) -> bool {
    |count: usize| call_ensures(deque_capacity::<T>, (deque,), count)
}

impl<T> MallocShallowSizeOf for VecDeque<T> {
    /// The front element is an interior pointer. No memory is assumed to be
    /// allocated while the deque is empty, and none is needed for elements that
    /// take up no space.
    open spec fn shallow_measurement(&self) -> Measurement {
        Measurement::when(
            interior_pointers(),
            if self@.len() > 0 && vstd::layout::size_of::<T>() > 0 {
                block_around(&self@[0])
            } else {
                Measurement::nothing()
            },
            estimate(deque_capacities(self), vstd::layout::size_of::<T>()),
        )
    }

    fn shallow_size_of(&self, ops: &mut MallocSizeOfOps) -> (n: usize) {
        if ops.has_malloc_enclosing_size_of() {
            if self.len() > 0 && size_of::<T>() > 0 {
                measure_block_around(&self[0], ops)
            } else {
                0
            }
        } else {
            let count = deque_capacity(self);
            measure_estimate(count, size_of::<T>(), ops, Ghost(deque_capacities(self)))
        }
    }
}

/// The buffer of a deque can be measured where no operation on interior pointers
/// is available, or where none is needed, and has no more bytes than a `usize` can
/// hold.
pub proof fn lemma_deque_shallow_fits<T>(deque: &VecDeque<T>, ops: OpsModel)
    ensures
        ops.enclosing_size is None || deque@.len() == 0 || vstd::layout::size_of::<T>() == 0
            ==> deque.shallow_measurement().fits(ops),
        forall|after: OpsModel, n: nat| #[trigger]
            deque.shallow_measurement().yields(ops, after, n) ==> n <= usize::MAX,
{
}

impl<T> MallocCheckedShallowSizeOf for VecDeque<T> {
    fn checked_shallow_size_of(&self, ops: &mut MallocSizeOfOps) -> (n: Option<usize>) {
        if ops.has_malloc_enclosing_size_of() {
            if self.len() > 0 && size_of::<T>() > 0 {
                checked_block_around(&self[0], ops)
            } else {
                Some(0)
            }
        } else {
            let count = deque_capacity(self);
            checked_estimate(count, size_of::<T>(), ops, Ghost(deque_capacities(self)))
        }
    }
}

impl<T: MallocSizeOf> MallocSizeOf for VecDeque<T> {
    open spec fn measurement(&self) -> Measurement {
        self.shallow_measurement().then_all(measurements(self@))
    }

    fn size_of(&self, ops: &mut MallocSizeOfOps) -> (n: usize) {
        let ghost origin = ops@;
        let ghost first = self.shallow_measurement();
        let ghost rest = measurements(self@);
        proof {
            lemma_then_all_first_fits(first, rest, origin);
        }
        let mut n = self.shallow_size_of(ops);
        assert(rest.take(0) =~= Seq::<Measurement>::empty());
        for i in 0..self.len()
            invariant
                rest == measurements(self@),
                ops@.continues(old(ops)@),
                first.then_all(rest).fits(origin),
                first.then_all(rest.take(i as int)).yields(origin, ops@, n as nat),
        {
            proof {
                lemma_then_all_prefix_fits(first, rest, i + 1, origin);
                lemma_then_all_step(first, rest, i as int);
            }
            let size = self[i].size_of(ops);
            n = n + size;
        }
        assert(rest.take(self@.len() as int) =~= rest);
        n
    }
}

impl<T: MallocCheckedSizeOf> MallocCheckedSizeOf for VecDeque<T> {
    fn checked_size_of(&self, ops: &mut MallocSizeOfOps) -> (n: Option<usize>) {
        let ghost origin = ops@;
        let ghost first = self.shallow_measurement();
        let ghost rest = measurements(self@);
        let mut n: usize = match self.checked_shallow_size_of(ops) {
            Some(n) => n,
            None => {
                proof {
                    if first.then_all(rest).fits(origin) {
                        lemma_then_all_first_fits(first, rest, origin);
                    }
                }
                return None;
            },
        };
        assert(rest.take(0) =~= Seq::<Measurement>::empty());
        for i in 0..self.len()
            invariant
                origin == old(ops)@,
                ops@.continues(origin),
                rest == measurements(self@),
                first == self.shallow_measurement(),
                first.then_all(rest.take(i as int)).yields(origin, ops@, n as nat),
        {
            let ghost before = ops@;
            let size = self[i].checked_size_of(ops);
            match checked_step(
                n,
                size,
                Ghost(first),
                Ghost(rest),
                Ghost(i as int),
                Ghost(origin),
                Ghost(before),
                Ghost(ops@),
            ) {
                Some(sum) => {
                    n = sum;
                },
                None => return None,
            }
        }
        assert(rest.take(self@.len() as int) =~= rest);
        Some(n)
    }
}

/// What is found of a string, a vector and a deque is what they say of themselves.
proof fn law_found<T>(
    string: &String,
    vec: &Vec<T>,
    deque: &VecDeque<T>,
    ptr: usize,
    count: usize,
)
    ensures
        string_addresses(string)(ptr) <==> call_ensures(string_address, (string,), ptr),
        vec_addresses(vec)(ptr) <==> call_ensures(vec_address::<T>, (vec,), ptr),
        vec_capacities(vec)(count) <==> call_ensures(vec_capacity::<T>, (vec,), count),
        deque_capacities(deque)(count) <==> call_ensures(deque_capacity::<T>, (deque,), count),
{
}

/// A vector and a deque have room for the elements that they hold, and for no more than
/// `isize::MAX` bytes. What they hold lies somewhere.
pub proof fn law_room<T>(
    string: &String,
    vec: &Vec<T>,
    deque: &VecDeque<T>,
    ptr: usize,
    count: usize,
)
    ensures
        string_addresses(string)(ptr) ==> ptr != 0,
        vec_addresses(vec)(ptr) ==> ptr != 0,
        vec_capacities(vec)(count) ==> vec@.len() <= count && count * vstd::layout::size_of::<T>()
            <= isize::MAX,
        deque_capacities(deque)(count) ==> deque@.len() <= count && count
            * vstd::layout::size_of::<T>() <= isize::MAX,
{
}

} // verus!
