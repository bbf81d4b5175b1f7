//! References, boxes, arrays, tuples, and values that may be absent or guarded.
use crate::checked::{checked_add_each, checked_then, MallocCheckedSizeOf};
use crate::measurement::{
    lemma_over_fits, lemma_over_yields, lemma_then_all_first_fits, Measurement,
};
use crate::ops::{MallocSizeOfOps, Target};
use crate::traits::{measurements, MallocShallowSizeOf, MallocSizeOf};
use crate::walk::{add_each, block_of, measure_block_of, on_wasm};
use std::borrow::Cow;
use std::cell::{Cell, Ref, RefCell};
use std::ops::Deref;
use std::sync::{Mutex, MutexGuard};
use vstd::pervasive::unreached;
use vstd::prelude::*;

verus! {

/// Zero makes sense for a non-owning reference.
impl<'a, T: ?Sized> MallocSizeOf for &'a T {
    open spec fn measurement(&self) -> Measurement {
        Measurement::nothing()
    }

    fn size_of(&self, _ops: &mut MallocSizeOfOps) -> (n: usize) {
        0
    }
}

impl<'a, T: ?Sized> MallocCheckedSizeOf for &'a T {
    fn checked_size_of(&self, _ops: &mut MallocSizeOfOps) -> (n: Option<usize>) {
        Some(0)
    }
}

impl<T: ?Sized> MallocShallowSizeOf for Box<T> {
    open spec fn shallow_measurement(&self) -> Measurement {
        Measurement::when(on_wasm(), Measurement::nothing(), block_of(&**self))
    }

    fn shallow_size_of(&self, ops: &mut MallocSizeOfOps) -> (n: usize) {
        match ops.target() {
            Target::Wasm => 0,
            Target::Native => measure_block_of(&**self, ops),
        }
    }
}

impl<T: MallocSizeOf> MallocSizeOf for Box<T> {
    open spec fn measurement(&self) -> Measurement {
        self.shallow_measurement().plus((**self).measurement())
    }

    fn size_of(&self, ops: &mut MallocSizeOfOps) -> (n: usize) {
        let block = self.shallow_size_of(ops);
        let inner = (**self).size_of(ops);
        block + inner
    }
}

impl<T: MallocCheckedSizeOf> MallocCheckedSizeOf for Box<T> {
    fn checked_size_of(&self, ops: &mut MallocSizeOfOps) -> (n: Option<usize>) {
        let ghost origin = ops@;
        let block = self.shallow_size_of(ops);
        checked_then(
            Some(block),
            &**self,
            ops,
            Ghost(self.shallow_measurement()),
            Ghost(origin),
        )
    }
}

impl<T: MallocSizeOf> MallocSizeOf for Box<[T]> {
    /// The block of the box is the block that the slice starts: it counts once.
    open spec fn measurement(&self) -> Measurement {
        self.shallow_measurement().then_all(measurements((**self)@))
    }

    fn size_of(&self, ops: &mut MallocSizeOfOps) -> (n: usize) {
        let ghost origin = ops@;
        let ghost first = self.shallow_measurement();
        proof {
            lemma_then_all_first_fits(first, measurements((**self)@), origin);
        }
        let n = self.shallow_size_of(ops);
        add_each(n, &**self, ops, Ghost(first), Ghost(origin))
    }
}

impl<T: MallocCheckedSizeOf> MallocCheckedSizeOf for Box<[T]> {
    fn checked_size_of(&self, ops: &mut MallocSizeOfOps) -> (n: Option<usize>) {
        let ghost origin = ops@;
        let n = self.shallow_size_of(ops);
        checked_add_each(
            Some(n),
            &**self,
            ops,
            Ghost(self.shallow_measurement()),
            Ghost(origin),
        )
    }
}

impl MallocSizeOf for Box<str> {
    open spec fn measurement(&self) -> Measurement {
        self.shallow_measurement()
    }

    fn size_of(&self, ops: &mut MallocSizeOfOps) -> (n: usize) {
        self.shallow_size_of(ops)
    }
}

impl MallocCheckedSizeOf for Box<str> {
    fn checked_size_of(&self, ops: &mut MallocSizeOfOps) -> (n: Option<usize>) {
        Some(self.shallow_size_of(ops))
    }
}

impl MallocSizeOf for Box<dyn MallocSizeOf> {
    open spec fn measurement(&self) -> Measurement {
        self.shallow_measurement().plus((**self).measurement())
    }

    fn size_of(&self, ops: &mut MallocSizeOfOps) -> (n: usize) {
        let block = self.shallow_size_of(ops);
        let inner = (**self).size_of(ops);
        block + inner
    }
}

impl<T: MallocSizeOf, const N: usize> MallocSizeOf for [T; N] {
    open spec fn measurement(&self) -> Measurement {
        Measurement::nothing().then_all(measurements(self@))
    }

    fn size_of(&self, ops: &mut MallocSizeOfOps) -> (n: usize) {
        let ghost origin = ops@;
        add_each(0, self.as_slice(), ops, Ghost(Measurement::nothing()), Ghost(origin))
    }
}

impl<T: MallocCheckedSizeOf, const N: usize> MallocCheckedSizeOf for [T; N] {
    fn checked_size_of(&self, ops: &mut MallocSizeOfOps) -> (n: Option<usize>) {
        let ghost origin = ops@;
        checked_add_each(
            Some(0),
            self.as_slice(),
            ops,
            Ghost(Measurement::nothing()),
            Ghost(origin),
        )
    }
}

impl MallocSizeOf for () {
    open spec fn measurement(&self) -> Measurement {
        Measurement::nothing()
    }

    fn size_of(&self, _ops: &mut MallocSizeOfOps) -> (n: usize) {
        0
    }
}

impl MallocCheckedSizeOf for () {
    fn checked_size_of(&self, _ops: &mut MallocSizeOfOps) -> (n: Option<usize>) {
        Some(0)
    }
}

impl<T1: MallocSizeOf, T2: MallocSizeOf> MallocSizeOf for (T1, T2) {
    open spec fn measurement(&self) -> Measurement {
        self.0.measurement().plus(self.1.measurement())
    }

    fn size_of(&self, ops: &mut MallocSizeOfOps) -> (n: usize) {
        let n0 = self.0.size_of(ops);
        let n1 = self.1.size_of(ops);
        n0 + n1
    }
}

impl<T1: MallocCheckedSizeOf, T2: MallocCheckedSizeOf> MallocCheckedSizeOf for (T1, T2) {
    fn checked_size_of(&self, ops: &mut MallocSizeOfOps) -> (n: Option<usize>) {
        let ghost origin = ops@;
        let ghost m0 = self.0.measurement();
        let n = self.0.checked_size_of(ops);
        checked_then(n, &self.1, ops, Ghost(m0), Ghost(origin))
    }
}

impl<T1: MallocSizeOf, T2: MallocSizeOf, T3: MallocSizeOf> MallocSizeOf for (T1, T2, T3) {
    open spec fn measurement(&self) -> Measurement {
        self.0.measurement().plus(self.1.measurement()).plus(self.2.measurement())
    }

    fn size_of(&self, ops: &mut MallocSizeOfOps) -> (n: usize) {
        let ghost origin = ops@;
        let ghost m01 = self.0.measurement().plus(self.1.measurement());
        let n0 = self.0.size_of(ops);
        let n1 = self.1.size_of(ops);
        assert(m01.yields(origin, ops@, (n0 + n1) as nat));
        let n2 = self.2.size_of(ops);
        n0 + n1 + n2
    }
}

impl<
    T1: MallocCheckedSizeOf,
    T2: MallocCheckedSizeOf,
    T3: MallocCheckedSizeOf,
> MallocCheckedSizeOf for (T1, T2, T3) {
    fn checked_size_of(&self, ops: &mut MallocSizeOfOps) -> (n: Option<usize>) {
        let ghost origin = ops@;
        let ghost m0 = self.0.measurement();
        let n = self.0.checked_size_of(ops);
        let ghost m1 = m0.plus(self.1.measurement());
        let n = checked_then(n, &self.1, ops, Ghost(m0), Ghost(origin));
        checked_then(n, &self.2, ops, Ghost(m1), Ghost(origin))
    }
}

impl<
    T1: MallocSizeOf,
    T2: MallocSizeOf,
    T3: MallocSizeOf,
    T4: MallocSizeOf,
> MallocSizeOf for (T1, T2, T3, T4) {
    open spec fn measurement(&self) -> Measurement {
        self.0.measurement().plus(self.1.measurement()).plus(self.2.measurement()).plus(
            self.3.measurement(),
        )
    }

    fn size_of(&self, ops: &mut MallocSizeOfOps) -> (n: usize) {
        let ghost origin = ops@;
        let ghost m01 = self.0.measurement().plus(self.1.measurement());
        let ghost m012 = m01.plus(self.2.measurement());
        let n0 = self.0.size_of(ops);
        let n1 = self.1.size_of(ops);
        assert(m01.yields(origin, ops@, (n0 + n1) as nat));
        let n2 = self.2.size_of(ops);
        assert(m012.yields(origin, ops@, (n0 + n1 + n2) as nat));
        let n3 = self.3.size_of(ops);
        n0 + n1 + n2 + n3
    }
}

impl<
    T1: MallocCheckedSizeOf,
    T2: MallocCheckedSizeOf,
    T3: MallocCheckedSizeOf,
    T4: MallocCheckedSizeOf,
> MallocCheckedSizeOf for (T1, T2, T3, T4) {
    fn checked_size_of(&self, ops: &mut MallocSizeOfOps) -> (n: Option<usize>) {
        let ghost origin = ops@;
        let ghost m0 = self.0.measurement();
        let n = self.0.checked_size_of(ops);
        let ghost m1 = m0.plus(self.1.measurement());
        let n = checked_then(n, &self.1, ops, Ghost(m0), Ghost(origin));
        let ghost m2 = m1.plus(self.2.measurement());
        let n = checked_then(n, &self.2, ops, Ghost(m1), Ghost(origin));
        checked_then(n, &self.3, ops, Ghost(m2), Ghost(origin))
    }
}

impl<T: MallocSizeOf> MallocSizeOf for Option<T> {
    open spec fn measurement(&self) -> Measurement {
        match self {
            Some(val) => val.measurement(),
            None => Measurement::nothing(),
        }
    }

    fn size_of(&self, ops: &mut MallocSizeOfOps) -> (n: usize) {
        if let Some(val) = self.as_ref() {
            val.size_of(ops)
        } else {
            0
        }
    }
}

impl<T: MallocCheckedSizeOf> MallocCheckedSizeOf for Option<T> {
    fn checked_size_of(&self, ops: &mut MallocSizeOfOps) -> (n: Option<usize>) {
        if let Some(val) = self.as_ref() {
            val.checked_size_of(ops)
        } else {
            Some(0)
        }
    }
}

impl<T: MallocSizeOf, E: MallocSizeOf> MallocSizeOf for Result<T, E> {
    open spec fn measurement(&self) -> Measurement {
        match self {
            Ok(x) => x.measurement(),
            Err(e) => e.measurement(),
        }
    }

    fn size_of(&self, ops: &mut MallocSizeOfOps) -> (n: usize) {
        match self {
            Ok(x) => x.size_of(ops),
            Err(e) => e.size_of(ops),
        }
    }
}

impl<T: MallocCheckedSizeOf, E: MallocCheckedSizeOf> MallocCheckedSizeOf for Result<T, E> {
    fn checked_size_of(&self, ops: &mut MallocSizeOfOps) -> (n: Option<usize>) {
        match self {
            Ok(x) => x.checked_size_of(ops),
            Err(e) => e.checked_size_of(ops),
        }
    }
}

impl<'a, B: ?Sized + ToOwned> MallocSizeOf for Cow<'a, B> where B::Owned: MallocSizeOf {
    open spec fn measurement(&self) -> Measurement {
        match self {
            Cow::Borrowed(_) => Measurement::nothing(),
            Cow::Owned(b) => b.measurement(),
        }
    }

    fn size_of(&self, ops: &mut MallocSizeOfOps) -> (n: usize) {
        match self {
            Cow::Borrowed(_) => 0,
            Cow::Owned(b) => b.size_of(ops),
        }
    }
}

impl<'a, B: ?Sized + ToOwned> MallocCheckedSizeOf for Cow<'a, B> where
    B::Owned: MallocCheckedSizeOf,
 {
    fn checked_size_of(&self, ops: &mut MallocSizeOfOps) -> (n: Option<usize>) {
        match self {
            Cow::Borrowed(_) => Some(0),
            Cow::Owned(b) => b.checked_size_of(ops),
        }
    }
}

/// `std::cell::Cell`: a value behind it can change while the cell is borrowed.
#[verifier::external_type_specification]
#[verifier::external_body]
#[verifier::reject_recursive_types(T)]
pub struct ExCell<T: ?Sized>(Cell<T>);

/// A copy of the value that a cell holds: `Cell::get`.
///
/// What a cell holds is not a part of the cell as contracts see it, so nothing
/// is said of the copy.
#[verifier::external_body]
fn cell_get<T: Copy>(cell: &Cell<T>) -> T {
    cell.get()
}

/// The values that `cell` may hold.
pub closed spec fn cell_values<T: Copy>(cell: &Cell<T>) -> spec_fn(T) -> bool {
    |value: T| call_ensures(cell_get::<T>, (cell,), value)
}

pub open spec fn measurement_of<T: MallocSizeOf>() -> spec_fn(T) -> Measurement {
    |value: T| value.measurement()
}

impl<T: MallocSizeOf + Copy> MallocSizeOf for Cell<T> {
    open spec fn measurement(&self) -> Measurement {
        Measurement::over(cell_values(self), measurement_of())
    }

    fn size_of(&self, ops: &mut MallocSizeOfOps) -> (n: usize) {
        let ghost origin = ops@;
        let value = cell_get(self);
        proof {
            lemma_over_fits(cell_values(self), measurement_of(), value, origin);
        }
        let n = value.size_of(ops);
        proof {
            lemma_over_yields(cell_values(self), measurement_of(), value, origin, ops@, n as nat);
        }
        n
    }
}

impl<T: MallocCheckedSizeOf + Copy> MallocCheckedSizeOf for Cell<T> {
    fn checked_size_of(&self, ops: &mut MallocSizeOfOps) -> (n: Option<usize>) {
        let ghost origin = ops@;
        let value = cell_get(self);
        let n = value.checked_size_of(ops);
        proof {
            let (values, body) = (cell_values(self), measurement_of::<T>());
            match n {
                Some(n) => lemma_over_yields(values, body, value, origin, ops@, n as nat),
                None => assert(values(value) && !body(value).fits(origin)),
            }
        }
        n
    }
}

/// `std::cell::RefCell`: a value behind it can change while the cell is
/// borrowed.
#[verifier::external_type_specification]
#[verifier::external_body]
#[verifier::reject_recursive_types(T)]
pub struct ExRefCell<T: ?Sized>(RefCell<T>);

/// `std::cell::Ref`: keeps the value of a `RefCell` borrowed.
#[verifier::external_type_specification]
#[verifier::external_body]
#[verifier::reject_recursive_types(T)]
pub struct ExRef<'b, T: ?Sized>(Ref<'b, T>);

/// Borrows the value of a cell: `RefCell::try_borrow`, with `None` for its
/// error.
///
/// What the cell holds, and whether it is mutably borrowed, is not a part of
/// the cell as contracts see it, so nothing is said of the outcome.
#[verifier::external_body]
fn ref_cell_borrow<T>(cell: &RefCell<T>) -> Option<Ref<'_, T>> {
    cell.try_borrow().ok()
}

/// The value that a `Ref` keeps borrowed: its `Deref::deref`.
#[verifier::external_body]
fn borrowed_value<'a, T>(guard: &'a Ref<'_, T>) -> &'a T {
    guard.deref()
}

/// The values that `cell` may hold, and `None` where it may be mutably
/// borrowed.
pub closed spec fn ref_cell_values<T>(cell: &RefCell<T>) -> spec_fn(Option<T>) -> bool {
    |value: Option<T>|
        exists|guard: Option<Ref<T>>|
            {
                &&& #[trigger] call_ensures(ref_cell_borrow::<T>, (cell,), guard)
                &&& match guard {
                    Some(guard) => value is Some && call_ensures(
                        borrowed_value::<T>,
                        (&guard,),
                        &value->0,
                    ),
                    None => value is None,
                }
            }
}

/// The measurement of a value that could be reached.
pub open spec fn measurement_if_reached<T: MallocSizeOf>() -> spec_fn(Option<T>) -> Measurement {
    |value: Option<T>|
        match value {
            Some(value) => value.measurement(),
            None => Measurement::impossible(),
        }
}

/// The value must not be mutably borrowed.
impl<T: MallocSizeOf> MallocSizeOf for RefCell<T> {
    open spec fn measurement(&self) -> Measurement {
        Measurement::over(ref_cell_values(self), measurement_if_reached())
    }

    fn size_of(&self, ops: &mut MallocSizeOfOps) -> (n: usize) {
        let ghost origin = ops@;
        let ghost values = ref_cell_values(self);
        let guard = ref_cell_borrow(self);
        match &guard {
            Some(guard) => {
                let value = borrowed_value(guard);
                proof {
                    assert(values(Some(*value)));
                    lemma_over_fits(values, measurement_if_reached(), Some(*value), origin);
                }
                let n = value.size_of(ops);
                proof {
                    lemma_over_yields(
                        values,
                        measurement_if_reached(),
                        Some(*value),
                        origin,
                        ops@,
                        n as nat,
                    );
                }
                n
            },
            None => {
                proof {
                    assert(values(None));
                    lemma_over_fits(values, measurement_if_reached(), None, origin);
                }
                unreached()
            },
        }
    }
}

impl<T: MallocCheckedSizeOf> MallocCheckedSizeOf for RefCell<T> {
    fn checked_size_of(&self, ops: &mut MallocSizeOfOps) -> (n: Option<usize>) {
        let ghost origin = ops@;
        let ghost values = ref_cell_values(self);
        let guard = ref_cell_borrow(self);
        match &guard {
            Some(guard) => {
                let value = borrowed_value(guard);
                assert(values(Some(*value)));
                let n = value.checked_size_of(ops);
                proof {
                    let body = measurement_if_reached::<T>();
                    match n {
                        Some(n) => lemma_over_yields(
                            values,
                            body,
                            Some(*value),
                            origin,
                            ops@,
                            n as nat,
                        ),
                        None => assert(!body(Some(*value)).fits(origin)),
                    }
                }
                n
            },
            None => {
                assert(values(None));
                assert(!measurement_if_reached::<T>()(None).fits(origin));
                None
            },
        }
    }
}

/// `std::sync::Mutex`: the value behind it can change while it is borrowed.
#[verifier::external_type_specification]
#[verifier::external_body]
#[verifier::reject_recursive_types(T)]
pub struct ExMutex<T: ?Sized>(Mutex<T>);

/// `std::sync::MutexGuard`: keeps a mutex locked.
#[verifier::external_type_specification]
#[verifier::external_body]
#[verifier::reject_recursive_types(T)]
pub struct ExMutexGuard<'a, T: ?Sized + 'a>(MutexGuard<'a, T>);

/// Locks a mutex: `Mutex::try_lock`, with `None` where the mutex is poisoned or
/// held already.
///
/// Who holds the lock, and whether the mutex is poisoned, is not a part of the
/// mutex as contracts see it, so nothing is said of the outcome.
#[verifier::external_body]
fn mutex_try_lock<T>(mutex: &Mutex<T>) -> Option<MutexGuard<'_, T>> {
    mutex.try_lock().ok()
}

/// The value that a locked mutex guards: the `Deref::deref` of `MutexGuard`.
#[verifier::external_body]
fn locked_value<'a, T>(guard: &'a MutexGuard<'_, T>) -> &'a T {
    guard.deref()
}

/// The values that `mutex` may guard, and `None` where it may be poisoned or held
/// already.
pub closed spec fn mutex_values<T>(mutex: &Mutex<T>) -> spec_fn(Option<T>) -> bool {
    |value: Option<T>|
        exists|guard: Option<MutexGuard<T>>|
            {
                &&& #[trigger] call_ensures(mutex_try_lock::<T>, (mutex,), guard)
                &&& match guard {
                    Some(guard) => value is Some && call_ensures(
                        locked_value::<T>,
                        (&guard,),
                        &value->0,
                    ),
                    None => value is None,
                }
            }
}

/// If a mutex is stored directly as a member of a data type that is being
/// measured, it is the unique owner of its contents and deserves to be
/// measured.
///
/// If a mutex is stored inside of an `Arc` value as a member of a data type
/// that is being measured, the `Arc` will not be automatically measured so there
/// is no risk of overcounting the mutex's contents.
///
/// The mutex must be neither poisoned nor held.
impl<T: MallocSizeOf> MallocSizeOf for Mutex<T> {
    open spec fn measurement(&self) -> Measurement {
        Measurement::over(mutex_values(self), measurement_if_reached())
    }

    fn size_of(&self, ops: &mut MallocSizeOfOps) -> (n: usize) {
        let ghost origin = ops@;
        let ghost values = mutex_values(self);
        let guard = mutex_try_lock(self);
        match &guard {
            Some(guard) => {
                let value = locked_value(guard);
                proof {
                    assert(values(Some(*value)));
                    lemma_over_fits(values, measurement_if_reached(), Some(*value), origin);
                }
                let n = value.size_of(ops);
                proof {
                    lemma_over_yields(
                        values,
                        measurement_if_reached(),
                        Some(*value),
                        origin,
                        ops@,
                        n as nat,
                    );
                }
                n
            },
            None => {
                proof {
                    assert(values(None));
                    lemma_over_fits(values, measurement_if_reached(), None, origin);
                }
                unreached()
            },
        }
    }
}

impl<T: MallocCheckedSizeOf> MallocCheckedSizeOf for Mutex<T> {
    fn checked_size_of(&self, ops: &mut MallocSizeOfOps) -> (n: Option<usize>) {
        let ghost origin = ops@;
        let ghost values = mutex_values(self);
        let guard = mutex_try_lock(self);
        match &guard {
            Some(guard) => {
                let value = locked_value(guard);
                assert(values(Some(*value)));
                let n = value.checked_size_of(ops);
                proof {
                    let body = measurement_if_reached::<T>();
                    match n {
                        Some(n) => lemma_over_yields(
                            values,
                            body,
                            Some(*value),
                            origin,
                            ops@,
                            n as nat,
                        ),
                        None => assert(!body(Some(*value)).fits(origin)),
                    }
                }
                n
            },
            None => {
                assert(values(None));
                assert(!measurement_if_reached::<T>()(None).fits(origin));
                None
            },
        }
    }
}

/// What is found in cells and mutexes is what they say that they hold.
proof fn law_found<T: Copy, U>(
    cell: &Cell<T>,
    ref_cell: &RefCell<U>,
    mutex: &Mutex<U>,
    copy: T,
    value: U,
)
    ensures
        cell_values(cell)(copy) <==> call_ensures(cell_get::<T>, (cell,), copy),
        ref_cell_values(ref_cell)(None) <==> call_ensures(
            ref_cell_borrow::<U>,
            (ref_cell,),
            None,
        ),
        ref_cell_values(ref_cell)(Some(value)) <==> exists|guard: Ref<U>|
            {
                &&& #[trigger] call_ensures(ref_cell_borrow::<U>, (ref_cell,), Some(guard))
                &&& call_ensures(borrowed_value::<U>, (&guard,), &value)
            },
        mutex_values(mutex)(None) <==> call_ensures(mutex_try_lock::<U>, (mutex,), None),
        mutex_values(mutex)(Some(value)) <==> exists|guard: MutexGuard<U>|
            {
                &&& #[trigger] call_ensures(mutex_try_lock::<U>, (mutex,), Some(guard))
                &&& call_ensures(locked_value::<U>, (&guard,), &value)
            },
{
}

} // verus!
