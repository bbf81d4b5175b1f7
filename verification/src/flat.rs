//! Types of other crates that count as owning nothing.
use crate::checked::MallocCheckedSizeOf;
use crate::measurement::Measurement;
use crate::ops::MallocSizeOfOps;
use crate::traits::MallocSizeOf;
use arrayvec::ArrayString;
use beach_map::{BeachMap, ID};
use specs::prelude::{ComponentEvent, Entity, ReaderId};
use string_cache::Atom;
use time::{Duration, Tm};
use void::Void;
use vstd::prelude::*;

verus! {

/// `void::Void`: a type without values.
#[verifier::external_type_specification]
#[verifier::external_body]
pub struct ExVoid(Void);

/// What follows from a value that cannot exist: `void::unreachable`.
///
/// There is no value to call it with, so it never returns, and what is said of
/// the result holds.
#[verifier::external_body]
fn void_unreachable(value: &Void) -> (n: usize)
    ensures
        n == 0,
{
    void::unreachable(*value)
}

impl MallocSizeOf for Void {
    open spec fn measurement(&self) -> Measurement {
        Measurement::nothing()
    }

    fn size_of(&self, _ops: &mut MallocSizeOfOps) -> (n: usize) {
        void_unreachable(self)
    }
}

impl MallocCheckedSizeOf for Void {
    fn checked_size_of(&self, ops: &mut MallocSizeOfOps) -> (n: Option<usize>) {
        Some(self.size_of(ops))
    }
}

/// `string_cache::Atom`: an interned string.
#[verifier::external_type_specification]
#[verifier::external_body]
#[verifier::reject_recursive_types(Static)]
pub struct ExAtom<Static>(Atom<Static>);

/// The strings belong to the set of atoms, not to an atom.
impl<Static> MallocSizeOf for Atom<Static> {
    open spec fn measurement(&self) -> Measurement {
        Measurement::nothing()
    }

    fn size_of(&self, _ops: &mut MallocSizeOfOps) -> (n: usize) {
        0
    }
}

impl<Static> MallocCheckedSizeOf for Atom<Static> {
    fn checked_size_of(&self, _ops: &mut MallocSizeOfOps) -> (n: Option<usize>) {
        Some(0)
    }
}

/// `time::Duration`: a span of time.
#[verifier::external_type_specification]
#[verifier::external_body]
pub struct ExDuration(Duration);

impl MallocSizeOf for Duration {
    open spec fn measurement(&self) -> Measurement {
        Measurement::nothing()
    }

    fn size_of(&self, _ops: &mut MallocSizeOfOps) -> (n: usize) {
        0
    }
}

impl MallocCheckedSizeOf for Duration {
    fn checked_size_of(&self, _ops: &mut MallocSizeOfOps) -> (n: Option<usize>) {
        Some(0)
    }
}

/// `time::Tm`: a broken-down point in time.
#[verifier::external_type_specification]
#[verifier::external_body]
pub struct ExTm(Tm);

impl MallocSizeOf for Tm {
    open spec fn measurement(&self) -> Measurement {
        Measurement::nothing()
    }

    fn size_of(&self, _ops: &mut MallocSizeOfOps) -> (n: usize) {
        0
    }
}

impl MallocCheckedSizeOf for Tm {
    fn checked_size_of(&self, _ops: &mut MallocSizeOfOps) -> (n: Option<usize>) {
        Some(0)
    }
}

/// `specs::Entity`: an index and a generation.
#[verifier::external_type_specification]
#[verifier::external_body]
pub struct ExEntity(Entity);

impl MallocSizeOf for Entity {
    open spec fn measurement(&self) -> Measurement {
        Measurement::nothing()
    }

    fn size_of(&self, _ops: &mut MallocSizeOfOps) -> (n: usize) {
        0
    }
}

impl MallocCheckedSizeOf for Entity {
    fn checked_size_of(&self, _ops: &mut MallocSizeOfOps) -> (n: Option<usize>) {
        Some(0)
    }
}

/// `specs::storage::ComponentEvent`: what happened to the component of an index.
#[verifier::external_type_specification]
#[verifier::external_body]
pub struct ExComponentEvent(ComponentEvent);

impl MallocSizeOf for ComponentEvent {
    open spec fn measurement(&self) -> Measurement {
        Measurement::nothing()
    }

    fn size_of(&self, _ops: &mut MallocSizeOfOps) -> (n: usize) {
        0
    }
}

impl MallocCheckedSizeOf for ComponentEvent {
    fn checked_size_of(&self, _ops: &mut MallocSizeOfOps) -> (n: Option<usize>) {
        Some(0)
    }
}

/// `shrev::ReaderId`: a reader of an event channel.
#[verifier::external_type_specification]
#[verifier::external_body]
#[verifier::reject_recursive_types(T)]
pub struct ExReaderId<T: 'static>(ReaderId<T>);

impl<T: MallocSizeOf + 'static> MallocSizeOf for ReaderId<T> {
    /// The index of a reader is a part of the reader itself, and the channel that
    /// it shares with others is not its own.
    open spec fn measurement(&self) -> Measurement {
        Measurement::nothing()
    }

    fn size_of(&self, _ops: &mut MallocSizeOfOps) -> (n: usize) {
        0
    }
}

impl<T: MallocSizeOf + 'static> MallocCheckedSizeOf for ReaderId<T> {
    fn checked_size_of(&self, _ops: &mut MallocSizeOfOps) -> (n: Option<usize>) {
        Some(0)
    }
}

/// `beach_map::BeachMap`: a slot map.
#[verifier::external_type_specification]
#[verifier::external_body]
#[verifier::reject_recursive_types(V)]
#[verifier::reject_recursive_types(T)]
pub struct ExBeachMap<V, T>(BeachMap<V, T>);

/// The items of a slot map are not counted.
impl<V: MallocSizeOf, T: MallocSizeOf> MallocSizeOf for BeachMap<V, T> {
    open spec fn measurement(&self) -> Measurement {
        Measurement::nothing()
    }

    fn size_of(&self, _ops: &mut MallocSizeOfOps) -> (n: usize) {
        0
    }
}

impl<V: MallocSizeOf, T: MallocSizeOf> MallocCheckedSizeOf for BeachMap<V, T> {
    fn checked_size_of(&self, _ops: &mut MallocSizeOfOps) -> (n: Option<usize>) {
        Some(0)
    }
}

/// `beach_map::ID`: an index and a version.
#[verifier::external_type_specification]
#[verifier::external_body]
#[verifier::reject_recursive_types(V)]
pub struct ExID<V>(ID<V>);

impl<V: MallocSizeOf> MallocSizeOf for ID<V> {
    open spec fn measurement(&self) -> Measurement {
        Measurement::nothing()
    }

    fn size_of(&self, _ops: &mut MallocSizeOfOps) -> (n: usize) {
        0
    }
}

impl<V: MallocSizeOf> MallocCheckedSizeOf for ID<V> {
    fn checked_size_of(&self, _ops: &mut MallocSizeOfOps) -> (n: Option<usize>) {
        Some(0)
    }
}

/// `arrayvec::ArrayString`: a string in an array of `CAP` bytes.
#[verifier::external_type_specification]
#[verifier::external_body]
pub struct ExArrayString<const CAP: usize>(ArrayString<CAP>);

impl<const CAP: usize> MallocSizeOf for ArrayString<CAP> {
    /// The array is a part of the string itself.
    open spec fn measurement(&self) -> Measurement {
        Measurement::nothing()
    }

    fn size_of(&self, _ops: &mut MallocSizeOfOps) -> (n: usize) {
        0
    }
}

impl<const CAP: usize> MallocCheckedSizeOf for ArrayString<CAP> {
    fn checked_size_of(&self, _ops: &mut MallocSizeOfOps) -> (n: Option<usize>) {
        Some(0)
    }
}

} // verus!
