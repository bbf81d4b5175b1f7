//! The traits of values that can be measured.
use crate::measurement::Measurement;
use crate::ops::MallocSizeOfOps;
use std::ops::{Deref, DerefMut};
use vstd::prelude::*;

verus! {

/// Trait for measuring the "deep" heap usage of a data structure. This is the
/// most commonly-used of the traits.
pub trait MallocSizeOf {
    /// What measuring this value may return: no bytes, unless said otherwise.
    open spec fn measurement(&self) -> Measurement {
        Measurement::nothing()
    }

    /// Measure the heap usage of all descendant heap-allocated structures, but
    /// not the space taken up by the value itself.
    fn size_of(&self, ops: &mut MallocSizeOfOps) -> (n: usize)
        requires
            self.measurement().fits(old(ops)@),
        ensures
            self.measurement().yields(old(ops)@, final(ops)@, n as nat),
            final(ops)@.continues(old(ops)@),
    ;
}

/// Trait for measuring the "shallow" heap usage of a container.
pub trait MallocShallowSizeOf {
    /// What measuring this container, without its contents, may return: no bytes,
    /// unless said otherwise.
    open spec fn shallow_measurement(&self) -> Measurement {
        Measurement::nothing()
    }

    /// Measure the heap usage of immediate heap-allocated descendant
    /// structures, but not the space taken up by the value itself. Anything
    /// beyond the immediate descendants must be measured separately, using
    /// iteration.
    fn shallow_size_of(&self, ops: &mut MallocSizeOfOps) -> (n: usize)
        requires
            self.shallow_measurement().fits(old(ops)@),
        ensures
            self.shallow_measurement().yields(old(ops)@, final(ops)@, n as nat),
            final(ops)@.continues(old(ops)@),
    ;
}

/// Like `MallocSizeOf`, but with a different name so it cannot be used
/// accidentally. For use with types like `Rc` and `Arc` when appropriate (e.g.
/// when measuring a "primary" reference).
pub trait MallocUnconditionalSizeOf {
    /// What measuring the shared value may return: no bytes, unless said
    /// otherwise.
    open spec fn unconditional_measurement(&self) -> Measurement {
        Measurement::nothing()
    }

    /// Measure the heap usage of all heap-allocated descendant structures, but
    /// not the space taken up by the value itself.
    fn unconditional_size_of(&self, ops: &mut MallocSizeOfOps) -> (n: usize)
        requires
            self.unconditional_measurement().fits(old(ops)@),
        ensures
            self.unconditional_measurement().yields(old(ops)@, final(ops)@, n as nat),
            final(ops)@.continues(old(ops)@),
    ;
}

/// `MallocUnconditionalSizeOf` combined with `MallocShallowSizeOf`.
pub trait MallocUnconditionalShallowSizeOf {
    /// What measuring the shared container, without its contents, may return: no
    /// bytes, unless said otherwise.
    open spec fn unconditional_shallow_measurement(&self) -> Measurement {
        Measurement::nothing()
    }

    /// `unconditional_size_of` combined with `shallow_size_of`.
    fn unconditional_shallow_size_of(&self, ops: &mut MallocSizeOfOps) -> (n: usize)
        requires
            self.unconditional_shallow_measurement().fits(old(ops)@),
        ensures
            self.unconditional_shallow_measurement().yields(old(ops)@, final(ops)@, n as nat),
            final(ops)@.continues(old(ops)@),
    ;
}

/// Like `MallocSizeOf`, but only measures if the value hasn't already been
/// measured. For use with types like `Rc` and `Arc` when appropriate (e.g.
/// when there is no "primary" reference).
pub trait MallocConditionalSizeOf {
    /// The shared value may lie at `ptr`: anywhere, unless said otherwise.
    open spec fn shared_at(&self, ptr: usize) -> bool {
        true
    }

    /// What measuring the shared value may return, where it is measured: no bytes,
    /// unless said otherwise.
    open spec fn shared_measurement(&self) -> Measurement {
        Measurement::nothing()
    }

    /// Measure the heap usage of all heap-allocated descendant structures, but
    /// not the space taken up by the value itself, and only if that heap usage
    /// hasn't already been measured.
    fn conditional_size_of(&self, ops: &mut MallocSizeOfOps) -> (n: usize)
        requires
            Measurement::once_at(
                |ptr: usize| self.shared_at(ptr),
                self.shared_measurement(),
            ).fits(old(ops)@),
        ensures
            Measurement::once_at(
                |ptr: usize| self.shared_at(ptr),
                self.shared_measurement(),
            ).yields(old(ops)@, final(ops)@, n as nat),
            final(ops)@.continues(old(ops)@),
    ;
}

/// `MallocConditionalSizeOf` combined with `MallocShallowSizeOf`.
pub trait MallocConditionalShallowSizeOf {
    /// The shared container may lie at `ptr`: anywhere, unless said otherwise.
    open spec fn shallow_shared_at(&self, ptr: usize) -> bool {
        true
    }

    /// What measuring the shared container, without its contents, may return,
    /// where it is measured.
    open spec fn shallow_shared_measurement(&self) -> Measurement {
        Measurement::nothing()
    }

    /// `conditional_size_of` combined with `shallow_size_of`.
    fn conditional_shallow_size_of(&self, ops: &mut MallocSizeOfOps) -> (n: usize)
        requires
            Measurement::once_at(
                |ptr: usize| self.shallow_shared_at(ptr),
                self.shallow_shared_measurement(),
            ).fits(old(ops)@),
        ensures
            Measurement::once_at(
                |ptr: usize| self.shallow_shared_at(ptr),
                self.shallow_shared_measurement(),
            ).yields(old(ops)@, final(ops)@, n as nat),
            final(ops)@.continues(old(ops)@),
    ;
}

/// What measuring each of `items` may return.
pub open spec fn measurements<T: MallocSizeOf>(items: Seq<T>) -> Seq<Measurement> {
    items.map_values(|item: T| item.measurement())
}

/// Measurable that defers to inner value and used to verify a `MallocSizeOf`
/// implementation in a struct.
#[derive(Clone)]
pub struct Measurable<T: MallocSizeOf>(pub T);

impl<T: MallocSizeOf> Deref for Measurable<T> {
    type Target = T;

    fn deref(&self) -> (inner: &T)
        ensures
            *inner == self.0,
    {
        &self.0
    }
}

impl<T: MallocSizeOf> DerefMut for Measurable<T> {
    fn deref_mut(&mut self) -> (inner: &mut T)
        ensures
            *inner == old(self).0,
            final(self).0 == *final(inner),
    {
        &mut self.0
    }
}

} // verus!
