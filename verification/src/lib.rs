//! Measuring the heap usage of data structures.
//!
//! - Nothing here is bound to a particular heap allocator: the sizes of heap
//!   blocks come from functions that the caller supplies in a
//!   [`MallocSizeOfOps`].
//! - There are traits for "deep" measurement ([`MallocSizeOf`]) and for
//!   "shallow" measurement ([`MallocShallowSizeOf`]). Where a deep measurement
//!   cannot be had for a type, the shallow one and iteration can take its place.
//! - A block can be measured even where only a pointer into its interior is at
//!   hand, as with hash tables, if the allocator supports that.
//! - Shared values, such as those behind `Rc` and `Arc`, have traits of their
//!   own: [`MallocUnconditionalSizeOf`] for a primary reference, and
//!   [`MallocConditionalSizeOf`] where the value counts only if it has not been
//!   seen before. [`MallocSizeOf`] is not implemented for `Rc` and `Arc`.
//!
//! # What a measurement may return
//!
//! That is described by a [`Measurement`]: a relation between the operations
//! before, the operations after and the number of bytes. Addresses, capacities
//! and the order in which a hash table is walked are not functions of the
//! measured value, so a contract speaks of each one that may come back.
//!
//! What it comes to for each type is said in [`type_laws`], [`table_laws`] and
//! [`plain_laws`], in terms of what the parts of a value return. The ways of putting
//! measurements together are in [`measurement_laws`].
//!
//! # When a measurement can be made
//!
//! A measurement must fit a `usize`, and it must not ask of the operations what
//! they do not offer ([`Measurement::fits`]). The laws in [`laws`] and
//! [`container_laws`] show that for the values of a program: of items that own
//! nothing by [`container_laws::law_vec_of_plain_items`], of blocks of limited
//! size by [`laws::law_bounded_sum`]. Where it depends on what only the
//! measurement finds out, such as the capacity of a hash table, the traits in
//! [`checked`] make the measurement or say that it could not be made.
pub mod brown;
pub mod buffers;
pub mod checked;
pub mod compound;
pub mod container_laws;
pub mod flat;
pub mod geometry;
pub mod hashed;
pub mod host;
pub mod json;
pub mod laws;
pub mod measurement;
pub mod measurement_laws;
pub mod ops;
pub mod order;
pub mod plain_laws;
pub mod primitives;
pub mod rtree;
pub mod sequences;
pub mod sorted;
pub mod table_laws;
pub mod traits;
pub mod type_laws;
pub mod walk;

pub use buffers::{ByteBuffer, InlineVec};
pub use checked::{MallocCheckedShallowSizeOf, MallocCheckedSizeOf};
pub use measurement::Measurement;
pub use ops::{
    heap_size_of, validated_heap_size_of, MallocSizeOfOps, OpsModel, SeenPtrs, Target,
    VoidPtrToBoolFnMut,
};
pub use traits::{
    MallocConditionalShallowSizeOf, MallocConditionalSizeOf, MallocShallowSizeOf, MallocSizeOf,
    MallocUnconditionalShallowSizeOf, MallocUnconditionalSizeOf, Measurable,
};
