# malloc_size_of

A library for measuring the heap usage of data structures, with contracts that
Verus proves.

The sizes of heap blocks come from functions that the caller supplies in a
`MallocSizeOfOps`; addresses are plain numbers. What measuring a value may return
is a `Measurement`: a relation between the operations before, the operations
after and a number of bytes, together with the condition under which the
measurement can be made.

- `src/ops.rs`: the operations, and what contracts know of them.
- `src/measurement.rs`: measurements, and how they are put together.
- `src/traits.rs`: the traits of values that can be measured.
- `src/checked.rs`: the traits of measurements that report where they could not be
  made.
- `src/walk.rs`, `src/order.rs`: reading blocks, and items one by one.
- `src/primitives.rs`, `src/compound.rs`, `src/sequences.rs`, `src/hashed.rs`,
  `src/sorted.rs`: the types of the standard library.
- `src/geometry.rs`, `src/buffers.rs`, `src/brown.rs`, `src/flat.rs`,
  `src/host.rs`, `src/json.rs`, `src/rtree.rs`: the types of other crates.
- `src/laws.rs`, `src/container_laws.rs`: what holds of every measurement.
- `app/`: the functions of this machine's allocator, and R-trees of the `rstar`
  crate.

What is not proved stands behind functions marked `external_body`. Each of them
calls another crate or the standard library, does nothing beyond converting, and
says what is claimed of the call.
