//! The operations that measurements are made with.
use malloc_size_of::{
    heap_size_of, validated_heap_size_of, MallocSizeOfOps, SeenPtrs, Target, VoidPtrToBoolFnMut,
};

type SizeFn = fn(usize) -> usize;

fn twice(ptr: usize) -> usize {
    ptr * 2
}

fn never(ptr: usize) -> usize {
    panic!("asked for {}", ptr)
}

#[test]
fn small_addresses_are_empty() {
    assert!(MallocSizeOfOps::is_empty(0));
    assert!(MallocSizeOfOps::is_empty(1));
    assert!(MallocSizeOfOps::is_empty(256));
    assert!(!MallocSizeOfOps::is_empty(257));
    assert!(!MallocSizeOfOps::is_empty(usize::MAX));
}

#[test]
fn empty_allocations_are_not_asked_for() {
    let ops = MallocSizeOfOps::new(never, None::<SizeFn>, None);
    assert_eq!(ops.malloc_size_of(0), 0);
    assert_eq!(ops.malloc_size_of(8), 0);
    assert_eq!(ops.malloc_size_of(256), 0);
}

#[test]
fn other_allocations_are_asked_for() {
    let ops = MallocSizeOfOps::new(twice, None::<SizeFn>, None);
    assert_eq!(ops.malloc_size_of(257), 514);
    assert_eq!(ops.malloc_size_of(4096), 8192);
}

#[test]
fn interior_pointers_are_optional() {
    let without = MallocSizeOfOps::new(twice, None::<SizeFn>, None);
    assert!(!without.has_malloc_enclosing_size_of());
    let with = MallocSizeOfOps::new(never, Some(|ptr: usize| ptr + 1), None);
    assert!(with.has_malloc_enclosing_size_of());
    assert_eq!(with.malloc_enclosing_size_of(1000), 1001);
}

#[test]
fn default_operations_measure_blocks_only() {
    let ops = MallocSizeOfOps::default(twice);
    assert!(!ops.has_malloc_enclosing_size_of());
    assert_eq!(ops.target(), Target::Native);
    assert_eq!(ops.malloc_size_of(1), 0);
    assert_eq!(ops.malloc_size_of(300), 600);
}

#[test]
fn functions_are_called_above_the_limit_only() {
    let ops = MallocSizeOfOps::default(|ptr: usize| ptr - 257);
    assert_eq!(ops.malloc_size_of(0), 0);
    assert_eq!(ops.malloc_size_of(256), 0);
    assert_eq!(ops.malloc_size_of(257), 0);
    assert_eq!(ops.malloc_size_of(260), 3);
    let with = MallocSizeOfOps::new(|ptr: usize| ptr - 257, Some(|ptr: usize| ptr - 256), None);
    assert_eq!(with.malloc_size_of(256), 0);
    assert_eq!(with.malloc_size_of(259), 2);
    assert_eq!(with.malloc_enclosing_size_of(257), 1);
}

#[test]
fn blocks_have_no_size_on_wasm() {
    let ops = MallocSizeOfOps::default_wasm();
    assert_eq!(ops.target(), Target::Wasm);
    assert!(!ops.has_malloc_enclosing_size_of());
    assert_eq!(ops.malloc_size_of(300), 0);
}

#[test]
fn only_the_target_changes() {
    let ops = MallocSizeOfOps::new(twice, Some(|ptr: usize| ptr + 1), None).on(Target::Wasm);
    assert_eq!(ops.target(), Target::Wasm);
    assert_eq!(ops.malloc_size_of(300), 600);
    assert_eq!(ops.malloc_enclosing_size_of(300), 301);
    assert_eq!(ops.on(Target::Native).target(), Target::Native);
}

#[test]
fn pointers_are_remembered() {
    let mut ops = MallocSizeOfOps::new(twice, None::<SizeFn>, Some(Box::new(SeenPtrs::new())));
    assert!(!ops.have_seen_ptr(1000));
    assert!(ops.have_seen_ptr(1000));
    assert!(!ops.have_seen_ptr(2000));
    assert!(ops.have_seen_ptr(2000));
    assert!(ops.have_seen_ptr(1000));
}

#[test]
fn no_pointer_is_seen_at_first() {
    let mut seen = SeenPtrs::default();
    assert!(!seen.have_seen(0));
    assert!(seen.have_seen(0));
    assert!(!seen.have_seen(usize::MAX));
}

#[test]
fn addresses_up_to_the_alignment_are_empty() {
    assert_eq!(heap_size_of::<u64, _>(0, &never), 0);
    assert_eq!(heap_size_of::<u64, _>(8, &never), 0);
    assert_eq!(heap_size_of::<u64, _>(9, &twice), 18);
    assert_eq!(heap_size_of::<u8, _>(1, &never), 0);
    assert_eq!(heap_size_of::<u8, _>(2, &twice), 4);
}

#[test]
fn valid_addresses_are_measured_as_they_are() {
    let size = validated_heap_size_of(1000, &|_| true, &never, &twice);
    assert_eq!(size, 2000);
}

#[test]
fn other_addresses_are_looked_up_first() {
    let size = validated_heap_size_of(1000, &|ptr| ptr != 1000, &|ptr| ptr - 16, &twice);
    assert_eq!(size, 1968);
}

#[test]
fn only_the_block_is_measured() {
    let size = validated_heap_size_of(1000, &|_| true, &never, &|ptr| ptr - 1000);
    assert_eq!(size, 0);
    let size = validated_heap_size_of(1000, &|_| false, &|_| 2000, &|ptr| ptr - 2000);
    assert_eq!(size, 0);
}
