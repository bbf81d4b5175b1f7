//! What holds of every measurement, on a few values.
use malloc_size_of::{
    ByteBuffer, MallocConditionalShallowSizeOf, MallocConditionalSizeOf, MallocShallowSizeOf,
    MallocSizeOf, MallocSizeOfOps, MallocUnconditionalShallowSizeOf, MallocUnconditionalSizeOf,
    SeenPtrs,
};
use serde_bytes::ByteBuf;
use std::collections::{HashMap, HashSet, VecDeque};
use std::rc::Rc;

type SizeFn = fn(usize) -> usize;

/// Operations that report the same size for every block.
fn each(size: usize) -> MallocSizeOfOps {
    MallocSizeOfOps::new(move |_ptr: usize| size, None::<SizeFn>, None)
}

/// Operations that report the same size for every block, and keep the pointers
/// that have been seen.
fn keeping(size: usize) -> MallocSizeOfOps {
    MallocSizeOfOps::new(
        move |_ptr: usize| size,
        None::<SizeFn>,
        Some(Box::new(SeenPtrs::new())),
    )
}

/// A shared list of strings.
struct Shared(Rc<Vec<String>>);

impl Shared {
    fn at(&self) -> usize {
        std::ptr::from_ref(&*self.0).addr()
    }
}

impl MallocUnconditionalShallowSizeOf for Shared {
    fn unconditional_shallow_size_of(&self, ops: &mut MallocSizeOfOps) -> usize {
        ops.malloc_size_of(self.at())
    }
}

impl MallocUnconditionalSizeOf for Shared {
    fn unconditional_size_of(&self, ops: &mut MallocSizeOfOps) -> usize {
        self.unconditional_shallow_size_of(ops) + self.0.size_of(ops)
    }
}

impl MallocConditionalShallowSizeOf for Shared {
    fn conditional_shallow_size_of(&self, ops: &mut MallocSizeOfOps) -> usize {
        if ops.have_seen_ptr(self.at()) {
            0
        } else {
            self.unconditional_shallow_size_of(ops)
        }
    }
}

impl MallocConditionalSizeOf for Shared {
    fn conditional_size_of(&self, ops: &mut MallocSizeOfOps) -> usize {
        if ops.have_seen_ptr(self.at()) {
            0
        } else {
            self.unconditional_size_of(ops)
        }
    }
}

fn shared() -> Shared {
    Shared(Rc::new(vec![String::from("a"), String::from("b")]))
}

#[test]
fn shared_value_counts_once() {
    let first = shared();
    let second = Shared(first.0.clone());
    let mut ops = keeping(5);
    assert_eq!(first.conditional_size_of(&mut ops), 20);
    assert_eq!(second.conditional_size_of(&mut ops), 0);
    assert_eq!(first.conditional_size_of(&mut ops), 0);
    assert_eq!(shared().conditional_size_of(&mut ops), 20);
}

#[test]
fn shared_block_counts_once() {
    let first = shared();
    let second = Shared(first.0.clone());
    let mut ops = keeping(5);
    assert_eq!(first.conditional_shallow_size_of(&mut ops), 5);
    assert_eq!(second.conditional_shallow_size_of(&mut ops), 0);
}

#[test]
fn primary_reference_always_counts() {
    let first = shared();
    let second = Shared(first.0.clone());
    let mut ops = each(5);
    assert_eq!(first.unconditional_size_of(&mut ops), 20);
    assert_eq!(second.unconditional_size_of(&mut ops), 20);
}

#[test]
fn deep_is_shallow_and_iteration() {
    let items = vec![String::from("a"), String::new(), String::from("b")];
    let mut ops = each(5);
    let mut sum = items.shallow_size_of(&mut ops);
    for item in &items {
        sum += item.size_of(&mut ops);
    }
    assert_eq!(items.size_of(&mut ops), sum);
    let deque: VecDeque<String> = items.into_iter().collect();
    let mut sum = deque.shallow_size_of(&mut ops);
    for item in &deque {
        sum += item.size_of(&mut ops);
    }
    assert_eq!(deque.size_of(&mut ops), sum);
    let map: HashMap<u8, String> = HashMap::from([(1, String::from("a")), (2, String::new())]);
    let mut sum = map.shallow_size_of(&mut ops);
    for (key, value) in &map {
        sum += key.size_of(&mut ops) + value.size_of(&mut ops);
    }
    assert_eq!(map.size_of(&mut ops), sum);
}

#[test]
fn items_that_own_nothing_do_not_count() {
    let words = vec![1u64, 2, 3];
    assert_eq!(words.size_of(&mut each(24)), words.shallow_size_of(&mut each(24)));
    assert_eq!(words.size_of(&mut each(24)), 24);
    let set = HashSet::from([1u8, 2, 3]);
    assert_eq!(set.size_of(&mut each(24)), set.shallow_size_of(&mut each(24)));
}

#[test]
fn order_does_not_matter() {
    let forth: HashSet<String> = (0..50).map(|i| "x".repeat(i)).collect();
    let back: HashSet<String> = (0..50).rev().map(|i| "x".repeat(i)).collect();
    let mut ops = each(5);
    let contents = |set: &HashSet<String>, ops: &mut MallocSizeOfOps| {
        set.size_of(ops) - set.shallow_size_of(ops)
    };
    assert_eq!(contents(&forth, &mut ops), 245);
    assert_eq!(contents(&back, &mut ops), 245);
}

#[test]
fn brackets_do_not_matter() {
    let s = || String::from("x");
    let mut ops = each(5);
    assert_eq!(((s(), s()), s()).size_of(&mut ops), (s(), (s(), s())).size_of(&mut ops));
    assert_eq!(((), s()).size_of(&mut ops), s().size_of(&mut ops));
}

#[test]
fn sums_are_bounded_by_their_parts() {
    let boxes: Vec<Box<u8>> = (0..10).map(Box::new).collect();
    assert_eq!(boxes.size_of(&mut each(16)), 16 + 10 * 16);
}

#[test]
fn reference_does_not_own_what_it_refers_to() {
    let items = vec![String::from("a")];
    let references = vec![&items, &items];
    assert_eq!(references.size_of(&mut each(16)), 16);
}

#[test]
fn deep_is_at_least_shallow() {
    let items = vec![String::from("a"), String::from("b")];
    let mut ops = each(7);
    assert!(items.size_of(&mut ops) >= items.shallow_size_of(&mut ops));
    let boxed = Box::new(items);
    assert!(boxed.size_of(&mut ops) >= boxed.shallow_size_of(&mut ops));
}

#[test]
fn measuring_what_is_not_shared_leaves_the_seen_pointers_alone() {
    let items = vec![String::from("a"), String::from("b")];
    let at = items.as_ptr().addr();
    let mut ops = keeping(7);
    assert!(!ops.have_seen_ptr(1000));
    assert_eq!(items.size_of(&mut ops), 21);
    assert!(!ops.have_seen_ptr(at));
    assert!(ops.have_seen_ptr(1000));
}

#[test]
fn pushed_item_adds_its_own_size() {
    let mut items: Vec<String> = Vec::with_capacity(4);
    let mut ops = each(7);
    let empty = items.size_of(&mut ops);
    assert_eq!(empty, 7);
    let item = String::from("a");
    let added = item.size_of(&mut ops);
    items.push(item);
    assert_eq!(items.size_of(&mut ops), empty + added);
    items.push(String::new());
    assert_eq!(items.size_of(&mut ops), empty + added);
}

#[test]
fn bytes_of_a_buffer_do_not_count() {
    let buffer = ByteBuffer { inner: ByteBuf::from(vec![1, 2, 3]) };
    let mut ops = each(7);
    assert_eq!(buffer.size_of(&mut ops), buffer.shallow_size_of(&mut ops));
    assert_eq!(buffer.size_of(&mut ops), ops.malloc_size_of(buffer.inner.as_ptr().addr()));
}

#[test]
fn plain_deque_is_its_buffer() {
    let items: VecDeque<u32> = VecDeque::from(vec![1]);
    assert_eq!(items.size_of(&mut each(7)), items.capacity() * 4);
}
