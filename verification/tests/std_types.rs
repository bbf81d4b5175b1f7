//! The types of the standard library.
use malloc_size_of::{
    MallocCheckedShallowSizeOf, MallocCheckedSizeOf, MallocShallowSizeOf, MallocSizeOf,
    MallocSizeOfOps, Measurable, Target,
};
use std::borrow::Cow;
use std::cell::{Cell, RefCell};
use std::collections::{BTreeMap, BTreeSet, HashMap, HashSet, VecDeque};
use std::marker::PhantomData;
use std::mem::{size_of, MaybeUninit};
use std::sync::atomic::{AtomicBool, AtomicIsize, AtomicUsize};
use std::sync::Mutex;

type SizeFn = fn(usize) -> usize;

/// Operations that report the same size for every block.
fn each(size: usize) -> MallocSizeOfOps {
    MallocSizeOfOps::new(move |_ptr: usize| size, None::<SizeFn>, None)
}

/// Operations that report the block at one address and no other.
fn only(at: usize, size: usize) -> MallocSizeOfOps {
    MallocSizeOfOps::new(
        move |ptr: usize| {
            assert_eq!(ptr, at);
            size
        },
        None::<SizeFn>,
        None,
    )
}

/// Operations that report a block around one address and no other block.
fn around(at: usize, size: usize) -> MallocSizeOfOps {
    MallocSizeOfOps::new(
        move |ptr: usize| panic!("asked for {}", ptr),
        Some(move |ptr: usize| {
            assert_eq!(ptr, at);
            size
        }),
        None,
    )
}

/// Operations for WebAssembly.
fn wasm() -> MallocSizeOfOps {
    MallocSizeOfOps::default_wasm()
}

#[test]
fn string_is_its_buffer() {
    let s = String::from("measured");
    assert_eq!(s.size_of(&mut only(s.as_ptr().addr(), 8)), 8);
    assert_eq!(String::new().size_of(&mut each(8)), 0);
}

#[test]
fn string_is_estimated_on_wasm() {
    assert_eq!(String::from("abc").size_of(&mut wasm()), 24);
    assert_eq!(String::from("h\u{e9}llo").size_of(&mut wasm()), 48);
    assert_eq!(String::new().size_of(&mut wasm()), 0);
}

#[test]
fn reference_owns_nothing() {
    let s = String::from("measured");
    let r: &String = &s;
    assert_eq!(<&String as MallocSizeOf>::size_of(&r, &mut each(8)), 0);
}

#[test]
fn box_is_its_block_and_its_value() {
    let b: Box<String> = Box::new(String::from("measured"));
    assert_eq!(b.shallow_size_of(&mut only(std::ptr::from_ref(&*b).addr(), 24)), 24);
    assert_eq!(b.size_of(&mut each(10)), 20);
    assert_eq!(b.shallow_size_of(&mut each(10).on(Target::Wasm)), 0);
    assert_eq!(b.size_of(&mut wasm()), 64);
}

#[test]
fn boxed_nothing_has_no_block() {
    let unit: Box<()> = Box::new(());
    assert_eq!(unit.size_of(&mut each(10)), 0);
}

#[test]
fn every_item_of_an_array_counts() {
    let s = || String::from("x");
    let mut ops = each(5);
    assert_eq!([s()].size_of(&mut ops), 5);
    assert_eq!([s(), s()].size_of(&mut ops), 10);
    assert_eq!([s(), s(), s()].size_of(&mut ops), 15);
    assert_eq!([s(), s(), s(), s()].size_of(&mut ops), 20);
    assert_eq!([s(), s(), s(), s(), s()].size_of(&mut ops), 25);
    assert_eq!([s(), s(), s(), s(), s(), s()].size_of(&mut ops), 30);
    assert_eq!([String::new(), s()].size_of(&mut ops), 5);
}

#[test]
fn every_part_of_a_tuple_counts() {
    let s = || String::from("x");
    let mut ops = each(5);
    assert_eq!(().size_of(&mut ops), 0);
    assert_eq!((s(), 1u8).size_of(&mut ops), 5);
    assert_eq!((s(), s()).size_of(&mut ops), 10);
    assert_eq!((s(), 1u8, s()).size_of(&mut ops), 10);
    assert_eq!((s(), s(), s()).size_of(&mut ops), 15);
    assert_eq!((1u8, s(), s(), s()).size_of(&mut ops), 15);
    assert_eq!((s(), s(), s(), s()).size_of(&mut ops), 20);
}

#[test]
fn absent_values_own_nothing() {
    let mut ops = each(5);
    assert_eq!(Some(String::from("x")).size_of(&mut ops), 5);
    assert_eq!(None::<String>.size_of(&mut ops), 0);
}

#[test]
fn either_side_of_a_result_counts() {
    let mut ops = each(5);
    let good: Result<String, u8> = Ok(String::from("x"));
    let bad: Result<u8, String> = Err(String::from("x"));
    let plain: Result<u8, String> = Ok(1);
    assert_eq!(good.size_of(&mut ops), 5);
    assert_eq!(bad.size_of(&mut ops), 5);
    assert_eq!(plain.size_of(&mut ops), 0);
}

#[test]
fn cells_own_what_they_hold() {
    let mut ops = each(5);
    assert_eq!(Cell::new(7u32).size_of(&mut ops), 0);
    assert_eq!(RefCell::new(String::from("x")).size_of(&mut ops), 5);
    assert_eq!(Mutex::new(String::from("x")).size_of(&mut ops), 5);
    assert_eq!(RefCell::new(String::new()).size_of(&mut ops), 0);
    assert_eq!(Mutex::new(String::new()).size_of(&mut ops), 0);
}

/// A number of bytes.
#[derive(Clone, Copy)]
struct Bytes(usize);

impl MallocSizeOf for Bytes {
    fn size_of(&self, _ops: &mut MallocSizeOfOps) -> usize {
        self.0
    }
}

impl MallocCheckedSizeOf for Bytes {
    fn checked_size_of(&self, _ops: &mut MallocSizeOfOps) -> Option<usize> {
        Some(self.0)
    }
}

#[test]
fn cell_is_measured_as_it_is_now() {
    let mut ops = each(5);
    let cell = Cell::new(Bytes(3));
    assert_eq!(cell.size_of(&mut ops), 3);
    cell.set(Bytes(4));
    assert_eq!(cell.size_of(&mut ops), 4);
}

#[test]
fn borrowed_cell_is_reported() {
    let mut ops = each(5);
    let cell = RefCell::new(String::from("x"));
    assert_eq!(cell.checked_size_of(&mut ops), Some(5));
    let held = cell.borrow_mut();
    assert_eq!(cell.checked_size_of(&mut ops), None);
    drop(held);
    let shared = cell.borrow();
    assert_eq!(cell.checked_size_of(&mut ops), Some(5));
    drop(shared);
    let mutex = Mutex::new(String::from("x"));
    assert_eq!(mutex.checked_size_of(&mut ops), Some(5));
    let held = mutex.lock().unwrap();
    assert_eq!(mutex.checked_size_of(&mut ops), None);
    drop(held);
    assert_eq!(mutex.size_of(&mut ops), 5);
}

#[test]
fn checked_measurements_go_to_any_depth() {
    let mut ops = each(5);
    let cell = RefCell::new(String::from("x"));
    let nested = vec![Some((1u8, cell)), None];
    assert_eq!(nested.checked_size_of(&mut ops), Some(10));
    let held = nested[0].as_ref().unwrap().1.borrow_mut();
    assert_eq!(nested.checked_size_of(&mut ops), None);
    drop(held);
    let most: Result<Box<[Bytes]>, u8> = Ok(vec![Bytes(usize::MAX)].into_boxed_slice());
    assert_eq!(most.checked_size_of(&mut ops), None);
    let bad: Result<u8, Cell<Bytes>> = Err(Cell::new(Bytes(3)));
    assert_eq!(bad.checked_size_of(&mut ops), Some(3));
    let cow: Cow<'_, str> = Cow::Owned(String::from("x"));
    assert_eq!(cow.checked_size_of(&mut ops), Some(5));
    assert_eq!(Cow::Borrowed("x").checked_size_of(&mut ops), Some(0));
    assert_eq!(String::from("abc").checked_size_of(&mut wasm()), Some(24));
    assert_eq!(7u64.checked_size_of(&mut ops), Some(0));
    assert_eq!((&7u64).checked_size_of(&mut ops), Some(0));
}

#[test]
fn only_an_owned_cow_counts() {
    let mut ops = each(5);
    let borrowed: Cow<'_, str> = Cow::Borrowed("x");
    let owned: Cow<'_, str> = Cow::Owned(String::from("x"));
    assert_eq!(borrowed.size_of(&mut ops), 0);
    assert_eq!(owned.size_of(&mut ops), 5);
}

#[test]
fn block_of_a_boxed_slice_counts_once() {
    let items: Box<[String]> = vec![String::from("x"), String::from("y")].into_boxed_slice();
    assert_eq!(items.size_of(&mut each(5)), 15);
    assert_eq!(items.checked_size_of(&mut each(5)), Some(15));
    assert_eq!((*items).size_of(&mut each(5)), 15);
    assert_eq!((*items).size_of(&mut wasm()), 16);
    assert_eq!(items.size_of(&mut wasm()), 16);
    let bytes: Box<[u8]> = vec![1u8, 2, 3].into_boxed_slice();
    assert_eq!(bytes.size_of(&mut each(100)), 100);
    assert_eq!(bytes.size_of(&mut only(bytes.as_ptr().addr(), 3)), 3);
}

#[test]
fn other_boxes_without_a_fixed_size() {
    let text: Box<str> = String::from("text").into_boxed_str();
    assert_eq!(text.size_of(&mut only(text.as_ptr().addr(), 4)), 4);
    assert_eq!(text.checked_size_of(&mut each(5)), Some(5));
    let value: Box<dyn MallocSizeOf> = Box::new(String::from("x"));
    assert_eq!(value.size_of(&mut each(5)), 10);
}

#[test]
fn slice_is_measured_where_it_starts() {
    let items = vec![1u8, 2, 3, 4];
    let tail = &items[2..];
    assert_eq!(<[u8] as MallocSizeOf>::size_of(tail, &mut only(tail.as_ptr().addr(), 7)), 7);
}

#[test]
fn reserved_space_counts() {
    let text = String::with_capacity(100);
    assert_eq!(text.size_of(&mut only(text.as_ptr().addr(), 10)), 10);
    assert_eq!(String::new().size_of(&mut each(10)), 0);
    let items: Vec<u64> = Vec::with_capacity(100);
    assert_eq!(items.size_of(&mut only(items.as_ptr().addr(), 10)), 10);
    let nested = vec![vec![1u8, 2, 3], vec![], vec![4u8]];
    assert_eq!(nested.size_of(&mut each(10)), 30);
}

#[test]
fn vec_is_its_buffer_and_its_items() {
    let items = vec![String::from("x"), String::new(), String::from("y")];
    assert_eq!(items.shallow_size_of(&mut only(items.as_ptr().addr(), 72)), 72);
    assert_eq!(items.size_of(&mut each(5)), 15);
    let empty: Vec<String> = Vec::new();
    assert_eq!(empty.size_of(&mut each(5)), 0);
}

#[test]
fn vec_is_estimated_on_wasm() {
    let mut words: Vec<u64> = Vec::with_capacity(10);
    words.push(1);
    let capacity = words.capacity();
    assert!(capacity >= 10);
    assert_eq!(words.shallow_size_of(&mut wasm()), capacity * 8);
    assert_eq!(words.size_of(&mut wasm()), capacity * 8);
    let strings = vec![String::from("ab")];
    assert_eq!(strings.size_of(&mut wasm()), strings.capacity() * size_of::<String>() + 16);
}

#[test]
fn deque_is_found_by_its_front() {
    let mut items: VecDeque<String> = VecDeque::new();
    assert_eq!(items.shallow_size_of(&mut around(0, 0)), 0);
    items.push_back(String::from("x"));
    items.push_front(String::from("y"));
    let front = std::ptr::from_ref(&items[0]).addr();
    assert_eq!(items.shallow_size_of(&mut around(front, 96)), 96);
    assert_eq!(items.checked_shallow_size_of(&mut around(front, 96)), Some(96));
    let capacity = items.capacity();
    assert_eq!(items.shallow_size_of(&mut each(5)), capacity * size_of::<String>());
    assert_eq!(items.size_of(&mut each(5)), capacity * size_of::<String>() + 10);
    assert_eq!(
        items.checked_size_of(&mut each(5)),
        Some(capacity * size_of::<String>() + 10)
    );
}

#[test]
fn items_without_a_size_need_no_block() {
    let items: VecDeque<()> = VecDeque::from(vec![(), ()]);
    let mut ops = MallocSizeOfOps::new(|_| 7, Some(|_: usize| 64), None);
    assert_eq!(items.shallow_size_of(&mut ops), 0);
    assert_eq!(items.size_of(&mut ops), 0);
    assert_eq!(items.checked_shallow_size_of(&mut ops), Some(0));
    assert_eq!(items.checked_size_of(&mut ops), Some(0));
    assert_eq!(items.checked_size_of(&mut each(5)), Some(0));
    let set: BTreeSet<()> = BTreeSet::from([()]);
    assert_eq!(set.checked_shallow_size_of(&mut each(5)), Some(size_of::<usize>()));
}

#[test]
fn hash_set_is_found_by_an_item() {
    let mut items: HashSet<String> = HashSet::new();
    assert_eq!(items.shallow_size_of(&mut around(0, 0)), 0);
    items.insert(String::from("x"));
    items.insert(String::from("y"));
    let first = std::ptr::from_ref(items.iter().next().unwrap()).addr();
    assert_eq!(items.shallow_size_of(&mut around(first, 200)), 200);
    assert_eq!(items.checked_shallow_size_of(&mut around(first, 200)), Some(200));
}

#[test]
fn hash_set_is_estimated_by_its_capacity() {
    let items: HashSet<String> = HashSet::from([String::from("x"), String::from("y")]);
    let table = items.capacity() * (size_of::<String>() + size_of::<usize>());
    assert_eq!(items.shallow_size_of(&mut each(5)), table);
    assert_eq!(items.checked_shallow_size_of(&mut each(5)), Some(table));
    assert_eq!(items.size_of(&mut each(5)), table + 10);
    assert_eq!(items.checked_size_of(&mut each(5)), Some(table + 10));
    assert_eq!(HashSet::<u8>::new().size_of(&mut each(5)), 0);
}

#[test]
fn hash_map_is_found_by_a_value() {
    let mut map: HashMap<u32, String> = HashMap::new();
    assert_eq!(map.shallow_size_of(&mut around(0, 0)), 0);
    map.insert(1, String::from("x"));
    map.insert(2, String::from("y"));
    let first = std::ptr::from_ref(map.values().next().unwrap()).addr();
    assert_eq!(map.shallow_size_of(&mut around(first, 200)), 200);
    assert_eq!(map.checked_shallow_size_of(&mut around(first, 200)), Some(200));
}

#[test]
fn hash_map_is_estimated_by_its_capacity() {
    let map: HashMap<String, String> = HashMap::from([
        (String::from("a"), String::from("x")),
        (String::from("b"), String::new()),
    ]);
    let table = map.capacity() * (2 * size_of::<String>() + size_of::<usize>());
    assert_eq!(map.shallow_size_of(&mut each(5)), table);
    assert_eq!(map.size_of(&mut each(5)), table + 15);
    assert_eq!(map.checked_shallow_size_of(&mut each(5)), Some(table));
    assert_eq!(map.checked_size_of(&mut each(5)), Some(table + 15));
}

#[test]
fn sums_that_do_not_fit_are_reported() {
    let many: HashMap<u8, Bytes> = HashMap::from([(1, Bytes(usize::MAX)), (2, Bytes(1))]);
    assert_eq!(many.checked_size_of(&mut each(5)), None);
    let items: VecDeque<Bytes> = VecDeque::from([Bytes(usize::MAX - 1000), Bytes(1000)]);
    assert_eq!(items.checked_size_of(&mut each(5)), None);
    let most = Bytes(usize::MAX);
    let none = Bytes(0);
    let one = Bytes(1);
    assert_eq!(vec![most].checked_size_of(&mut each(5)), None);
    assert_eq!(Box::new(most).checked_size_of(&mut each(5)), None);
    assert_eq!([most, none].checked_size_of(&mut each(5)), Some(usize::MAX));
    assert_eq!([most, one].checked_size_of(&mut each(5)), None);
    assert_eq!((most, none).checked_size_of(&mut each(5)), Some(usize::MAX));
    assert_eq!((most, one).checked_size_of(&mut each(5)), None);
    assert_eq!((one, most, none).checked_size_of(&mut each(5)), None);
    assert_eq!((none, most, one).checked_size_of(&mut each(5)), None);
    assert_eq!((none, one, none, most).checked_size_of(&mut each(5)), None);
    assert_eq!((one, one, one, one).checked_size_of(&mut each(5)), Some(4));
    assert_eq!(BTreeMap::from([(1u8, most), (2, one)]).checked_size_of(&mut each(5)), None);
}

#[test]
fn sums_that_fit_are_the_same_when_checked() {
    let items = vec![String::from("a"), String::from("b")];
    assert_eq!(items.checked_size_of(&mut each(5)), Some(15));
    assert_eq!(items.as_slice().checked_size_of(&mut each(5)), Some(15));
    assert_eq!(items.as_slice().checked_size_of(&mut wasm()), Some(16));
    assert_eq!(Box::new(items.clone()).checked_size_of(&mut each(5)), Some(20));
    let set: BTreeSet<String> = items.iter().cloned().collect();
    assert_eq!(set.checked_size_of(&mut each(5)), Some(10));
    let map: BTreeMap<String, u8> = items.into_iter().map(|item| (item, 1)).collect();
    assert_eq!(map.checked_size_of(&mut each(5)), Some(10));
}

#[test]
fn btree_set_counts_its_items_only() {
    let items: BTreeSet<String> = BTreeSet::from([String::from("y"), String::from("x")]);
    assert_eq!(items.size_of(&mut each(5)), 10);
    let first = std::ptr::from_ref(items.first().unwrap()).addr();
    assert_eq!(items.shallow_size_of(&mut around(first, 300)), 300);
    assert_eq!(items.checked_shallow_size_of(&mut around(first, 300)), Some(300));
    let estimate = 2 * (size_of::<String>() + size_of::<usize>());
    assert_eq!(items.shallow_size_of(&mut each(5)), estimate);
    assert_eq!(items.checked_shallow_size_of(&mut each(5)), Some(estimate));
    assert_eq!(BTreeSet::<u8>::new().shallow_size_of(&mut around(0, 0)), 0);
}

#[test]
fn btree_map_counts_its_entries_only() {
    let map: BTreeMap<String, String> = BTreeMap::from([
        (String::from("b"), String::from("x")),
        (String::from("a"), String::from("y")),
    ]);
    assert_eq!(map.size_of(&mut each(5)), 20);
    let first = std::ptr::from_ref(&map["a"]).addr();
    assert_eq!(map.shallow_size_of(&mut around(first, 300)), 300);
    assert_eq!(map.checked_shallow_size_of(&mut around(first, 300)), Some(300));
    let estimate = 2 * (2 * size_of::<String>() + size_of::<usize>());
    assert_eq!(map.shallow_size_of(&mut each(5)), estimate);
    assert_eq!(map.checked_shallow_size_of(&mut each(5)), Some(estimate));
    assert_eq!(BTreeMap::<u8, u8>::new().shallow_size_of(&mut around(0, 0)), 0);
}

#[test]
fn plain_values_own_nothing() {
    let mut ops = each(5);
    assert_eq!(true.size_of(&mut ops) + 'x'.size_of(&mut ops) + "x".size_of(&mut ops), 0);
    assert_eq!(1u8.size_of(&mut ops) + 1u16.size_of(&mut ops) + 1u32.size_of(&mut ops), 0);
    assert_eq!(1u64.size_of(&mut ops) + 1u128.size_of(&mut ops) + 1usize.size_of(&mut ops), 0);
    assert_eq!(1i8.size_of(&mut ops) + 1i16.size_of(&mut ops) + 1i32.size_of(&mut ops), 0);
    assert_eq!(1i64.size_of(&mut ops) + 1i128.size_of(&mut ops) + 1isize.size_of(&mut ops), 0);
    assert_eq!(AtomicBool::new(true).size_of(&mut ops), 0);
    assert_eq!(AtomicIsize::new(1).size_of(&mut ops), 0);
    assert_eq!(AtomicUsize::new(1).size_of(&mut ops), 0);
    assert_eq!((0u8..9).size_of(&mut ops) + (0u16..9).size_of(&mut ops), 0);
    assert_eq!((0u32..9).size_of(&mut ops) + (0u64..9).size_of(&mut ops), 0);
    assert_eq!((0usize..9).size_of(&mut ops) + (0isize..9).size_of(&mut ops), 0);
    assert_eq!((0i8..9).size_of(&mut ops) + (0i16..9).size_of(&mut ops), 0);
    assert_eq!((0i32..9).size_of(&mut ops) + (0i64..9).size_of(&mut ops), 0);
    assert_eq!(PhantomData::<String>.size_of(&mut ops), 0);
}

#[test]
fn place_for_a_value_is_a_part_of_it() {
    let mut ops = each(5);
    assert_eq!(MaybeUninit::new(7u64).size_of(&mut ops), 0);
    assert_eq!(MaybeUninit::<u64>::uninit().size_of(&mut ops), 0);
    let boxed = Box::new(MaybeUninit::<[u16; 5]>::uninit());
    assert_eq!(boxed.size_of(&mut ops), 5);
}

#[test]
fn measurable_stands_for_the_value_in_it() {
    let mut value = Measurable(vec![1u8]);
    assert_eq!(value.len(), 1);
    value.push(2);
    assert_eq!(value.0, vec![1, 2]);
    assert_eq!(value.size_of(&mut each(5)), 5);
    assert_eq!(value.clone().0.len(), 2);
}

#[test]
fn ordered_tables_are_found_by_their_least_key() {
    // Large enough for several nodes.
    let items: BTreeSet<u32> = (0..1000).rev().collect();
    let least = std::ptr::from_ref(items.get(&0).unwrap()).addr();
    assert_eq!(items.shallow_size_of(&mut around(least, 300)), 300);
    let map: BTreeMap<u32, u64> = (0..1000).rev().map(|key| (key, 1)).collect();
    let least = std::ptr::from_ref(&map[&0]).addr();
    assert_eq!(map.shallow_size_of(&mut around(least, 300)), 300);
}
