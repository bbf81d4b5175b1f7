//! The types of other crates.
use arrayvec::ArrayString;
use beach_map::BeachMap;
use euclid::{
    Angle, Length, Point2D, Rect, Scale, SideOffsets2D, Size2D, Transform2D, Transform3D,
    UnknownUnit, Vector2D,
};
use hibitset::BitSet;
use lyon::lyon_tessellation::VertexBuffers;
use malloc_size_of::host::domain_size_of;
use malloc_size_of::rtree::{ParentNode, RTree, RTreeNode};
use malloc_size_of::{
    ByteBuffer, InlineVec, MallocCheckedShallowSizeOf, MallocCheckedSizeOf, MallocShallowSizeOf,
    MallocSizeOf, MallocSizeOfOps, Target,
};
use serde_bytes::ByteBuf;
use serde_json::Value;
use smallbitvec::SmallBitVec;
use smallvec::SmallVec;
use specs::prelude::{ComponentEvent, Entity, ReaderId};
use specs::shrev::EventChannel;
use specs::world::{Builder, World, WorldExt};
use std::collections::hash_map::RandomState;
use std::marker::PhantomData;
use std::mem::size_of;
use string_cache::{Atom, EmptyStaticAtomSet};
use url::Host;
use void::Void;

type SizeFn = fn(usize) -> usize;

/// Operations that report the same size for every block.
fn each(size: usize) -> MallocSizeOfOps {
    MallocSizeOfOps::new(move |_ptr: usize| size, None::<SizeFn>, None)
}

/// Operations that report the block at one address and no other.
fn only(at: usize, size: usize) -> MallocSizeOfOps {
    MallocSizeOfOps::new(
        move |ptr: usize| {
            assert_eq!(ptr, at);
            size
        },
        None::<SizeFn>,
        None,
    )
}

/// Operations that report a block around one address and no other block.
fn around(at: usize, size: usize) -> MallocSizeOfOps {
    MallocSizeOfOps::new(
        move |ptr: usize| panic!("asked for {}", ptr),
        Some(move |ptr: usize| {
            assert_eq!(ptr, at);
            size
        }),
        None,
    )
}

/// Operations for WebAssembly.
fn wasm() -> MallocSizeOfOps {
    MallocSizeOfOps::default_wasm()
}

fn s() -> String {
    String::from("x")
}

#[test]
fn byte_buffer_is_its_buffer() {
    let buffer = ByteBuffer { inner: ByteBuf::from(vec![1, 2, 3]) };
    let at = buffer.inner.as_ptr().addr();
    assert_eq!(buffer.shallow_size_of(&mut only(at, 3)), 3);
    assert_eq!(buffer.size_of(&mut only(at, 3)), 3);
    assert_eq!(buffer.size_of(&mut only(at, 3).on(Target::Wasm)), 3);
    assert_eq!(ByteBuffer { inner: ByteBuf::new() }.size_of(&mut each(5)), 0);
}

#[test]
fn inline_vec_has_no_buffer_until_it_spills() {
    let mut items: InlineVec<String, 2> = InlineVec { inner: SmallVec::new() };
    assert_eq!(items.size_of(&mut each(5)), 0);
    items.inner.push(s());
    items.inner.push(s());
    assert_eq!(items.shallow_size_of(&mut each(5)), 0);
    assert_eq!(items.size_of(&mut each(5)), 10);
    assert_eq!(items.shallow_size_of(&mut wasm()), 0);
    items.inner.push(s());
    assert!(items.inner.spilled());
    let at = items.inner.as_ptr().addr();
    assert_eq!(items.shallow_size_of(&mut only(at, 100)), 100);
    assert_eq!(items.size_of(&mut each(5)), 20);
    assert_eq!(items.shallow_size_of(&mut wasm()), size_of::<[String; 2]>());
    assert_eq!(items.size_of(&mut wasm()), size_of::<[String; 2]>() + 24);
}

#[test]
fn bit_vec_has_no_block_until_it_needs_one() {
    let few = SmallBitVec::from_elem(10, true);
    assert_eq!(few.size_of(&mut each(5)), 0);
    let many = SmallBitVec::from_elem(1000, true);
    let at = many.heap_ptr().unwrap().addr();
    assert_eq!(many.size_of(&mut only(at, 144)), 144);
}

#[test]
fn bit_set_is_its_layers() {
    assert_eq!(BitSet::new().size_of(&mut each(5)), 0);
    let mut bits = BitSet::new();
    bits.add(70);
    assert_eq!(bits.size_of(&mut each(5)), 15);
    assert_eq!(bits.size_of(&mut wasm()), 0);
    let lowest = bits.layer0_as_slice().as_ptr().addr();
    let mut ops = MallocSizeOfOps::default(move |ptr| if ptr == lowest { 100 } else { 1 });
    assert_eq!(bits.size_of(&mut ops), 102);
}

#[test]
fn vertex_buffers_are_both_buffers() {
    let mut wide: VertexBuffers<String, u32> = VertexBuffers { vertices: vec![], indices: vec![] };
    assert_eq!(wide.size_of(&mut each(5)), 0);
    wide.vertices.push(s());
    assert_eq!(wide.size_of(&mut each(5)), 10);
    wide.indices.push(0);
    assert_eq!(wide.size_of(&mut each(5)), 15);
    let narrow: VertexBuffers<u8, u16> = VertexBuffers { vertices: vec![1], indices: vec![0, 0] };
    assert_eq!(narrow.size_of(&mut each(5)), 10);
}

#[test]
fn every_coordinate_counts() {
    let mut ops = each(5);
    let length: Length<String, UnknownUnit> = Length::new(s());
    assert_eq!(length.size_of(&mut ops), 5);
    let scale: Scale<String, UnknownUnit, UnknownUnit> = Scale::new(s());
    assert_eq!(scale.size_of(&mut ops), 5);
    assert_eq!(Angle::radians(s()).size_of(&mut ops), 5);
    let point: Point2D<String, UnknownUnit> = Point2D::new(s(), s());
    assert_eq!(point.size_of(&mut ops), 10);
    let vector: Vector2D<String, UnknownUnit> = Vector2D::new(s(), String::new());
    assert_eq!(vector.size_of(&mut ops), 5);
    let size: Size2D<String, UnknownUnit> = Size2D::new(String::new(), s());
    assert_eq!(size.size_of(&mut ops), 5);
    let rect = Rect::new(point, size);
    assert_eq!(rect.size_of(&mut ops), 15);
    let sides: SideOffsets2D<String, UnknownUnit> = SideOffsets2D::new(s(), s(), s(), s());
    assert_eq!(sides.size_of(&mut ops), 20);
}

#[test]
fn every_element_of_a_matrix_counts() {
    let mut ops = each(5);
    let flat: Transform2D<String, UnknownUnit, UnknownUnit> = Transform2D {
        m11: s(),
        m12: s(),
        m21: s(),
        m22: s(),
        m31: s(),
        m32: s(),
        _unit: PhantomData,
    };
    assert_eq!(flat.size_of(&mut ops), 30);
    let solid: Transform3D<String, UnknownUnit, UnknownUnit> = Transform3D {
        m11: s(),
        m12: s(),
        m13: s(),
        m14: s(),
        m21: s(),
        m22: s(),
        m23: s(),
        m24: s(),
        m31: s(),
        m32: s(),
        m33: s(),
        m34: s(),
        m41: s(),
        m42: s(),
        m43: s(),
        m44: s(),
        _unit: PhantomData,
    };
    assert_eq!(solid.size_of(&mut ops), 80);
}

#[test]
fn nothing_of_their_own() {
    let mut ops = each(5);
    assert_eq!(None::<Void>.size_of(&mut ops), 0);
    let atom: Atom<EmptyStaticAtomSet> = Atom::from("a string that is not kept in the atom");
    assert_eq!(atom.size_of(&mut ops), 0);
    assert_eq!(time::Duration::seconds(5).size_of(&mut ops), 0);
    assert_eq!(time::empty_tm().size_of(&mut ops), 0);
    assert_eq!(ArrayString::<16>::new().size_of(&mut ops), 0);
    assert_eq!(ArrayString::<8>::from("inline").unwrap().size_of(&mut ops), 0);
    let mut slots: BeachMap<u32, String> = BeachMap::default();
    let id = slots.insert(s());
    assert_eq!(slots.size_of(&mut ops), 0);
    assert_eq!(id.size_of(&mut ops), 0);
}

#[test]
fn entities_and_events() {
    let mut ops = each(5);
    let mut world = World::new();
    let entity: Entity = world.create_entity().build();
    assert_eq!(entity.size_of(&mut ops), 0);
    assert_eq!(ComponentEvent::Inserted(1).size_of(&mut ops), 0);
    let mut channel: EventChannel<u32> = EventChannel::new();
    let reader: ReaderId<u32> = channel.register_reader();
    assert_eq!(reader.size_of(&mut ops), 0);
}

#[test]
fn only_a_domain_name_is_on_the_heap() {
    let name: Host<String> = Host::parse("example.org").unwrap();
    assert_eq!(name.size_of(&mut each(5)), 5);
    assert_eq!(name.size_of(&mut wasm()), 88);
    let address: Host<String> = Host::parse("127.0.0.1").unwrap();
    assert_eq!(address.size_of(&mut each(5)), 0);
    let address: Host<String> = Host::parse("[::1]").unwrap();
    assert_eq!(address.size_of(&mut each(5)), 0);
    assert_eq!(domain_size_of(Some(&s()), &mut each(5)), 5);
    assert_eq!(domain_size_of(None, &mut each(5)), 0);
}

#[test]
fn hashbrown_map_is_found_by_a_value() {
    let mut map: hashbrown::HashMap<u32, String, RandomState> =
        hashbrown::HashMap::with_hasher(RandomState::new());
    assert_eq!(map.shallow_size_of(&mut around(0, 0)), 0);
    assert_eq!(map.size_of(&mut each(5)), 0);
    map.insert(1, s());
    map.insert(2, s());
    let first = std::ptr::from_ref(map.values().next().unwrap()).addr();
    assert_eq!(map.shallow_size_of(&mut around(first, 200)), 200);
    assert_eq!(map.checked_shallow_size_of(&mut around(first, 200)), Some(200));
    let table = map.capacity() * (size_of::<String>() + size_of::<u32>() + size_of::<usize>());
    assert_eq!(map.shallow_size_of(&mut each(5)), table);
    assert_eq!(map.checked_shallow_size_of(&mut each(5)), Some(table));
    assert_eq!(map.size_of(&mut each(5)), table + 10);
    assert_eq!(map.checked_size_of(&mut each(5)), Some(table + 10));
}

#[test]
fn hashbrown_map_with_a_key_twice_counts_both_entries() {
    let mut map: hashbrown::HashMap<u32, String, RandomState> =
        hashbrown::HashMap::with_hasher(RandomState::new());
    map.insert(1, s());
    match map.raw_entry_mut().from_hash(7, |_| false) {
        hashbrown::hash_map::RawEntryMut::Vacant(entry) => {
            entry.insert(1, s());
        }
        hashbrown::hash_map::RawEntryMut::Occupied(_) => unreachable!(),
    }
    assert_eq!(map.len(), 2);
    assert_eq!(map.keys().next(), map.keys().nth(1));
    let walk: Vec<usize> = map.values().map(|v| std::ptr::from_ref(v).addr()).collect();
    let again: Vec<usize> = map.values().map(|v| std::ptr::from_ref(v).addr()).collect();
    assert_eq!(walk, again);
    let table = map.capacity() * (size_of::<String>() + size_of::<u32>() + size_of::<usize>());
    assert_eq!(map.size_of(&mut each(5)), table + 10);
    assert_eq!(map.checked_size_of(&mut each(5)), Some(table + 10));
}

#[test]
fn json_scalars_own_nothing() {
    let mut ops = each(5);
    assert_eq!(Value::Null.size_of(&mut ops), 0);
    assert_eq!(Value::from(true).size_of(&mut ops), 0);
    assert_eq!(Value::from(12).size_of(&mut ops), 0);
    assert_eq!(Value::from("").size_of(&mut ops), 0);
}

#[test]
fn json_array_is_its_buffer_and_its_items() {
    let inner = Value::from(vec![Value::from("b"), Value::Null]);
    assert_eq!(inner.size_of(&mut each(5)), 10);
    let outer = Value::from(vec![Value::from("a"), inner, Value::from(1)]);
    assert_eq!(outer.size_of(&mut each(5)), 20);
    let empty: Vec<Value> = Vec::new();
    assert_eq!(Value::from(empty).size_of(&mut each(5)), 0);
    let items = vec![Value::from("a"), Value::from("b")];
    assert_eq!(Value::from(items.clone()).size_of(&mut each(5)), items.size_of(&mut each(5)));
}

#[test]
fn json_array_is_estimated_on_wasm() {
    let items = vec![Value::from("ab"), Value::Null];
    let buffer = items.capacity() * size_of::<Value>();
    assert_eq!(Value::from(items).size_of(&mut wasm()), buffer + 16);
}

#[test]
fn json_object_is_its_keys_and_values() {
    let mut entries = serde_json::Map::new();
    entries.insert(String::from("k"), Value::from("v"));
    entries.insert(String::from("l"), Value::from(vec![Value::from("w")]));
    entries.insert(String::from("m"), Value::Null);
    let object = Value::Object(entries);
    assert_eq!(object.size_of(&mut each(5)), 30);
    assert_eq!(Value::Object(serde_json::Map::new()).size_of(&mut each(5)), 0);
}

#[test]
fn rtree_is_its_blocks_and_its_items() {
    let items = [s(), s(), s()];
    let lower = ParentNode {
        block: 2000,
        children: vec![RTreeNode::Leaf(&items[0]), RTreeNode::Leaf(&items[1])],
    };
    let root = ParentNode {
        block: 1000,
        children: vec![RTreeNode::Parent(lower), RTreeNode::Leaf(&items[2])],
    };
    let tree = RTree { root };
    let mut ops = MallocSizeOfOps::default(|ptr| match ptr {
        1000 => 700,
        2000 => 300,
        _ => 1,
    });
    assert_eq!(tree.size_of(&mut ops), 1003);
    assert_eq!(tree.root.size_of(&mut ops), 1003);
    assert_eq!(tree.root.children[0].size_of(&mut ops), 302);
    assert_eq!(tree.root.children[1].size_of(&mut ops), 1);
    assert_eq!(tree.size_of(&mut wasm()), 24);
    let empty: RTree<'_, String> = RTree { root: ParentNode { block: 8, children: vec![] } };
    assert_eq!(empty.size_of(&mut ops), 0);
}

#[test]
fn checked_sizes_are_the_same_where_they_fit() {
    let mut ops = each(5);
    let buffer = ByteBuffer { inner: ByteBuf::from(vec![1, 2, 3]) };
    assert_eq!(buffer.checked_size_of(&mut ops), Some(5));
    let mut items: InlineVec<String, 1> = InlineVec { inner: SmallVec::new() };
    items.inner.push(s());
    assert_eq!(items.checked_size_of(&mut ops), Some(5));
    items.inner.push(s());
    assert_eq!(items.checked_size_of(&mut ops), Some(15));
    assert_eq!(SmallBitVec::from_elem(1000, true).checked_size_of(&mut ops), Some(5));
    let mut bits = BitSet::new();
    bits.add(70);
    assert_eq!(bits.checked_size_of(&mut ops), Some(15));
    let buffers: VertexBuffers<u8, u16> = VertexBuffers { vertices: vec![1], indices: vec![0] };
    assert_eq!(buffers.checked_size_of(&mut ops), Some(10));
    let point: Point2D<String, UnknownUnit> = Point2D::new(s(), s());
    assert_eq!(point.checked_size_of(&mut ops), Some(10));
    let sides: SideOffsets2D<String, UnknownUnit> = SideOffsets2D::new(s(), s(), s(), s());
    assert_eq!(sides.checked_size_of(&mut ops), Some(20));
    let name: Host<String> = Host::parse("example.org").unwrap();
    assert_eq!(name.checked_size_of(&mut ops), Some(5));
    let mut entries = serde_json::Map::new();
    entries.insert(s(), Value::from(vec![Value::from("a"), Value::Null]));
    assert_eq!(Value::Object(entries).checked_size_of(&mut ops), Some(15));
    let item = s();
    let root = ParentNode { block: 1000, children: vec![RTreeNode::Leaf(&item)] };
    assert_eq!(RTree { root }.checked_size_of(&mut ops), Some(10));
}

#[test]
fn checked_sums_that_do_not_fit_are_reported() {
    let mut ops = each(usize::MAX);
    let mut bits = BitSet::new();
    bits.add(70);
    assert_eq!(bits.checked_size_of(&mut ops), None);
    let point: Point2D<String, UnknownUnit> = Point2D::new(s(), s());
    assert_eq!(point.checked_size_of(&mut ops), None);
    let sides: SideOffsets2D<String, UnknownUnit> =
        SideOffsets2D::new(s(), String::new(), String::new(), s());
    assert_eq!(sides.checked_size_of(&mut ops), None);
    let mut entries = serde_json::Map::new();
    entries.insert(s(), Value::from("a"));
    assert_eq!(Value::Object(entries).checked_size_of(&mut ops), None);
    assert_eq!(Value::from(vec![Value::from("a")]).checked_size_of(&mut ops), None);
    let item = s();
    let root = ParentNode { block: 1000, children: vec![RTreeNode::Leaf(&item)] };
    assert_eq!(RTree { root }.checked_size_of(&mut ops), None);
}
