//! Measurements with an allocator that reports the size of each block.
use euclid::Angle;
use hibitset::BitSet;
use malloc_size_of::rtree::{ParentNode, RTree, RTreeNode};
use malloc_size_of::{InlineVec, MallocSizeOf, MallocSizeOfOps};
use rstar::{RTreeObject, AABB};
use smallvec::SmallVec;

/// Operations that know the blocks of a table and no others.
fn knowing(blocks: Vec<(usize, usize)>) -> MallocSizeOfOps {
    MallocSizeOfOps::default(move |ptr: usize| {
        match blocks.iter().find(|block| block.0 == ptr) {
            Some(block) => block.1,
            None => panic!("{} is not the address of a block", ptr),
        }
    })
}

/// The bytes that a vector of `len` words has grown to.
fn grown(len: usize) -> usize {
    len.next_power_of_two().max(4) * 8
}

/// Operations that know the layers of a bit set.
fn knowing_layers(bit_set: &BitSet) -> MallocSizeOfOps {
    let layers = [
        bit_set.layer0_as_slice(),
        bit_set.layer1_as_slice(),
        bit_set.layer2_as_slice(),
    ];
    knowing(
        layers
            .iter()
            .map(|layer| (layer.as_ptr().addr(), grown(layer.len())))
            .collect(),
    )
}

#[test]
fn test_boxed_slice() {
    // The size of the block is what was asked for on some allocators, and is
    // rounded up to a multiple of sixteen on others.
    let boxed_slice: Box<[i32; 3]> = Box::new([1, 2, 3]);
    let at = boxed_slice.as_ptr().addr();
    let mut ops = knowing(vec![(at, 3 * 4 + 4)]);
    assert_eq!(boxed_slice.size_of(&mut ops), 3 * 4 + 4);
    let mut ops = knowing(vec![(at, 3 * 4)]);
    assert_eq!(boxed_slice.size_of(&mut ops), 3 * 4);

    let slice = &[1, 2, 3];
    let mut ops = knowing(vec![]);
    assert_eq!(slice.size_of(&mut ops), 0);
}

#[test]
fn test_bit_set() {
    let mut bit_set = BitSet::new();
    bit_set.add(1);
    let mut ops = knowing_layers(&bit_set);
    assert_eq!(bit_set.size_of(&mut ops), 96);
}

#[test]
fn test_large_bit_set() {
    let mut bit_set = BitSet::new();
    for i in 0..100_000 {
        bit_set.add(i);
    }
    let mut ops = knowing_layers(&bit_set);
    assert_eq!(bit_set.size_of(&mut ops), 16672);
}

#[test]
fn test_small_vec() {
    let mut inner: SmallVec<[u32; 4]> = SmallVec::new();
    for i in 1..5 {
        inner.push(i);
    }
    let small_vec: Box<InlineVec<u32, 4>> = Box::new(InlineVec { inner });
    let at = std::ptr::from_ref(&*small_vec).addr();
    let mut ops = knowing(vec![(at, std::mem::size_of::<SmallVec<[u32; 4]>>())]);
    assert_eq!(small_vec.size_of(&mut ops), 32);
}

/// A number of radians.
#[derive(Clone, Copy)]
struct Radians(f64);

impl MallocSizeOf for Radians {
    fn size_of(&self, _ops: &mut MallocSizeOfOps) -> usize {
        0
    }
}

#[test]
fn test_euclid_angle() {
    let mut ops = knowing(vec![]);
    let angle = Angle::radians(Radians(1.0));
    assert_eq!(angle.radians.0, 1.0);
    assert_eq!(angle.size_of(&mut ops), 0);
    let boxed = Box::new(angle);
    let at = std::ptr::from_ref(&*boxed).addr();
    let mut ops = knowing(vec![(at, 8)]);
    assert_eq!(boxed.size_of(&mut ops), 8);
    let mut ops = knowing(vec![(at, 16)]);
    assert_eq!(boxed.size_of(&mut ops), 16);
}

/// A point in the plane.
struct Point([f32; 2]);

impl RTreeObject for Point {
    type Envelope = AABB<[f32; 2]>;

    fn envelope(&self) -> AABB<[f32; 2]> {
        AABB::from_point(self.0)
    }
}

impl MallocSizeOf for Point {
    fn size_of(&self, _ops: &mut MallocSizeOfOps) -> usize {
        0
    }
}

/// The nodes below a node of an R-tree.
fn parent(node: &rstar::ParentNode<Point>) -> ParentNode<'_, Point> {
    ParentNode {
        block: node.children().as_ptr().addr(),
        children: node
            .children()
            .iter()
            .map(|child| match child {
                rstar::RTreeNode::Leaf(point) => RTreeNode::Leaf(point),
                rstar::RTreeNode::Parent(below) => RTreeNode::Parent(parent(below)),
            })
            .collect(),
    }
}

#[test]
fn test_rstar() {
    let mut points = rstar::RTree::new();
    points.insert(Point([0.1, 0.0f32]));
    points.insert(Point([0.2, 0.1]));
    points.insert(Point([0.3, 0.0]));
    let tree = RTree { root: parent(points.root()) };
    assert_eq!(tree.root.children.len(), 3);
    // One block with room for seven nodes of 48 bytes.
    let mut ops = knowing(vec![(points.root().children().as_ptr().addr(), 7 * 48)]);
    assert_eq!(tree.size_of(&mut ops), 336);
}

#[test]
fn test_json_value() {
    let v = serde_json::Value::from("hello");
    let blocks = match &v {
        serde_json::Value::String(s) => vec![(s.as_ptr().addr(), s.capacity())],
        _ => vec![],
    };
    let mut ops = knowing(blocks);
    assert_eq!(v.size_of(&mut ops), 5);
}
