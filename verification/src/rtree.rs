//! R-trees, as the `rstar` crate lays them out.
//!
//! A tree of that crate is measured by way of the nodes here, which borrow its
//! items and say where its blocks lie.
use crate::checked::{came_out, checked_step, MallocCheckedSizeOf};
use crate::measurement::{
    lemma_then_all_first_fits, lemma_then_all_prefix_fits, lemma_then_all_step, Measurement,
};
use crate::ops::{MallocSizeOfOps, OpsModel, Target};
use crate::traits::MallocSizeOf;
use crate::walk::on_wasm;
use vstd::prelude::*;

verus! {

/// A node of an R-tree.
pub enum RTreeNode<'a, T> {
    /// An item.
    Leaf(&'a T),
    /// A node with nodes below it.
    Parent(ParentNode<'a, T>),
}

/// A node of an R-tree with nodes below it.
pub struct ParentNode<'a, T> {
    /// The address of the block that the children lie in.
    pub block: usize,
    /// The nodes below this one.
    pub children: Vec<RTreeNode<'a, T>>,
}

/// An R-tree.
pub struct RTree<'a, T> {
    /// The topmost node.
    pub root: ParentNode<'a, T>,
}

/// The block of a parent's children.
pub open spec fn children_block(block: usize) -> Measurement {
    Measurement::when(on_wasm(), Measurement::nothing(), Measurement::block(block))
}

/// What measuring `node` may return.
pub open spec fn node_measurement<T: MallocSizeOf>(node: RTreeNode<T>) -> Measurement
    decreases node,
{
    match node {
        RTreeNode::Leaf(item) => item.measurement(),
        RTreeNode::Parent(parent) => parent_measurement(parent),
    }
}

/// What measuring `parent` may return: the block of its children, and then each
/// of them.
pub open spec fn parent_measurement<T: MallocSizeOf>(parent: ParentNode<T>) -> Measurement
    decreases parent,
{
    children_block(parent.block).then_all(children_measurements(parent.children))
}

/// What measuring each of `children` may return.
pub open spec fn children_measurements<T: MallocSizeOf>(children: Vec<RTreeNode<T>>) -> Seq<
    Measurement,
>
    decreases children,
{
    Seq::new(
        children@.len(),
        |i: int|
            if 0 <= i < children@.len() {
                node_measurement(children@[i])
            } else {
                Measurement::nothing()
            },
    )
}

/// The size of `node`.
fn node_size_of<T: MallocSizeOf>(node: &RTreeNode<T>, ops: &mut MallocSizeOfOps) -> (n: usize)
    requires
        node_measurement(*node).fits(old(ops)@),
    ensures
        node_measurement(*node).yields(old(ops)@, final(ops)@, n as nat),
        final(ops)@.continues(old(ops)@),
    decreases node,
{
    match node {
        RTreeNode::Leaf(item) => (**item).size_of(ops),
        RTreeNode::Parent(parent) => parent_size_of(parent, ops),
    }
}

/// The size of `parent`.
fn parent_size_of<T: MallocSizeOf>(parent: &ParentNode<T>, ops: &mut MallocSizeOfOps) -> (n: usize)
    requires
        parent_measurement(*parent).fits(old(ops)@),
    ensures
        parent_measurement(*parent).yields(old(ops)@, final(ops)@, n as nat),
        final(ops)@.continues(old(ops)@),
    decreases parent,
{
    let ghost origin = ops@;
    let ghost first = children_block(parent.block);
    let ghost rest = children_measurements(parent.children);
    proof {
        lemma_then_all_first_fits(first, rest, origin);
    }
    let mut n: usize = match ops.target() {
        Target::Wasm => 0,
        Target::Native => ops.malloc_size_of(parent.block),
    };
    assert(rest.take(0) =~= Seq::<Measurement>::empty());
    for i in 0..parent.children.len()
        invariant
            rest == children_measurements(parent.children),
            ops@.continues(old(ops)@),
            first.then_all(rest).fits(origin),
            first.then_all(rest.take(i as int)).yields(origin, ops@, n as nat),
    {
        proof {
            lemma_then_all_prefix_fits(first, rest, i + 1, origin);
            lemma_then_all_step(first, rest, i as int);
        }
        let size = node_size_of(&parent.children[i], ops);
        n = n + size;
    }
    assert(rest.take(parent.children@.len() as int) =~= rest);
    n
}

/// The size of `node`, or `None` where it cannot be measured.
fn checked_node_size_of<T: MallocCheckedSizeOf>(
    node: &RTreeNode<T>,
    ops: &mut MallocSizeOfOps,
) -> (n: Option<usize>)
    ensures
        came_out(node_measurement(*node), old(ops)@, final(ops)@, n),
        final(ops)@.continues(old(ops)@),
    decreases node,
{
    match node {
        RTreeNode::Leaf(item) => (**item).checked_size_of(ops),
        RTreeNode::Parent(parent) => checked_parent_size_of(parent, ops),
    }
}

/// The size of `parent`, or `None` where it cannot be measured.
fn checked_parent_size_of<T: MallocCheckedSizeOf>(
    parent: &ParentNode<T>,
    ops: &mut MallocSizeOfOps,
) -> (n: Option<usize>)
    ensures
        came_out(parent_measurement(*parent), old(ops)@, final(ops)@, n),
        final(ops)@.continues(old(ops)@),
    decreases parent,
{
    let ghost origin = ops@;
    let ghost first = children_block(parent.block);
    let ghost rest = children_measurements(parent.children);
    let mut n: usize = match ops.target() {
        Target::Wasm => 0,
        Target::Native => ops.malloc_size_of(parent.block),
    };
    assert(rest.take(0) =~= Seq::<Measurement>::empty());
    for i in 0..parent.children.len()
        invariant
            origin == old(ops)@,
            first == children_block(parent.block),
            rest == children_measurements(parent.children),
            ops@.continues(old(ops)@),
            first.then_all(rest.take(i as int)).yields(origin, ops@, n as nat),
    {
        let ghost before = ops@;
        let size = checked_node_size_of(&parent.children[i], ops);
        match checked_step(
            n,
            size,
            Ghost(first),
            Ghost(rest),
            Ghost(i as int),
            Ghost(origin),
            Ghost(before),
            Ghost(ops@),
        ) {
            Some(sum) => {
                n = sum;
            },
            None => return None,
        }
    }
    assert(rest.take(parent.children@.len() as int) =~= rest);
    Some(n)
}

impl<'a, T: MallocSizeOf> MallocSizeOf for ParentNode<'a, T> {
    open spec fn measurement(&self) -> Measurement {
        parent_measurement(*self)
    }

    fn size_of(&self, ops: &mut MallocSizeOfOps) -> (n: usize) {
        parent_size_of(self, ops)
    }
}

impl<'a, T: MallocCheckedSizeOf> MallocCheckedSizeOf for ParentNode<'a, T> {
    fn checked_size_of(&self, ops: &mut MallocSizeOfOps) -> (n: Option<usize>) {
        checked_parent_size_of(self, ops)
    }
}

impl<'a, T: MallocSizeOf> MallocSizeOf for RTreeNode<'a, T> {
    open spec fn measurement(&self) -> Measurement {
        node_measurement(*self)
    }

    fn size_of(&self, ops: &mut MallocSizeOfOps) -> (n: usize) {
        node_size_of(self, ops)
    }
}

impl<'a, T: MallocCheckedSizeOf> MallocCheckedSizeOf for RTreeNode<'a, T> {
    fn checked_size_of(&self, ops: &mut MallocSizeOfOps) -> (n: Option<usize>) {
        checked_node_size_of(self, ops)
    }
}

impl<'a, T: MallocSizeOf> MallocSizeOf for RTree<'a, T> {
    open spec fn measurement(&self) -> Measurement {
        self.root.measurement()
    }

    fn size_of(&self, ops: &mut MallocSizeOfOps) -> (n: usize) {
        self.root.size_of(ops)
    }
}

impl<'a, T: MallocCheckedSizeOf> MallocCheckedSizeOf for RTree<'a, T> {
    fn checked_size_of(&self, ops: &mut MallocSizeOfOps) -> (n: Option<usize>) {
        self.root.checked_size_of(ops)
    }
}

} // verus!
