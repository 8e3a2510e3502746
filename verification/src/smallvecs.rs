//! The small vectors used by the IR jump tables, behind specified wrappers.
//!
//! `smallvec::SmallVec` is an outside collection: each concrete instantiation
//! is held in a struct whose field Verus does not see, with a name for its
//! contents, and each method used by the IR gets a wrapper that states, over
//! that name, what the crate's source shows the method does.

use smallvec::SmallVec;
use vstd::prelude::*;

use crate::ir::BasicBlock;

verus! {

/// The values of a jump table, held in a `SmallVec<[u128; 1]>`.
#[verifier::external_body]
#[derive(Debug, PartialEq, Eq)]
pub struct SwitchValues {
    inner: SmallVec<[u128; 1]>,
}

/// The blocks of a jump table, held in a `SmallVec<[BasicBlock; 1]>`.
#[verifier::external_body]
#[derive(Debug, PartialEq, Eq)]
pub struct SwitchBlocks {
    inner: SmallVec<[BasicBlock; 1]>,
}

/// The successors of a block, held in a `SmallVec<[BasicBlock; 4]>`.
#[verifier::external_body]
#[derive(Debug, PartialEq, Eq)]
pub struct SuccessorBlocks {
    inner: SmallVec<[BasicBlock; 4]>,
}

/// The elements held by a jump-table value vector, in order.
pub uninterp spec fn switch_values_of(v: SwitchValues) -> Seq<u128>;

/// The elements held by a jump-table block vector, in order.
pub uninterp spec fn switch_blocks_of(v: SwitchBlocks) -> Seq<BasicBlock>;

/// The elements held by a successor list, in order.
pub uninterp spec fn successor_blocks_of(v: SuccessorBlocks) -> Seq<BasicBlock>;

/// `SmallVec::new`: an empty vector.
#[verifier::external_body]
pub(crate) fn values_new() -> (r: SwitchValues)
    ensures
        switch_values_of(r) == Seq::<u128>::empty(),
{
    SwitchValues { inner: SmallVec::new() }
}

/// `SmallVec::push`: appends one element at the end (the length must be
/// below `usize::MAX`, else the capacity computation panics).
#[verifier::external_body]
pub(crate) fn values_push(v: &mut SwitchValues, x: u128)
    requires
        switch_values_of(*old(v)).len() < usize::MAX,
    ensures
        switch_values_of(*final(v)) == switch_values_of(*old(v)).push(x),
{
    v.inner.push(x)
}

/// `SmallVec::len`: the number of elements.
#[verifier::external_body]
pub(crate) fn values_len(v: &SwitchValues) -> (r: usize)
    ensures
        r == switch_values_of(*v).len(),
{
    v.inner.len()
}

/// Indexing a `SmallVec` within bounds: the element at that position.
#[verifier::external_body]
pub(crate) fn values_get(v: &SwitchValues, i: usize) -> (r: u128)
    requires
        i < switch_values_of(*v).len(),
    ensures
        r == switch_values_of(*v)[i as int],
{
    v.inner[i]
}

/// `SmallVec::new`: an empty vector.
#[verifier::external_body]
pub(crate) fn blocks_new() -> (r: SwitchBlocks)
    ensures
        switch_blocks_of(r) == Seq::<BasicBlock>::empty(),
{
    SwitchBlocks { inner: SmallVec::new() }
}

/// `SmallVec::push`: appends one element at the end.
#[verifier::external_body]
pub(crate) fn blocks_push(v: &mut SwitchBlocks, x: BasicBlock)
    requires
        switch_blocks_of(*old(v)).len() < usize::MAX,
    ensures
        switch_blocks_of(*final(v)) == switch_blocks_of(*old(v)).push(x),
{
    v.inner.push(x)
}

/// `SmallVec::len`: the number of elements.
#[verifier::external_body]
pub(crate) fn blocks_len(v: &SwitchBlocks) -> (r: usize)
    ensures
        r == switch_blocks_of(*v).len(),
{
    v.inner.len()
}

/// Indexing a `SmallVec` within bounds: the element at that position.
#[verifier::external_body]
pub(crate) fn blocks_get(v: &SwitchBlocks, i: usize) -> (r: BasicBlock)
    requires
        i < switch_blocks_of(*v).len(),
    ensures
        r == switch_blocks_of(*v)[i as int],
{
    v.inner[i]
}

/// Assigning through `IndexMut` within bounds: only that position changes.
#[verifier::external_body]
pub(crate) fn blocks_set(v: &mut SwitchBlocks, i: usize, x: BasicBlock)
    requires
        i < switch_blocks_of(*old(v)).len(),
    ensures
        switch_blocks_of(*final(v)) == switch_blocks_of(*old(v)).update(i as int, x),
{
    v.inner[i] = x;
}

/// `SmallVec::new`: an empty vector.
#[verifier::external_body]
pub(crate) fn successors_new() -> (r: SuccessorBlocks)
    ensures
        successor_blocks_of(r) == Seq::<BasicBlock>::empty(),
{
    SuccessorBlocks { inner: SmallVec::new() }
}

/// `SmallVec::push`: appends one element at the end.
#[verifier::external_body]
pub(crate) fn successors_push(v: &mut SuccessorBlocks, x: BasicBlock)
    requires
        successor_blocks_of(*old(v)).len() < usize::MAX,
    ensures
        successor_blocks_of(*final(v)) == successor_blocks_of(*old(v)).push(x),
{
    v.inner.push(x)
}

} // verus!
