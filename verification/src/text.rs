//! Positions in the text of one buffer.

use std::collections::HashMap;
use vstd::prelude::*;

verus! {

broadcast use vstd::std_specs::hash::group_hash_axioms;

/// The identity of a buffer, shared by everyone who has the buffer open.
#[derive(Clone, Copy, Debug, PartialEq, Eq, Structural)]
pub struct BufferId {
    pub raw: u64,
}

/// A position in a buffer's text that edits carry along.
///
/// The handle names the position. Where it lies relative to other positions is known only
/// to a `BufferSnapshot`.
#[derive(Clone, Copy, Debug, PartialEq, Eq, Structural)]
pub struct Anchor {
    pub handle: u64,
}

/// The identity of one state of a buffer's text.
#[derive(Clone, Copy, Debug, PartialEq, Eq, Structural)]
pub struct SnapshotId {
    pub raw: u64,
}

/// One state of a buffer's text, as far as the order of its anchors goes.
///
/// `positions` maps the handle of each anchor of the buffer to a number. Of two anchors the
/// one with the smaller number comes first, and anchors with one number coincide.
#[derive(Debug)]
pub struct BufferSnapshot {
    pub id: SnapshotId,
    pub positions: HashMap<u64, u64>,
}

impl BufferSnapshot {
    /// Whether `a` and `b` are anchors of this buffer and `a` does not come after `b`.
    pub open spec fn in_order(self, a: Anchor, b: Anchor) -> bool {
        &&& self.positions@.contains_key(a.handle)
        &&& self.positions@.contains_key(b.handle)
        &&& self.positions@[a.handle] <= self.positions@[b.handle]
    }

    /// Tells whether `a` and `b` are anchors of this buffer and `a` does not come after `b`.
    pub fn is_in_order(&self, a: Anchor, b: Anchor) -> (result: bool)
        ensures
            result == self.in_order(a, b),
    {
        match (self.positions.get(&a.handle), self.positions.get(&b.handle)) {
            (Some(first), Some(second)) => *first <= *second,
            _ => false,
        }
    }
}

} // verus!
