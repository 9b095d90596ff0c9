//! Output buffers, one group of quads per face direction.

use vstd::prelude::*;
use crate::geometry::{UnorientedQuad, UnorientedUnitQuad};

verus! {

/// The unit quads of the simple scanner, grouped by face.
pub struct UnitQuadBuffer {
    /// `groups[f]` holds the quads of face `f`, in scan order.
    pub groups: [Vec<UnorientedUnitQuad>; 6],
}

/// Merged quads, grouped by face.
pub struct QuadBuffer {
    /// `groups[f]` holds the quads of face `f`, in scan order.
    pub groups: [Vec<UnorientedQuad>; 6],
}

/// The output of the greedy merger, with the markers it reuses from one
/// call to the next.
pub struct GreedyQuadsBuffer {
    pub quads: QuadBuffer,
    /// One marker per voxel slot, for the face scanned last.
    pub visited: Vec<bool>,
}

impl UnitQuadBuffer {
    pub fn new() -> (r: Self)
        ensures
            forall|f: int| 0 <= f < 6 ==> (#[trigger] r.groups[f])@.len() == 0,
    {
        UnitQuadBuffer {
            groups: [Vec::new(), Vec::new(), Vec::new(), Vec::new(), Vec::new(), Vec::new()],
        }
    }

    /// Empties every group.
    pub fn reset(&mut self)
        ensures
            forall|f: int| 0 <= f < 6 ==> (#[trigger] final(self).groups[f])@.len() == 0,
    {
        self.groups = [Vec::new(), Vec::new(), Vec::new(), Vec::new(), Vec::new(), Vec::new()];
    }

    /// The total number of quads over all faces.
    pub fn num_quads(&self) -> (n: usize)
        requires
            self.groups[0]@.len() + self.groups[1]@.len() + self.groups[2]@.len()
                + self.groups[3]@.len() + self.groups[4]@.len() + self.groups[5]@.len()
                <= usize::MAX,
        ensures
            n == self.groups[0]@.len() + self.groups[1]@.len() + self.groups[2]@.len()
                + self.groups[3]@.len() + self.groups[4]@.len() + self.groups[5]@.len(),
    {
        self.groups[0].len() + self.groups[1].len() + self.groups[2].len() + self.groups[3].len()
            + self.groups[4].len() + self.groups[5].len()
    }
}

impl QuadBuffer {
    pub fn new() -> (r: Self)
        ensures
            forall|f: int| 0 <= f < 6 ==> (#[trigger] r.groups[f])@.len() == 0,
    {
        QuadBuffer {
            groups: [Vec::new(), Vec::new(), Vec::new(), Vec::new(), Vec::new(), Vec::new()],
        }
    }

    /// Empties every group.
    pub fn reset(&mut self)
        ensures
            forall|f: int| 0 <= f < 6 ==> (#[trigger] final(self).groups[f])@.len() == 0,
    {
        self.groups = [Vec::new(), Vec::new(), Vec::new(), Vec::new(), Vec::new(), Vec::new()];
    }

    /// The total number of quads over all faces.
    pub fn num_quads(&self) -> (n: usize)
        requires
            self.groups[0]@.len() + self.groups[1]@.len() + self.groups[2]@.len()
                + self.groups[3]@.len() + self.groups[4]@.len() + self.groups[5]@.len()
                <= usize::MAX,
        ensures
            n == self.groups[0]@.len() + self.groups[1]@.len() + self.groups[2]@.len()
                + self.groups[3]@.len() + self.groups[4]@.len() + self.groups[5]@.len(),
    {
        self.groups[0].len() + self.groups[1].len() + self.groups[2].len() + self.groups[3].len()
            + self.groups[4].len() + self.groups[5].len()
    }
}

impl GreedyQuadsBuffer {
    /// A buffer with empty groups and one marker, not yet set, for each of
    /// `size` voxel slots.
    pub fn new(size: usize) -> (r: Self)
        ensures
            forall|f: int| 0 <= f < 6 ==> (#[trigger] r.quads.groups[f])@.len() == 0,
            r.visited@ == Seq::new(size as nat, |i: int| false),
    {
        let mut visited: Vec<bool> = Vec::with_capacity(size);
        let mut i: usize = 0;
        while i < size
            invariant
                i <= size,
                visited@ == Seq::new(i as nat, |j: int| false),
            decreases size - i,
        {
            visited.push(false);
            i += 1;
            assert(visited@ =~= Seq::new(i as nat, |j: int| false));
        }
        GreedyQuadsBuffer { quads: QuadBuffer::new(), visited }
    }
}

} // verus!
