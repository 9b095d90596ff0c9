//! Voxel block meshing: turns a dense 3D grid of voxels into rectangular
//! surface quads, one group per cube-face direction.
//!
//! Two scanners are offered. [`visible_block_faces`] emits one unit quad per
//! visible voxel face. [`greedy_quads`] merges neighbouring faces of the same
//! surface into larger rectangles. Both share one face-visibility predicate,
//! and both are parameterised by a caller-supplied context that classifies
//! voxels and derives the merge keys.

use vstd::prelude::*;

pub mod bounds;
pub mod buffer;
pub mod geometry;
pub mod greedy;
pub mod laws;
pub mod simple;

pub use bounds::{check_bounds, MeshError};
pub use buffer::{GreedyQuadsBuffer, QuadBuffer, UnitQuadBuffer};
pub use geometry::{
    right_handed_y_up_faces, AxisPermutation, GridShape, OrientedBlockFace, UnorientedQuad,
    UnorientedUnitQuad,
};
pub use greedy::merge_strategy::{FaceStrides, MergeStrategy, VoxelMerger};
pub use greedy::{face_is_visible, face_needs_mesh, greedy_quads, greedy_quads_for_face, MergeVoxel};
pub use simple::{
    visible_block_faces, visible_block_faces_with_voxel_view, visible_faces_for_face,
};

verus! {

/// Describes how a voxel influences mesh generation.
#[derive(Debug, Clone, Copy, PartialEq, Eq, Structural)]
pub enum VoxelVisibility {
    /// This voxel produces no geometry.
    Empty,
    /// Produces geometry, and light can pass through.
    Translucent,
    /// Light cannot pass through this voxel.
    Opaque,
}

/// Implemented by voxel types that know their own visibility.
pub trait Voxel {
    /// The visibility class of this voxel, as contracts see it.
    spec fn visibility(&self) -> VoxelVisibility;

    fn get_visibility(&self) -> (r: VoxelVisibility)
        ensures
            r == self.visibility(),
    ;
}

/// A policy object that classifies voxels of type `T`.
pub trait VoxelContext<T> {
    /// The visibility class that this context gives to `voxel`.
    spec fn visibility_of(&self, voxel: &T) -> VoxelVisibility;

    fn get_visibility(&self, voxel: &T) -> (r: VoxelVisibility)
        ensures
            r == self.visibility_of(voxel),
    ;
}

/// A policy object that also derives the two merge keys of a voxel. Two faces
/// may share a quad only if the key of the voxel and the key of the voxel
/// across the face both agree.
pub trait MergeVoxelContext<T>: VoxelContext<T> {
    type MergeValue: Eq;

    type MergeValueFacingNeighbour: Eq;

    /// The key derived from the voxel whose face is meshed.
    spec fn merge_key(&self, voxel: &T) -> Self::MergeValue;

    /// The key derived from the voxel across the face.
    spec fn neighbour_merge_key(&self, voxel: &T) -> Self::MergeValueFacingNeighbour;

    fn merge_value(&self, voxel: &T) -> (r: Self::MergeValue)
        ensures
            r == self.merge_key(voxel),
    ;

    fn merge_value_facing_neighbour(&self, voxel: &T) -> (r: Self::MergeValueFacingNeighbour)
        ensures
            r == self.neighbour_merge_key(voxel),
    ;
}

/// The stateless context: it asks the voxel itself.
pub struct DefaultVoxelContext;

impl<T: Voxel> VoxelContext<T> for DefaultVoxelContext {
    open spec fn visibility_of(&self, voxel: &T) -> VoxelVisibility {
        voxel.visibility()
    }

    fn get_visibility(&self, voxel: &T) -> (r: VoxelVisibility) {
        voxel.get_visibility()
    }
}

impl<T: MergeVoxel> MergeVoxelContext<T> for DefaultVoxelContext {
    type MergeValue = T::MergeValue;

    type MergeValueFacingNeighbour = T::MergeValueFacingNeighbour;

    open spec fn merge_key(&self, voxel: &T) -> Self::MergeValue {
        voxel.merge_key()
    }

    open spec fn neighbour_merge_key(&self, voxel: &T) -> Self::MergeValueFacingNeighbour {
        voxel.neighbour_merge_key()
    }

    fn merge_value(&self, voxel: &T) -> (r: Self::MergeValue) {
        voxel.merge_value()
    }

    fn merge_value_facing_neighbour(&self, voxel: &T) -> (r: Self::MergeValueFacingNeighbour) {
        voxel.merge_value_facing_neighbour()
    }
}

} // verus!
