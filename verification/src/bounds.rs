//! Validation of the meshed extent against the grid.

use vstd::prelude::*;
use crate::geometry::GridShape;

verus! {

/// Why a meshing call was rejected before any voxel was read.
#[derive(Debug, Clone, Copy, PartialEq, Eq, Structural)]
pub enum MeshError {
    /// A dimension of the grid is zero.
    EmptyShape,
    /// The grid has more cells than a 32-bit index can address.
    ShapeTooLarge,
    /// The voxel array holds fewer voxels than the grid has cells.
    VoxelsTooShort,
    /// On some axis the extent's minimum lies beyond its maximum.
    EmptyExtent,
    /// The extent's maximum lies outside the grid.
    ExtentOutOfBounds,
}

/// On every axis, `min` is at most `max`.
pub open spec fn extent_ordered(min: [u32; 3], max: [u32; 3]) -> bool {
    min[0] <= max[0] && min[1] <= max[1] && min[2] <= max[2]
}

/// On every axis, `max` is a coordinate of the grid.
pub open spec fn extent_inside(shape: &GridShape, max: [u32; 3]) -> bool {
    max[0] < shape.dim(0) && max[1] < shape.dim(1) && max[2] < shape.dim(2)
}

/// The inclusive extent from `min` to `max` can be meshed in a grid of this
/// shape that is stored in `len` voxels.
pub open spec fn extent_valid(len: int, shape: &GridShape, min: [u32; 3], max: [u32; 3]) -> bool {
    &&& shape.wf()
    &&& shape.size() <= len
    &&& extent_ordered(min, max)
    &&& extent_inside(shape, max)
}

/// The outcome of validation: the first of the listed faults that the
/// arguments show, or success if they show none.
pub open spec fn bounds_verdict(len: int, shape: &GridShape, min: [u32; 3], max: [u32; 3]) -> Result<
    (),
    MeshError,
> {
    if shape.dim(0) == 0 || shape.dim(1) == 0 || shape.dim(2) == 0 {
        Err(MeshError::EmptyShape)
    } else if shape.size() > u32::MAX {
        Err(MeshError::ShapeTooLarge)
    } else if shape.size() > len {
        Err(MeshError::VoxelsTooShort)
    } else if !extent_ordered(min, max) {
        Err(MeshError::EmptyExtent)
    } else if !extent_inside(shape, max) {
        Err(MeshError::ExtentOutOfBounds)
    } else {
        Ok(())
    }
}

/// Checks once, before any indexing, that the extent lies within the grid
/// and that the grid lies within the voxel array.
pub fn check_bounds(len: usize, shape: &GridShape, min: [u32; 3], max: [u32; 3]) -> (r: Result<
    (),
    MeshError,
>)
    ensures
        r == bounds_verdict(len as int, shape, min, max),
        r is Ok <==> extent_valid(len as int, shape, min, max),
{
    let dx: u64 = shape.dims[0] as u64;
    let dy: u64 = shape.dims[1] as u64;
    let dz: u64 = shape.dims[2] as u64;
    if dx == 0 || dy == 0 || dz == 0 {
        return Err(MeshError::EmptyShape);
    }
    assert(dx * dy <= 0xffff_ffff * 0xffff_ffff) by (nonlinear_arith)
        requires
            dx <= 0xffff_ffff,
            dy <= 0xffff_ffff,
    ;
    let plane: u64 = dx * dy;
    if plane > 0xffff_ffff {
        assert(dx * dy * dz > u32::MAX) by (nonlinear_arith)
            requires
                dx * dy > 0xffff_ffff,
                dz >= 1,
        ;
        return Err(MeshError::ShapeTooLarge);
    }
    assert(plane * dz <= 0xffff_ffff * 0xffff_ffff) by (nonlinear_arith)
        requires
            plane <= 0xffff_ffff,
            dz <= 0xffff_ffff,
    ;
    let size: u64 = plane * dz;
    if size > 0xffff_ffff {
        return Err(MeshError::ShapeTooLarge);
    }
    if size > len as u64 {
        return Err(MeshError::VoxelsTooShort);
    }
    if min[0] > max[0] || min[1] > max[1] || min[2] > max[2] {
        return Err(MeshError::EmptyExtent);
    }
    if max[0] >= shape.dims[0] || max[1] >= shape.dims[1] || max[2] >= shape.dims[2] {
        return Err(MeshError::ExtentOutOfBounds);
    }
    Ok(())
}

} // verus!
