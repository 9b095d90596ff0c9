//! Strategies that decide how far a quad grows from its seed cell.

use vstd::prelude::*;
use crate::greedy::{
    cell_eligible, cell_matches, face_needs_mesh, keys_comparable, lemma_row_index_step,
    lemma_row_index_zero, neighbour_index, region_in_bounds, row_in_bounds, row_index, rows_of,
};
use crate::MergeVoxelContext;

verus! {

/// Linear-index strides for one face direction.
pub struct FaceStrides {
    /// The stride along the face normal.
    pub n_stride: u32,
    /// The stride along a row of the slice.
    pub u_stride: u32,
    /// The stride from one row of the slice to the next.
    pub v_stride: u32,
    /// What is added, with wrap-around, to a cell's index to reach the cell
    /// across the face.
    pub visibility_offset: u32,
}

/// A strategy for merging cube faces into quads.
pub trait MergeStrategy {
    type Voxel;

    /// Returns the width and height of the quad to build from the seed cell
    /// at `min_index`, within `max_width` cells along U and `max_height`
    /// rows along V. A quad's cells are marked in `visited` by the caller
    /// after this returns.
    ///
    /// Whatever the strategy, every cell of the quad it returns still needs
    /// a mesh, and the quad contains the seed if the seed does.
    fn find_quad<C>(
        min_index: u32,
        max_width: u32,
        max_height: u32,
        face_strides: &FaceStrides,
        voxels: &[Self::Voxel],
        visited: &[bool],
        ctx: &C,
    ) -> (quad: (u32, u32)) where C: MergeVoxelContext<Self::Voxel>
        requires
            keys_comparable::<Self::Voxel, C>(),
            region_in_bounds(
                voxels.len() as int,
                visited.len() as int,
                min_index as int,
                face_strides,
                max_width as int,
                max_height as int,
            ),
        ensures
            quad.0 <= max_width,
            quad.1 <= rows_of(max_height as int),
            forall|a: int, b: int|
                0 <= a < quad.0 && 0 <= b < quad.1 ==> cell_eligible(
                    ctx,
                    voxels@,
                    visited@,
                    #[trigger] row_index(
                        row_index(min_index as int, face_strides.v_stride as int, b),
                        face_strides.u_stride as int,
                        a,
                    ),
                    face_strides.visibility_offset as int,
                ),
            max_width >= 1 && cell_eligible(
                ctx,
                voxels@,
                visited@,
                min_index as int,
                face_strides.visibility_offset as int,
            ) ==> quad.0 >= 1 && quad.1 >= 1,
    ;
}

/// The greedy strategy: widest run of matching cells first, then as many
/// further rows as match over that whole width.
pub struct VoxelMerger<T> {
    marker: std::marker::PhantomData<T>,
}

impl<T> VoxelMerger<T> {
    /// The number of leading cells of a row that can join a quad with the
    /// given keys: the cells at `start_stride`, `start_stride + delta_stride`
    /// and so on are taken while each still needs a mesh and carries both
    /// keys, up to `max_width` cells.
    pub fn get_row_width<C>(
        voxels: &[T],
        visited: &[bool],
        quad_merge_voxel_value: &C::MergeValue,
        quad_merge_voxel_value_facing_neighbour: &C::MergeValueFacingNeighbour,
        visibility_offset: u32,
        start_stride: u32,
        delta_stride: u32,
        max_width: u32,
        ctx: &C,
    ) -> (width: u32) where C: MergeVoxelContext<T>
        requires
            keys_comparable::<T, C>(),
            row_in_bounds(
                voxels.len() as int,
                visited.len() as int,
                start_stride as int,
                delta_stride as int,
                visibility_offset as int,
                max_width as int,
            ),
        ensures
            width <= max_width,
            forall|a: int|
                0 <= a < width ==> cell_matches(
                    ctx,
                    voxels@,
                    visited@,
                    *quad_merge_voxel_value,
                    *quad_merge_voxel_value_facing_neighbour,
                    #[trigger] row_index(start_stride as int, delta_stride as int, a),
                    visibility_offset as int,
                ),
            width < max_width ==> !cell_matches(
                ctx,
                voxels@,
                visited@,
                *quad_merge_voxel_value,
                *quad_merge_voxel_value_facing_neighbour,
                row_index(start_stride as int, delta_stride as int, width as int),
                visibility_offset as int,
            ),
    {
        let mut quad_width: u32 = 0;
        let mut row_stride: u32 = start_stride;
        proof {
            lemma_row_index_zero(start_stride as int, delta_stride as int);
        }
        while quad_width < max_width
            invariant
                keys_comparable::<T, C>(),
                row_in_bounds(
                    voxels.len() as int,
                    visited.len() as int,
                    start_stride as int,
                    delta_stride as int,
                    visibility_offset as int,
                    max_width as int,
                ),
                quad_width <= max_width,
                quad_width < max_width ==> row_stride == row_index(
                    start_stride as int,
                    delta_stride as int,
                    quad_width as int,
                ),
                forall|a: int|
                    0 <= a < quad_width ==> cell_matches(
                        ctx,
                        voxels@,
                        visited@,
                        *quad_merge_voxel_value,
                        *quad_merge_voxel_value_facing_neighbour,
                        #[trigger] row_index(start_stride as int, delta_stride as int, a),
                        visibility_offset as int,
                    ),
            ensures
                quad_width <= max_width,
                forall|a: int|
                    0 <= a < quad_width ==> cell_matches(
                        ctx,
                        voxels@,
                        visited@,
                        *quad_merge_voxel_value,
                        *quad_merge_voxel_value_facing_neighbour,
                        #[trigger] row_index(start_stride as int, delta_stride as int, a),
                        visibility_offset as int,
                    ),
                quad_width < max_width ==> !cell_matches(
                    ctx,
                    voxels@,
                    visited@,
                    *quad_merge_voxel_value,
                    *quad_merge_voxel_value_facing_neighbour,
                    row_index(start_stride as int, delta_stride as int, quad_width as int),
                    visibility_offset as int,
                ),
            decreases max_width - quad_width,
        {
            proof {
                reveal(vstd::laws_eq::obeys_concrete_eq);
                lemma_row_index_step(start_stride as int, delta_stride as int, quad_width as int);
            }
            let voxel = &voxels[row_stride as usize];
            let neighbour = &voxels[row_stride.wrapping_add(visibility_offset) as usize];

            if !face_needs_mesh(voxel, row_stride, visibility_offset, voxels, visited, ctx) {
                break ;
            }
            let same_key = ctx.merge_value(voxel) == *quad_merge_voxel_value;
            let same_neighbour_key = ctx.merge_value_facing_neighbour(neighbour)
                == *quad_merge_voxel_value_facing_neighbour;
            if !same_key || !same_neighbour_key {
                // The cell must carry both of the quad's keys.
                break ;
            }
            quad_width += 1;
            row_stride = row_stride.wrapping_add(delta_stride);
        }
        quad_width
    }
}

impl<T> MergeStrategy for VoxelMerger<T> {
    type Voxel = T;

    /// The quad's keys are those of the seed cell and of the cell across the
    /// face from it. The width is the length of the seed row's matching run.
    /// The height counts the rows, from the seed row on, that match over the
    /// whole width.
    fn find_quad<C>(
        min_index: u32,
        max_width: u32,
        max_height: u32,
        face_strides: &FaceStrides,
        voxels: &[T],
        visited: &[bool],
        ctx: &C,
    ) -> (quad: (u32, u32)) where C: MergeVoxelContext<Self::Voxel>
        ensures
            quad.1 >= 1,
            forall|a: int, b: int|
                0 <= a < quad.0 && 0 <= b < quad.1 ==> cell_matches(
                    ctx,
                    voxels@,
                    visited@,
                    ctx.merge_key(&voxels@[min_index as int]),
                    ctx.neighbour_merge_key(
                        &voxels@[neighbour_index(
                            min_index as int,
                            face_strides.visibility_offset as int,
                        )],
                    ),
                    #[trigger] row_index(
                        row_index(min_index as int, face_strides.v_stride as int, b),
                        face_strides.u_stride as int,
                        a,
                    ),
                    face_strides.visibility_offset as int,
                ),
            quad.0 < max_width ==> !cell_matches(
                ctx,
                voxels@,
                visited@,
                ctx.merge_key(&voxels@[min_index as int]),
                ctx.neighbour_merge_key(
                    &voxels@[neighbour_index(
                        min_index as int,
                        face_strides.visibility_offset as int,
                    )],
                ),
                row_index(min_index as int, face_strides.u_stride as int, quad.0 as int),
                face_strides.visibility_offset as int,
            ),
            quad.1 < max_height ==> exists|a: int|
                0 <= a < quad.0 && !cell_matches(
                    ctx,
                    voxels@,
                    visited@,
                    ctx.merge_key(&voxels@[min_index as int]),
                    ctx.neighbour_merge_key(
                        &voxels@[neighbour_index(
                            min_index as int,
                            face_strides.visibility_offset as int,
                        )],
                    ),
                    #[trigger] row_index(
                        row_index(min_index as int, face_strides.v_stride as int, quad.1 as int),
                        face_strides.u_stride as int,
                        a,
                    ),
                    face_strides.visibility_offset as int,
                ),
    {
        let ghost us = face_strides.u_stride as int;
        let ghost vs = face_strides.v_stride as int;
        let ghost off = face_strides.visibility_offset as int;
        let ghost seed = min_index as int;
        proof {
            lemma_row_index_zero(seed, vs);
            lemma_row_index_zero(seed, us);
            lemma_row_index_step(seed, vs, 0);
            lemma_row_index_zero(row_index(seed, vs, 1), us);
        }
        // Greedily search for the biggest visible quad where all merge values are the same.
        let quad_value = ctx.merge_value(&voxels[min_index as usize]);
        let quad_neighbour_value = ctx.merge_value_facing_neighbour(
            &voxels[min_index.wrapping_add(face_strides.visibility_offset) as usize],
        );

        // Start with the widest run along U.
        let mut row_start_stride: u32 = min_index;
        let quad_width = Self::get_row_width(
            voxels,
            visited,
            &quad_value,
            &quad_neighbour_value,
            face_strides.visibility_offset,
            row_start_stride,
            face_strides.u_stride,
            max_width,
            ctx,
        );
        proof {
            if 1 < max_height && quad_width >= 1 {
                assert(0 <= row_index(row_index(seed, vs, 1), us, 0) <= u32::MAX);
            }
        }

        // Then add rows along V while the whole width still matches.
        row_start_stride = row_start_stride.wrapping_add(face_strides.v_stride);
        let mut quad_height: u32 = 1;
        while quad_height < max_height
            invariant
                keys_comparable::<T, C>(),
                region_in_bounds(
                    voxels.len() as int,
                    visited.len() as int,
                    min_index as int,
                    face_strides,
                    max_width as int,
                    max_height as int,
                ),
                us == face_strides.u_stride,
                vs == face_strides.v_stride,
                off == face_strides.visibility_offset,
                seed == min_index,
                quad_value == ctx.merge_key(&voxels@[seed]),
                quad_neighbour_value == ctx.neighbour_merge_key(
                    &voxels@[neighbour_index(seed, off)],
                ),
                quad_width <= max_width,
                1 <= quad_height <= rows_of(max_height as int),
                quad_height < max_height && quad_width >= 1 ==> row_start_stride == row_index(
                    seed,
                    vs,
                    quad_height as int,
                ),
                forall|a: int, b: int|
                    0 <= a < quad_width && 0 <= b < quad_height ==> cell_matches(
                        ctx,
                        voxels@,
                        visited@,
                        quad_value,
                        quad_neighbour_value,
                        #[trigger] row_index(row_index(seed, vs, b), us, a),
                        off,
                    ),
            ensures
                1 <= quad_height <= rows_of(max_height as int),
                forall|a: int, b: int|
                    0 <= a < quad_width && 0 <= b < quad_height ==> cell_matches(
                        ctx,
                        voxels@,
                        visited@,
                        quad_value,
                        quad_neighbour_value,
                        #[trigger] row_index(row_index(seed, vs, b), us, a),
                        off,
                    ),
                quad_height < max_height ==> exists|a: int|
                    0 <= a < quad_width && !cell_matches(
                        ctx,
                        voxels@,
                        visited@,
                        quad_value,
                        quad_neighbour_value,
                        #[trigger] row_index(row_index(seed, vs, quad_height as int), us, a),
                        off,
                    ),
            decreases max_height - quad_height,
        {
            if quad_width == 0 {
                // No cell to compare: every further row matches over the empty width.
                quad_height += 1;
                continue ;
            }
            proof {
                assert forall|a: int| 0 <= a < quad_width implies 0 <= #[trigger] row_index(
                    row_start_stride as int,
                    us,
                    a,
                ) < voxels.len() && row_index(row_start_stride as int, us, a) <= u32::MAX && 0
                    <= neighbour_index(row_index(row_start_stride as int, us, a), off)
                    < voxels.len() by {
                    let i = row_index(row_index(seed, vs, quad_height as int), us, a);
                    assert(0 <= i < voxels.len() && i <= u32::MAX);
                }
            }
            let row_width = Self::get_row_width(
                voxels,
                visited,
                &quad_value,
                &quad_neighbour_value,
                face_strides.visibility_offset,
                row_start_stride,
                face_strides.u_stride,
                quad_width,
                ctx,
            );
            if row_width < quad_width {
                proof {
                    let a = row_width as int;
                    assert(!cell_matches(
                        ctx,
                        voxels@,
                        visited@,
                        quad_value,
                        quad_neighbour_value,
                        row_index(row_index(seed, vs, quad_height as int), us, a),
                        off,
                    ));
                }
                break ;
            }
            proof {
                let next = quad_height as int + 1;
                lemma_row_index_step(seed, vs, quad_height as int);
                if next < max_height {
                    lemma_row_index_zero(row_index(seed, vs, next), us);
                    assert(0 <= row_index(row_index(seed, vs, next), us, 0) <= u32::MAX);
                }
            }
            quad_height += 1;
            row_start_stride = row_start_stride.wrapping_add(face_strides.v_stride);
        }

        (quad_width, quad_height)
    }
}

} // verus!
