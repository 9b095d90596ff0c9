//! Greedy quad merging.

use vstd::prelude::*;
use crate::bounds::{bounds_verdict, check_bounds, extent_valid, MeshError};
use crate::buffer::GreedyQuadsBuffer;
use crate::geometry::{GridShape, OrientedBlockFace, UnorientedQuad};
use crate::greedy::merge_strategy::{FaceStrides, MergeStrategy, VoxelMerger};
use crate::{MergeVoxelContext, Voxel, VoxelContext, VoxelVisibility};

pub mod merge_strategy;

verus! {

/// Implemented by voxel types that know their own merge keys.
pub trait MergeVoxel: Voxel {
    type MergeValue: Eq;

    type MergeValueFacingNeighbour: Eq;

    /// The key of this voxel when its own face is meshed.
    spec fn merge_key(&self) -> Self::MergeValue;

    /// The key of this voxel when it lies across the face that is meshed.
    spec fn neighbour_merge_key(&self) -> Self::MergeValueFacingNeighbour;

    fn merge_value(&self) -> (r: Self::MergeValue)
        ensures
            r == self.merge_key(),
    ;

    fn merge_value_facing_neighbour(&self) -> (r: Self::MergeValueFacingNeighbour)
        ensures
            r == self.neighbour_merge_key(),
    ;
}

/// Equality of each of the two key types, as executed, is equality of the
/// values. For the primitive types `vstd::laws_eq` proves it.
pub open spec fn keys_comparable<T, C: MergeVoxelContext<T>>() -> bool {
    &&& vstd::laws_eq::obeys_concrete_eq::<C::MergeValue>()
    &&& vstd::laws_eq::obeys_concrete_eq::<C::MergeValueFacingNeighbour>()
}

/// The index reached from `i` by adding `offset` with 32-bit wrap-around.
pub open spec fn neighbour_index(i: int, offset: int) -> int {
    if i + offset > u32::MAX {
        i + offset - 0x1_0000_0000
    } else {
        i + offset
    }
}

/// The index of the cell `a` steps of `delta` after `start`.
pub open spec fn row_index(start: int, delta: int, a: int) -> int {
    start + a * delta
}

/// The number of rows that a quad search reads: at least the seed's row.
pub open spec fn rows_of(max_height: int) -> int {
    if max_height < 1 {
        1
    } else {
        max_height
    }
}

/// A face of `voxel` must be drawn when `adjacent` is the voxel across it:
/// the voxel is not empty, and the adjacent one is empty, or translucent
/// beside an opaque voxel.
pub open spec fn face_visible<T, C: VoxelContext<T>>(ctx: &C, voxel: &T, adjacent: &T) -> bool {
    match ctx.visibility_of(voxel) {
        VoxelVisibility::Empty => false,
        VoxelVisibility::Translucent => ctx.visibility_of(adjacent) == VoxelVisibility::Empty,
        VoxelVisibility::Opaque => ctx.visibility_of(adjacent) != VoxelVisibility::Opaque,
    }
}

/// The face slot at index `i` still needs a mesh: it is visible and no quad
/// has taken it yet.
pub open spec fn cell_eligible<T, C: VoxelContext<T>>(
    ctx: &C,
    voxels: Seq<T>,
    visited: Seq<bool>,
    i: int,
    offset: int,
) -> bool {
    &&& !visited[i]
    &&& face_visible(ctx, &voxels[i], &voxels[neighbour_index(i, offset)])
}

/// The face slot at index `i` can join a quad with keys `key` and
/// `neighbour_key`.
pub open spec fn cell_matches<T, C: MergeVoxelContext<T>>(
    ctx: &C,
    voxels: Seq<T>,
    visited: Seq<bool>,
    key: C::MergeValue,
    neighbour_key: C::MergeValueFacingNeighbour,
    i: int,
    offset: int,
) -> bool {
    &&& cell_eligible(ctx, voxels, visited, i, offset)
    &&& ctx.merge_key(&voxels[i]) == key
    &&& ctx.neighbour_merge_key(&voxels[neighbour_index(i, offset)]) == neighbour_key
}

/// The first `max_width` cells of a row, and the cells across the face from
/// them, are slots of the two arrays.
pub open spec fn row_in_bounds(
    len: int,
    visited_len: int,
    start: int,
    delta: int,
    offset: int,
    max_width: int,
) -> bool {
    &&& visited_len == len
    &&& forall|a: int|
        0 <= a < max_width ==> 0 <= #[trigger] row_index(start, delta, a) < len && row_index(
            start,
            delta,
            a,
        ) <= u32::MAX && 0 <= neighbour_index(row_index(start, delta, a), offset) < len
}

/// The first cell of a row is its start.
pub proof fn lemma_row_index_zero(start: int, delta: int)
    ensures
        row_index(start, delta, 0) == start,
{
    assert(0 * delta == 0) by (nonlinear_arith);
}

/// Each cell of a row lies one stride after the one before it.
pub proof fn lemma_row_index_step(start: int, delta: int, a: int)
    ensures
        row_index(start, delta, a + 1) == row_index(start, delta, a) + delta,
{
    assert((a + 1) * delta == a * delta + delta) by (nonlinear_arith);
}

/// The cells that a quad search from `seed` may read, and the cells across
/// the face from them, are slots of the two arrays.
pub open spec fn region_in_bounds(
    len: int,
    visited_len: int,
    seed: int,
    strides: &FaceStrides,
    max_width: int,
    max_height: int,
) -> bool {
    &&& visited_len == len
    &&& 0 <= seed < len
    &&& 0 <= neighbour_index(seed, strides.visibility_offset as int) < len
    &&& forall|a: int, b: int|
        0 <= a < max_width && 0 <= b < rows_of(max_height) ==> 0 <= #[trigger] row_index(
            row_index(seed, strides.v_stride as int, b),
            strides.u_stride as int,
            a,
        ) < len && row_index(
            row_index(seed, strides.v_stride as int, b),
            strides.u_stride as int,
            a,
        ) <= u32::MAX && 0 <= neighbour_index(
            row_index(row_index(seed, strides.v_stride as int, b), strides.u_stride as int, a),
            strides.visibility_offset as int,
        ) < len
}

/// The face-visibility predicate, shared by both scanners: returns true iff
/// a face of `voxel` must be drawn when `adjacent` is the voxel across it.
pub fn face_is_visible<T, C>(ctx: &C, voxel: &T, adjacent: &T) -> (shown: bool) where C: VoxelContext<T>
    ensures
        shown == face_visible(ctx, voxel, adjacent),
{
    if ctx.get_visibility(voxel) == VoxelVisibility::Empty {
        return false;
    }
    // A face between two translucent voxels is not meshed.
    match ctx.get_visibility(adjacent) {
        VoxelVisibility::Empty => true,
        VoxelVisibility::Translucent => ctx.get_visibility(voxel) == VoxelVisibility::Opaque,
        VoxelVisibility::Opaque => false,
    }
}

/// Returns true iff the face of `voxel` at slot `voxel_stride` needs to be
/// meshed: no quad has taken the slot, the voxel is not empty, and the voxel
/// across the face does not hide it.
pub fn face_needs_mesh<T, C>(
    voxel: &T,
    voxel_stride: u32,
    visibility_offset: u32,
    voxels: &[T],
    visited: &[bool],
    ctx: &C,
) -> (needed: bool) where C: VoxelContext<T>
    requires
        voxel_stride < visited.len(),
        neighbour_index(voxel_stride as int, visibility_offset as int) < voxels.len(),
    ensures
        needed == (!visited@[voxel_stride as int] && face_visible(
            ctx,
            voxel,
            &voxels@[neighbour_index(voxel_stride as int, visibility_offset as int)],
        )),
{
    if visited[voxel_stride as usize] {
        return false;
    }
    let adjacent_voxel = &voxels[voxel_stride.wrapping_add(visibility_offset) as usize];
    face_is_visible(ctx, voxel, adjacent_voxel)
}

/// The step along the normal from a cell to the cell across the face.
pub open spec fn normal_step(face: &OrientedBlockFace) -> int {
    if face.n_sign > 0 {
        1
    } else {
        -1
    }
}

/// The strides are those of `face` in a grid of this shape.
pub open spec fn strides_match(shape: &GridShape, face: &OrientedBlockFace, strides: &FaceStrides) -> bool {
    &&& strides.n_stride == shape.stride(face.permutation.n_axis())
    &&& strides.u_stride == shape.stride(face.permutation.u_axis())
    &&& strides.v_stride == shape.stride(face.permutation.v_axis())
    &&& strides.visibility_offset == if face.n_sign > 0 {
        strides.n_stride as int
    } else {
        0x1_0000_0000 - strides.n_stride
    }
}

/// The cell with N, U, V coordinates `cn`, `cu`, `cv` shows its face in the
/// direction of `face`.
pub open spec fn slot_visible<T, C: VoxelContext<T>>(
    ctx: &C,
    voxels: Seq<T>,
    shape: &GridShape,
    face: &OrientedBlockFace,
    cn: int,
    cu: int,
    cv: int,
) -> bool {
    face_visible(
        ctx,
        &voxels[shape.face_index(face, cn, cu, cv)],
        &voxels[shape.face_index(face, cn + normal_step(face), cu, cv)],
    )
}

/// The two cells carry the same merge key, and the cells across the face
/// from them carry the same neighbour merge key.
pub open spec fn slot_keys_agree<T, C: MergeVoxelContext<T>>(
    ctx: &C,
    voxels: Seq<T>,
    shape: &GridShape,
    face: &OrientedBlockFace,
    n1: int,
    u1: int,
    v1: int,
    n2: int,
    u2: int,
    v2: int,
) -> bool {
    &&& ctx.merge_key(&voxels[shape.face_index(face, n1, u1, v1)]) == ctx.merge_key(
        &voxels[shape.face_index(face, n2, u2, v2)],
    )
    &&& ctx.neighbour_merge_key(&voxels[shape.face_index(face, n1 + normal_step(face), u1, v1)])
        == ctx.neighbour_merge_key(&voxels[shape.face_index(face, n2 + normal_step(face), u2, v2)])
}

/// The cell lies strictly inside the extent on every axis.
pub open spec fn in_interior(
    face: &OrientedBlockFace,
    min: [u32; 3],
    max: [u32; 3],
    cn: int,
    cu: int,
    cv: int,
) -> bool {
    &&& face.n_of(min) < cn < face.n_of(max)
    &&& face.u_of(min) < cu < face.u_of(max)
    &&& face.v_of(min) < cv < face.v_of(max)
}

/// The quad, taken as a quad of `face`, covers the cell.
pub open spec fn quad_covers(face: &OrientedBlockFace, q: UnorientedQuad, cn: int, cu: int, cv: int) -> bool {
    &&& cn == face.n_of(q.minimum)
    &&& face.u_of(q.minimum) <= cu < face.u_of(q.minimum) + q.width
    &&& face.v_of(q.minimum) <= cv < face.v_of(q.minimum) + q.height
}

/// The quad is not empty and all its cells lie inside the extent.
pub open spec fn quad_in_interior(
    face: &OrientedBlockFace,
    min: [u32; 3],
    max: [u32; 3],
    q: UnorientedQuad,
) -> bool {
    &&& q.width >= 1
    &&& q.height >= 1
    &&& in_interior(face, min, max, face.n_of(q.minimum), face.u_of(q.minimum), face.v_of(q.minimum))
    &&& face.u_of(q.minimum) + q.width <= face.u_of(max)
    &&& face.v_of(q.minimum) + q.height <= face.v_of(max)
}

/// The first cell comes before the second in scan order: slice by slice
/// along N, row by row along V, cell by cell along U.
pub open spec fn scan_before(n1: int, u1: int, v1: int, n2: int, u2: int, v2: int) -> bool {
    n1 < n2 || (n1 == n2 && (v1 < v2 || (v1 == v2 && u1 < u2)))
}

/// Every quad is a non-empty rectangle inside the extent.
pub open spec fn quads_inside(
    face: &OrientedBlockFace,
    min: [u32; 3],
    max: [u32; 3],
    quads: Seq<UnorientedQuad>,
) -> bool {
    forall|k: int| 0 <= k < quads.len() ==> quad_in_interior(face, min, max, #[trigger] quads[k])
}

/// Every cell of every quad shows its face, and shares both merge keys with
/// the quad's minimum cell.
pub open spec fn quads_uniform<T, C: MergeVoxelContext<T>>(
    ctx: &C,
    voxels: Seq<T>,
    shape: &GridShape,
    face: &OrientedBlockFace,
    quads: Seq<UnorientedQuad>,
) -> bool {
    forall|k: int, cn: int, cu: int, cv: int|
        0 <= k < quads.len() && #[trigger] quad_covers(face, quads[k], cn, cu, cv) ==> slot_visible(
            ctx,
            voxels,
            shape,
            face,
            cn,
            cu,
            cv,
        ) && slot_keys_agree(
            ctx,
            voxels,
            shape,
            face,
            cn,
            cu,
            cv,
            face.n_of(quads[k].minimum),
            face.u_of(quads[k].minimum),
            face.v_of(quads[k].minimum),
        )
}

/// Every cell inside the extent that shows its face is covered by a quad.
pub open spec fn quads_complete<T, C: VoxelContext<T>>(
    ctx: &C,
    voxels: Seq<T>,
    shape: &GridShape,
    min: [u32; 3],
    max: [u32; 3],
    face: &OrientedBlockFace,
    quads: Seq<UnorientedQuad>,
) -> bool {
    forall|cn: int, cu: int, cv: int|
        in_interior(face, min, max, cn, cu, cv) && #[trigger] slot_visible(
            ctx,
            voxels,
            shape,
            face,
            cn,
            cu,
            cv,
        ) ==> exists|k: int| 0 <= k < quads.len() && #[trigger] quad_covers(face, quads[k], cn, cu, cv)
}

/// No cell is covered by two quads.
pub open spec fn quads_disjoint(face: &OrientedBlockFace, quads: Seq<UnorientedQuad>) -> bool {
    forall|j: int, k: int, cn: int, cu: int, cv: int|
        0 <= j < quads.len() && 0 <= k < quads.len() && #[trigger] quad_covers(
            face,
            quads[j],
            cn,
            cu,
            cv,
        ) && #[trigger] quad_covers(face, quads[k], cn, cu, cv) ==> j == k
}

/// The quads' minimum cells come in scan order.
pub open spec fn quads_ordered(face: &OrientedBlockFace, quads: Seq<UnorientedQuad>) -> bool {
    forall|j: int, k: int|
        0 <= j < k < quads.len() ==> scan_before(
            face.n_of((#[trigger] quads[j]).minimum),
            face.u_of(quads[j].minimum),
            face.v_of(quads[j].minimum),
            face.n_of((#[trigger] quads[k]).minimum),
            face.u_of(quads[k].minimum),
            face.v_of(quads[k].minimum),
        )
}

/// Some quad of `quads` covers the cell.
pub open spec fn covered(
    face: &OrientedBlockFace,
    quads: Seq<UnorientedQuad>,
    cn: int,
    cu: int,
    cv: int,
) -> bool {
    exists|j: int| 0 <= j < quads.len() && #[trigger] quad_covers(face, quads[j], cn, cu, cv)
}

/// The cell `a` steps along U and `b` steps along V from the minimum cell of
/// `quad` could have joined it: it shows its face, shares both merge keys
/// with the minimum cell, and none of the quads taken `earlier` covers it.
pub open spec fn can_join_at<T, C: MergeVoxelContext<T>>(
    ctx: &C,
    voxels: Seq<T>,
    shape: &GridShape,
    face: &OrientedBlockFace,
    earlier: Seq<UnorientedQuad>,
    quad: UnorientedQuad,
    a: int,
    b: int,
) -> bool {
    let cn = face.n_of(quad.minimum);
    let cu = face.u_of(quad.minimum);
    let cv = face.v_of(quad.minimum);
    &&& slot_visible(ctx, voxels, shape, face, cn, cu + a, cv + b)
    &&& slot_keys_agree(ctx, voxels, shape, face, cn, cu + a, cv + b, cn, cu, cv)
    &&& !covered(face, earlier, cn, cu + a, cv + b)
}

/// The quad is as large as the greedy rule makes it, given the quads taken
/// `earlier`: it ends along U at the edge of the extent or before a cell
/// that could not join, and then along V at the edge of the extent or before
/// a row in which some cell under its width could not join.
pub open spec fn quad_is_greedy<T, C: MergeVoxelContext<T>>(
    ctx: &C,
    voxels: Seq<T>,
    shape: &GridShape,
    max: [u32; 3],
    face: &OrientedBlockFace,
    earlier: Seq<UnorientedQuad>,
    quad: UnorientedQuad,
) -> bool {
    &&& face.u_of(quad.minimum) + quad.width < face.u_of(max) ==> !can_join_at(
        ctx,
        voxels,
        shape,
        face,
        earlier,
        quad,
        quad.width as int,
        0,
    )
    &&& face.v_of(quad.minimum) + quad.height < face.v_of(max) ==> exists|a: int|
        0 <= a < quad.width && !#[trigger] can_join_at(
            ctx,
            voxels,
            shape,
            face,
            earlier,
            quad,
            a,
            quad.height as int,
        )
}

/// Every quad is as large as the greedy rule makes it, given the quads
/// before it.
pub open spec fn quads_greedy<T, C: MergeVoxelContext<T>>(
    ctx: &C,
    voxels: Seq<T>,
    shape: &GridShape,
    max: [u32; 3],
    face: &OrientedBlockFace,
    quads: Seq<UnorientedQuad>,
) -> bool {
    forall|k: int|
        0 <= k < quads.len() ==> quad_is_greedy(
            ctx,
            voxels,
            shape,
            max,
            face,
            quads.take(k),
            #[trigger] quads[k],
        )
}

/// `quads` is the greedy mesh of one face direction of the extent: rectangles of
/// visible, like-keyed cells that lie inside the extent, overlap nowhere,
/// cover every visible cell, come in the scan order of their minimum cells,
/// and are each as large as the greedy rule makes them.
pub open spec fn is_face_mesh<T, C: MergeVoxelContext<T>>(
    ctx: &C,
    voxels: Seq<T>,
    shape: &GridShape,
    min: [u32; 3],
    max: [u32; 3],
    face: &OrientedBlockFace,
    quads: Seq<UnorientedQuad>,
) -> bool {
    &&& quads_inside(face, min, max, quads)
    &&& quads_uniform(ctx, voxels, shape, face, quads)
    &&& quads_complete(ctx, voxels, shape, min, max, face, quads)
    &&& quads_disjoint(face, quads)
    &&& quads_ordered(face, quads)
    &&& quads_greedy(ctx, voxels, shape, max, face, quads)
}

/// Slot `i` is the slot of a cell of the `width` by `height` rectangle whose
/// minimum cell is `cn`, `cu`, `cv`.
pub open spec fn rect_slot(
    shape: &GridShape,
    face: &OrientedBlockFace,
    cn: int,
    cu: int,
    cv: int,
    width: int,
    height: int,
    i: int,
) -> bool {
    exists|u: int, v: int|
        cu <= u < cu + width && cv <= v < cv + height && i == #[trigger] shape.face_index(
            face,
            cn,
            u,
            v,
        )
}

/// Slot `i` is the slot of a cell inside the extent.
pub open spec fn interior_slot(
    shape: &GridShape,
    face: &OrientedBlockFace,
    min: [u32; 3],
    max: [u32; 3],
    i: int,
) -> bool {
    exists|cn: int, cu: int, cv: int|
        in_interior(face, min, max, cn, cu, cv) && i == #[trigger] shape.face_index(
            face,
            cn,
            cu,
            cv,
        )
}

/// The markers mark the slots of the cells inside the extent that show this
/// face, and no other slot.
pub open spec fn marks_visible<T, C: VoxelContext<T>>(
    ctx: &C,
    voxels: Seq<T>,
    shape: &GridShape,
    min: [u32; 3],
    max: [u32; 3],
    face: &OrientedBlockFace,
    visited: Seq<bool>,
) -> bool {
    &&& visited.len() == voxels.len()
    &&& forall|cn: int, cu: int, cv: int|
        in_interior(face, min, max, cn, cu, cv) ==> visited[#[trigger] shape.face_index(
            face,
            cn,
            cu,
            cv,
        )] == slot_visible(ctx, voxels, shape, face, cn, cu, cv)
    &&& forall|i: int|
        0 <= i < visited.len() && #[trigger] visited[i] ==> interior_slot(shape, face, min, max, i)
}

/// The state of a scan whose cursor stands at the cell `pn`, `pu`, `pv`:
/// `owner` names, for each slot taken, the quad that took it.
pub open spec fn scan_state<T, C: MergeVoxelContext<T>>(
    ctx: &C,
    voxels: Seq<T>,
    shape: &GridShape,
    min: [u32; 3],
    max: [u32; 3],
    face: &OrientedBlockFace,
    quads: Seq<UnorientedQuad>,
    visited: Seq<bool>,
    owner: Seq<int>,
    pn: int,
    pu: int,
    pv: int,
) -> bool {
    &&& visited.len() == voxels.len()
    &&& owner.len() == voxels.len()
    &&& quads_inside(face, min, max, quads)
    &&& quads_uniform(ctx, voxels, shape, face, quads)
    &&& quads_ordered(face, quads)
    &&& quads_greedy(ctx, voxels, shape, max, face, quads)
    &&& forall|i: int|
        0 <= i < visited.len() && #[trigger] visited[i] ==> interior_slot(shape, face, min, max, i)
    &&& forall|k: int|
        0 <= k < quads.len() ==> scan_before(
            face.n_of((#[trigger] quads[k]).minimum),
            face.u_of(quads[k].minimum),
            face.v_of(quads[k].minimum),
            pn,
            pu,
            pv,
        )
    &&& forall|k: int, cn: int, cu: int, cv: int|
        0 <= k < quads.len() && #[trigger] quad_covers(face, quads[k], cn, cu, cv) ==> owner[shape.face_index(
            face,
            cn,
            cu,
            cv,
        )] == k
    &&& forall|cn: int, cu: int, cv: int|
        in_interior(face, min, max, cn, cu, cv) ==> {
            let i = #[trigger] shape.face_index(face, cn, cu, cv);
            &&& visited[i] == (owner[i] >= 0)
            &&& owner[i] >= 0 ==> owner[i] < quads.len() && quad_covers(
                face,
                quads[owner[i]],
                cn,
                cu,
                cv,
            )
            &&& visited[i] ==> slot_visible(ctx, voxels, shape, face, cn, cu, cv)
            &&& scan_before(cn, cu, cv, pn, pu, pv) && slot_visible(
                ctx,
                voxels,
                shape,
                face,
                cn,
                cu,
                cv,
            ) ==> visited[i]
        }
}

/// Across the face from a cell lies the cell one step along the normal, where
/// both are cells of the grid.
pub proof fn lemma_neighbour(
    shape: &GridShape,
    face: &OrientedBlockFace,
    strides: &FaceStrides,
    cn: int,
    cu: int,
    cv: int,
)
    requires
        shape.wf(),
        strides_match(shape, face, strides),
        shape.face_holds(face, cn, cu, cv),
        shape.face_holds(face, cn + normal_step(face), cu, cv),
    ensures
        neighbour_index(shape.face_index(face, cn, cu, cv), strides.visibility_offset as int)
            == shape.face_index(face, cn + normal_step(face), cu, cv),
{
    let d = normal_step(face);
    let sn = shape.stride(face.permutation.n_axis());
    shape.lemma_face_index_normal(face, cn, cu, cv, d);
    shape.lemma_face_index_bound(face, cn, cu, cv);
    shape.lemma_face_index_bound(face, cn + d, cu, cv);
    assert(1 * sn == sn && (-1) * sn == -sn) by (nonlinear_arith);
}

/// The strides of `face` in a grid of this shape.
pub fn face_strides(shape: &GridShape, face: &OrientedBlockFace) -> (strides: FaceStrides)
    requires
        shape.wf(),
    ensures
        strides_match(shape, face, &strides),
{
    let axes = face.permutation.axes();
    let n_stride = shape.axis_stride(axes[0]);
    let u_stride = shape.axis_stride(axes[1]);
    let v_stride = shape.axis_stride(axes[2]);
    FaceStrides {
        n_stride,
        u_stride,
        v_stride,
        // The offset to the voxel sharing this cube face.
        visibility_offset: if face.n_sign > 0 {
            n_stride
        } else {
            0u32.wrapping_sub(n_stride)
        },
    }
}

/// The linear index of the cell with the given N, U, V coordinates.
pub fn face_linear_index(
    shape: &GridShape,
    face: &OrientedBlockFace,
    strides: &FaceStrides,
    cn: u32,
    cu: u32,
    cv: u32,
) -> (i: u32)
    requires
        shape.wf(),
        strides_match(shape, face, strides),
        shape.face_holds(face, cn as int, cu as int, cv as int),
    ensures
        i == shape.face_index(face, cn as int, cu as int, cv as int),
        i < shape.size(),
{
    proof {
        shape.lemma_face_index_bound(face, cn as int, cu as int, cv as int);
    }
    cn * strides.n_stride + cu * strides.u_stride + cv * strides.v_stride
}

/// Sets every marker to false, for `len` slots.
pub fn reset_visited(visited: &mut Vec<bool>, len: usize)
    ensures
        final(visited)@.len() == len,
        forall|i: int| 0 <= i < len ==> !(#[trigger] final(visited)@[i]),
{
    visited.clear();
    let mut i: usize = 0;
    while i < len
        invariant
            i <= len,
            visited@.len() == i,
            forall|j: int| 0 <= j < i ==> !(#[trigger] visited@[j]),
        decreases len - i,
    {
        visited.push(false);
        i += 1;
    }
}

/// Marks the slots of the `width` by `height` rectangle whose minimum cell
/// is `cn`, `cu`, `cv`, and no other slot of a cell of the grid.
fn mark_quad(
    visited: &mut Vec<bool>,
    shape: &GridShape,
    face: &OrientedBlockFace,
    strides: &FaceStrides,
    cn: u32,
    cu: u32,
    cv: u32,
    width: u32,
    height: u32,
)
    requires
        shape.wf(),
        strides_match(shape, face, strides),
        old(visited)@.len() >= shape.size(),
        width >= 1,
        height >= 1,
        shape.face_holds(face, cn as int, cu as int, cv as int),
        shape.face_holds(face, cn as int, cu + width - 1, cv + height - 1),
    ensures
        final(visited)@.len() == old(visited)@.len(),
        forall|n: int, u: int, v: int|
            shape.face_holds(face, n, u, v) ==> final(visited)@[#[trigger] shape.face_index(
                face,
                n,
                u,
                v,
            )] == (old(visited)@[shape.face_index(face, n, u, v)] || (n == cn && cu <= u < cu
                + width && cv <= v < cv + height)),
        forall|i: int|
            0 <= i < final(visited)@.len() && #[trigger] final(visited)@[i] && !old(visited)@[i]
                ==> rect_slot(shape, face, cn as int, cu as int, cv as int, width as int, height as int, i),
{
    let mut b: u32 = 0;
    while b < height
        invariant
            shape.wf(),
            strides_match(shape, face, strides),
            visited@.len() == old(visited)@.len(),
            visited@.len() >= shape.size(),
            forall|i: int|
                0 <= i < visited@.len() && #[trigger] visited@[i] && !old(visited)@[i] ==> rect_slot(
                    shape,
                    face,
                    cn as int,
                    cu as int,
                    cv as int,
                    width as int,
                    height as int,
                    i,
                ),
            b <= height,
            width >= 1,
            shape.face_holds(face, cn as int, cu as int, cv as int),
            shape.face_holds(face, cn as int, cu + width - 1, cv + height - 1),
            forall|n: int, u: int, v: int|
                shape.face_holds(face, n, u, v) ==> visited@[#[trigger] shape.face_index(
                    face,
                    n,
                    u,
                    v,
                )] == (old(visited)@[shape.face_index(face, n, u, v)] || (n == cn && cu <= u < cu
                    + width && cv <= v < cv + b)),
        decreases height - b,
    {
        let mut a: u32 = 0;
        while a < width
            invariant
                shape.wf(),
                strides_match(shape, face, strides),
                visited@.len() == old(visited)@.len(),
                visited@.len() >= shape.size(),
                forall|i: int|
                    0 <= i < visited@.len() && #[trigger] visited@[i] && !old(visited)@[i] ==> rect_slot(
                        shape,
                        face,
                        cn as int,
                        cu as int,
                        cv as int,
                        width as int,
                        height as int,
                        i,
                    ),
                b < height,
                a <= width,
                shape.face_holds(face, cn as int, cu as int, cv as int),
                shape.face_holds(face, cn as int, cu + width - 1, cv + height - 1),
                forall|n: int, u: int, v: int|
                    shape.face_holds(face, n, u, v) ==> visited@[#[trigger] shape.face_index(
                        face,
                        n,
                        u,
                        v,
                    )] == (old(visited)@[shape.face_index(face, n, u, v)] || (n == cn && ((cu <= u
                        < cu + width && cv <= v < cv + b) || (cu <= u < cu + a && v == cv + b)))),
            decreases width - a,
        {
            let i = face_linear_index(shape, face, strides, cn, cu + a, cv + b);
            let ghost before = visited@;
            visited.set(i as usize, true);
            proof {
                assert forall|n: int, u: int, v: int|
                    shape.face_holds(face, n, u, v) implies visited@[#[trigger] shape.face_index(
                    face,
                    n,
                    u,
                    v,
                )] == (before[shape.face_index(face, n, u, v)] || (n == cn && u == cu + a && v
                    == cv + b)) by {
                    shape.lemma_face_index_bound(face, n, u, v);
                    if shape.face_index(face, n, u, v) == i {
                        shape.lemma_face_index_injective(
                            face,
                            n,
                            u,
                            v,
                            cn as int,
                            cu + a,
                            cv + b,
                        );
                    }
                }
                assert(i == shape.face_index(face, cn as int, cu + a, cv + b));
                assert(rect_slot(
                    shape,
                    face,
                    cn as int,
                    cu as int,
                    cv as int,
                    width as int,
                    height as int,
                    i as int,
                ));
            }
            a += 1;
        }
        b += 1;
    }
}

/// Taking the quad found at the cursor keeps the scan's state, with the
/// cursor one cell further along the row.
proof fn lemma_emit<T, C: MergeVoxelContext<T>>(
    ctx: &C,
    voxels: Seq<T>,
    shape: &GridShape,
    min: [u32; 3],
    max: [u32; 3],
    face: &OrientedBlockFace,
    strides: &FaceStrides,
    quads: Seq<UnorientedQuad>,
    before: Seq<bool>,
    after: Seq<bool>,
    owner: Seq<int>,
    quad: UnorientedQuad,
)
    requires
        extent_valid(voxels.len() as int, shape, min, max),
        strides_match(shape, face, strides),
        quad_in_interior(face, min, max, quad),
        scan_state(
            ctx,
            voxels,
            shape,
            min,
            max,
            face,
            quads,
            before,
            owner,
            face.n_of(quad.minimum),
            face.u_of(quad.minimum),
            face.v_of(quad.minimum),
        ),
        forall|a: int, b: int|
            0 <= a < quad.width && 0 <= b < quad.height ==> cell_matches(
                ctx,
                voxels,
                before,
                ctx.merge_key(
                    &voxels[shape.face_index(
                        face,
                        face.n_of(quad.minimum),
                        face.u_of(quad.minimum),
                        face.v_of(quad.minimum),
                    )],
                ),
                ctx.neighbour_merge_key(
                    &voxels[neighbour_index(
                        shape.face_index(
                            face,
                            face.n_of(quad.minimum),
                            face.u_of(quad.minimum),
                            face.v_of(quad.minimum),
                        ),
                        strides.visibility_offset as int,
                    )],
                ),
                #[trigger] row_index(
                    row_index(
                        shape.face_index(
                            face,
                            face.n_of(quad.minimum),
                            face.u_of(quad.minimum),
                            face.v_of(quad.minimum),
                        ),
                        strides.v_stride as int,
                        b,
                    ),
                    strides.u_stride as int,
                    a,
                ),
                strides.visibility_offset as int,
            ),
        face.u_of(quad.minimum) + quad.width < face.u_of(max) ==> !cell_matches(
            ctx,
            voxels,
            before,
            ctx.merge_key(
                &voxels[shape.face_index(
                    face,
                    face.n_of(quad.minimum),
                    face.u_of(quad.minimum),
                    face.v_of(quad.minimum),
                )],
            ),
            ctx.neighbour_merge_key(
                &voxels[neighbour_index(
                    shape.face_index(
                        face,
                        face.n_of(quad.minimum),
                        face.u_of(quad.minimum),
                        face.v_of(quad.minimum),
                    ),
                    strides.visibility_offset as int,
                )],
            ),
            row_index(
                shape.face_index(
                    face,
                    face.n_of(quad.minimum),
                    face.u_of(quad.minimum),
                    face.v_of(quad.minimum),
                ),
                strides.u_stride as int,
                quad.width as int,
            ),
            strides.visibility_offset as int,
        ),
        face.v_of(quad.minimum) + quad.height < face.v_of(max) ==> exists|a: int|
            0 <= a < quad.width && !cell_matches(
                ctx,
                voxels,
                before,
                ctx.merge_key(
                    &voxels[shape.face_index(
                        face,
                        face.n_of(quad.minimum),
                        face.u_of(quad.minimum),
                        face.v_of(quad.minimum),
                    )],
                ),
                ctx.neighbour_merge_key(
                    &voxels[neighbour_index(
                        shape.face_index(
                            face,
                            face.n_of(quad.minimum),
                            face.u_of(quad.minimum),
                            face.v_of(quad.minimum),
                        ),
                        strides.visibility_offset as int,
                    )],
                ),
                #[trigger] row_index(
                    row_index(
                        shape.face_index(
                            face,
                            face.n_of(quad.minimum),
                            face.u_of(quad.minimum),
                            face.v_of(quad.minimum),
                        ),
                        strides.v_stride as int,
                        quad.height as int,
                    ),
                    strides.u_stride as int,
                    a,
                ),
                strides.visibility_offset as int,
            ),
        after.len() == before.len(),
        forall|n: int, u: int, v: int|
            shape.face_holds(face, n, u, v) ==> after[#[trigger] shape.face_index(face, n, u, v)]
                == (before[shape.face_index(face, n, u, v)] || quad_covers(face, quad, n, u, v)),
        forall|i: int|
            0 <= i < after.len() && #[trigger] after[i] && !before[i] ==> rect_slot(
                shape,
                face,
                face.n_of(quad.minimum),
                face.u_of(quad.minimum),
                face.v_of(quad.minimum),
                quad.width as int,
                quad.height as int,
                i,
            ),
    ensures
        scan_state(
            ctx,
            voxels,
            shape,
            min,
            max,
            face,
            quads.push(quad),
            after,
            owner_after(owner, before, after, quads.len() as int),
            face.n_of(quad.minimum),
            face.u_of(quad.minimum) + 1,
            face.v_of(quad.minimum),
        ),
{
    let qn = face.n_of(quad.minimum);
    let qu = face.u_of(quad.minimum);
    let qv = face.v_of(quad.minimum);
    let seed = shape.face_index(face, qn, qu, qv);
    let off = strides.visibility_offset as int;
    let k = quads.len() as int;
    let grown = quads.push(quad);
    let owner2 = owner_after(owner, before, after, k);
    lemma_extent_cells(shape, min, max, face);
    lemma_neighbour(shape, face, strides, qn, qu, qv);
    // What the search found, said of cells.
    assert forall|cn: int, cu: int, cv: int| quad_covers(face, quad, cn, cu, cv) implies {
        let i = #[trigger] shape.face_index(face, cn, cu, cv);
        &&& in_interior(face, min, max, cn, cu, cv)
        &&& !before[i]
        &&& after[i]
        &&& slot_visible(ctx, voxels, shape, face, cn, cu, cv)
        &&& slot_keys_agree(ctx, voxels, shape, face, cn, cu, cv, qn, qu, qv)
    } by {
        let a = cu - qu;
        let b = cv - qv;
        shape.lemma_face_index_shift(face, qn, qu, qv, a, b);
        lemma_neighbour(shape, face, strides, cn, cu, cv);
        let i = row_index(row_index(seed, strides.v_stride as int, b), strides.u_stride as int, a);
        assert(i == shape.face_index(face, cn, cu, cv));
    }
    assert forall|j: int, cn: int, cu: int, cv: int|
        0 <= j < grown.len() && #[trigger] quad_covers(face, grown[j], cn, cu, cv) implies owner2[shape.face_index(
        face,
        cn,
        cu,
        cv,
    )] == j && slot_visible(ctx, voxels, shape, face, cn, cu, cv) && slot_keys_agree(
        ctx,
        voxels,
        shape,
        face,
        cn,
        cu,
        cv,
        face.n_of(grown[j].minimum),
        face.u_of(grown[j].minimum),
        face.v_of(grown[j].minimum),
    ) by {
        let i = shape.face_index(face, cn, cu, cv);
        if j < k {
            assert(grown[j] == quads[j]);
            assert(quad_covers(face, quads[j], cn, cu, cv));
            assert(quad_in_interior(face, min, max, quads[j]));
            assert(in_interior(face, min, max, cn, cu, cv));
            shape.lemma_face_index_bound(face, cn, cu, cv);
            assert(owner[i] == j);
            assert(before[i]);
        } else {
            assert(grown[j] == quad);
            shape.lemma_face_index_bound(face, cn, cu, cv);
        }
    }
    assert forall|cn: int, cu: int, cv: int| in_interior(face, min, max, cn, cu, cv) implies {
        let i = #[trigger] shape.face_index(face, cn, cu, cv);
        &&& after[i] == (owner2[i] >= 0)
        &&& owner2[i] >= 0 ==> owner2[i] < grown.len() && quad_covers(
            face,
            grown[owner2[i]],
            cn,
            cu,
            cv,
        )
        &&& after[i] ==> slot_visible(ctx, voxels, shape, face, cn, cu, cv)
        &&& scan_before(cn, cu, cv, qn, qu + 1, qv) && slot_visible(
            ctx,
            voxels,
            shape,
            face,
            cn,
            cu,
            cv,
        ) ==> after[i]
    } by {
        let i = shape.face_index(face, cn, cu, cv);
        shape.lemma_face_index_bound(face, cn, cu, cv);
        if owner2[i] >= 0 && owner2[i] < k {
            assert(grown[owner2[i]] == quads[owner2[i]]);
        }
        if cn == qn && cu == qu && cv == qv {
            assert(quad_covers(face, quad, cn, cu, cv));
        }
    }
    assert forall|j: int| 0 <= j < grown.len() implies quad_in_interior(
        face,
        min,
        max,
        #[trigger] grown[j],
    ) && scan_before(
        face.n_of(grown[j].minimum),
        face.u_of(grown[j].minimum),
        face.v_of(grown[j].minimum),
        qn,
        qu + 1,
        qv,
    ) by {
        if j < k {
            assert(grown[j] == quads[j]);
        }
    }
    assert forall|i: int, j: int| 0 <= i < j < grown.len() implies scan_before(
        face.n_of((#[trigger] grown[i]).minimum),
        face.u_of(grown[i].minimum),
        face.v_of(grown[i].minimum),
        face.n_of((#[trigger] grown[j]).minimum),
        face.u_of(grown[j].minimum),
        face.v_of(grown[j].minimum),
    ) by {
        assert(grown[i] == quads[i]);
        if j < k {
            assert(grown[j] == quads[j]);
        }
    }
    assert forall|i: int| 0 <= i < after.len() && #[trigger] after[i] implies interior_slot(
        shape,
        face,
        min,
        max,
        i,
    ) by {
        if !before[i] {
            let (u, v) = choose|u: int, v: int|
                qu <= u < qu + quad.width && qv <= v < qv + quad.height && i
                    == #[trigger] shape.face_index(face, qn, u, v);
            assert(in_interior(face, min, max, qn, u, v));
        }
    }
    assert forall|j: int| 0 <= j < grown.len() implies quad_is_greedy(
        ctx,
        voxels,
        shape,
        max,
        face,
        grown.take(j),
        #[trigger] grown[j],
    ) by {
        if j < k {
            assert(grown.take(j) =~= quads.take(j));
            assert(grown[j] == quads[j]);
        } else {
            assert(grown.take(j) =~= quads);
            let us = strides.u_stride as int;
            let vs = strides.v_stride as int;
            let w = quad.width as int;
            let h = quad.height as int;
            if qu + w < face.u_of(max) {
                shape.lemma_face_index_shift(face, qn, qu, qv, w, 0);
                lemma_row_index_zero(seed, vs);
                assert(in_interior(face, min, max, qn, qu + w, qv));
                lemma_neighbour(shape, face, strides, qn, qu + w, qv);
                let i = shape.face_index(face, qn, qu + w, qv + 0);
                assert(i == row_index(seed, us, w));
                if before[i] {
                    assert(quad_covers(face, quads[owner[i]], qn, qu + w, qv + 0));
                }
            }
            if qv + h < face.v_of(max) {
                let a = choose|a: int|
                    0 <= a < w && !cell_matches(
                        ctx,
                        voxels,
                        before,
                        ctx.merge_key(&voxels[seed]),
                        ctx.neighbour_merge_key(&voxels[neighbour_index(seed, off)]),
                        #[trigger] row_index(row_index(seed, vs, h), us, a),
                        off,
                    );
                shape.lemma_face_index_shift(face, qn, qu, qv, a, h);
                assert(in_interior(face, min, max, qn, qu + a, qv + h));
                lemma_neighbour(shape, face, strides, qn, qu + a, qv + h);
                let i = shape.face_index(face, qn, qu + a, qv + h);
                assert(i == row_index(row_index(seed, vs, h), us, a));
                if before[i] {
                    assert(quad_covers(face, quads[owner[i]], qn, qu + a, qv + h));
                }
                assert(!can_join_at(ctx, voxels, shape, face, quads, quad, a, h));
            }
        }
    }
}

/// The owners after a quad with number `k` has taken the slots that are
/// marked in `after` and were not in `before`.
pub open spec fn owner_after(owner: Seq<int>, before: Seq<bool>, after: Seq<bool>, k: int) -> Seq<int> {
    Seq::new(
        owner.len(),
        |i: int|
            if after[i] && !before[i] {
                k
            } else {
                owner[i]
            },
    )
}

/// Every cell inside a valid extent, and the cell across the face from it,
/// is a cell of the grid.
pub proof fn lemma_extent_cells(shape: &GridShape, min: [u32; 3], max: [u32; 3], face: &OrientedBlockFace)
    requires
        shape.wf(),
        crate::bounds::extent_ordered(min, max),
        crate::bounds::extent_inside(shape, max),
    ensures
        forall|cn: int, cu: int, cv: int| #[trigger]
            in_interior(face, min, max, cn, cu, cv) ==> shape.face_holds(face, cn, cu, cv)
                && shape.face_holds(face, cn + normal_step(face), cu, cv),
{
}

/// The quads of one face direction: scans the cells inside the extent in
/// scan order and, at each cell that still needs a mesh, takes the quad that
/// the greedy search finds there. `visited` is cleared first; afterwards it
/// marks exactly the slots of the cells that show this face.
pub fn greedy_quads_for_face<T, C>(
    voxels: &[T],
    voxels_shape: &GridShape,
    min: [u32; 3],
    max: [u32; 3],
    face: &OrientedBlockFace,
    visited: &mut Vec<bool>,
    ctx: &C,
) -> (quads: Vec<UnorientedQuad>) where C: MergeVoxelContext<T>
    requires
        keys_comparable::<T, C>(),
        extent_valid(voxels.len() as int, voxels_shape, min, max),
    ensures
        is_face_mesh(ctx, voxels@, voxels_shape, min, max, face, quads@),
        marks_visible(ctx, voxels@, voxels_shape, min, max, face, final(visited)@),
{
    reset_visited(visited, voxels.len());
    let axes = face.permutation.axes();
    let lo_n: u32 = min[axes[0]];
    let lo_u: u32 = min[axes[1]];
    let lo_v: u32 = min[axes[2]];
    let hi_n: u32 = max[axes[0]];
    let hi_u: u32 = max[axes[1]];
    let hi_v: u32 = max[axes[2]];
    let strides = face_strides(voxels_shape, face);
    let mut quads: Vec<UnorientedQuad> = Vec::new();
    let ghost mut owner: Seq<int> = Seq::new(voxels.len() as nat, |i: int| -1int);
    proof {
        lemma_extent_cells(voxels_shape, min, max, face);
        assert forall|cn: int, cu: int, cv: int|
            in_interior(face, min, max, cn, cu, cv) implies 0 <= #[trigger] voxels_shape.face_index(
            face,
            cn,
            cu,
            cv,
        ) < voxels.len() by {
            voxels_shape.lemma_face_index_bound(face, cn, cu, cv);
        }
    }

    let mut cn: u32 = lo_n + 1;
    while cn < hi_n
        invariant
            keys_comparable::<T, C>(),
            extent_valid(voxels.len() as int, voxels_shape, min, max),
            strides_match(voxels_shape, face, &strides),
            lo_n == face.n_of(min) && lo_u == face.u_of(min) && lo_v == face.v_of(min),
            hi_n == face.n_of(max) && hi_u == face.u_of(max) && hi_v == face.v_of(max),
            lo_n < cn,
            scan_state(
                ctx,
                voxels@,
                voxels_shape,
                min,
                max,
                face,
                quads@,
                visited@,
                owner,
                cn as int,
                lo_u + 1,
                lo_v + 1,
            ),
        decreases hi_n - cn,
    {
        let mut cv: u32 = lo_v + 1;
        while cv < hi_v
            invariant
                keys_comparable::<T, C>(),
                extent_valid(voxels.len() as int, voxels_shape, min, max),
                strides_match(voxels_shape, face, &strides),
                lo_n == face.n_of(min) && lo_u == face.u_of(min) && lo_v == face.v_of(min),
                hi_n == face.n_of(max) && hi_u == face.u_of(max) && hi_v == face.v_of(max),
                lo_n < cn < hi_n,
                lo_v < cv,
                scan_state(
                    ctx,
                    voxels@,
                    voxels_shape,
                    min,
                    max,
                    face,
                    quads@,
                    visited@,
                    owner,
                    cn as int,
                    lo_u + 1,
                    cv as int,
                ),
            decreases hi_v - cv,
        {
            let mut cu: u32 = lo_u + 1;
            while cu < hi_u
                invariant
                    keys_comparable::<T, C>(),
                    extent_valid(voxels.len() as int, voxels_shape, min, max),
                    strides_match(voxels_shape, face, &strides),
                    lo_n == face.n_of(min) && lo_u == face.u_of(min) && lo_v == face.v_of(min),
                    hi_n == face.n_of(max) && hi_u == face.u_of(max) && hi_v == face.v_of(max),
                    lo_n < cn < hi_n,
                    lo_v < cv < hi_v,
                    lo_u < cu,
                    scan_state(
                        ctx,
                        voxels@,
                        voxels_shape,
                        min,
                        max,
                        face,
                        quads@,
                        visited@,
                        owner,
                        cn as int,
                        cu as int,
                        cv as int,
                    ),
                decreases hi_u - cu,
            {
                proof {
                    lemma_extent_cells(voxels_shape, min, max, face);
                    assert(in_interior(face, min, max, cn as int, cu as int, cv as int));
                    lemma_neighbour(voxels_shape, face, &strides, cn as int, cu as int, cv as int);
                    voxels_shape.lemma_face_index_bound(
                        face,
                        cn + normal_step(face),
                        cu as int,
                        cv as int,
                    );
                }
                let quad_min_index = face_linear_index(voxels_shape, face, &strides, cn, cu, cv);
                let quad_min_voxel = &voxels[quad_min_index as usize];
                if face_needs_mesh(
                    quad_min_voxel,
                    quad_min_index,
                    strides.visibility_offset,
                    voxels,
                    visited.as_slice(),
                    ctx,
                ) {
                    // The quad must stay within the slice.
                    let max_width: u32 = hi_u - cu;
                    let max_height: u32 = hi_v - cv;
                    proof {
                        lemma_region(
                            voxels.len() as int,
                            voxels_shape,
                            min,
                            max,
                            face,
                            &strides,
                            cn as int,
                            cu as int,
                            cv as int,
                        );
                    }
                    let (quad_width, quad_height) = VoxelMerger::<T>::find_quad(
                        quad_min_index,
                        max_width,
                        max_height,
                        &strides,
                        voxels,
                        visited.as_slice(),
                        ctx,
                    );
                    let ghost before = visited@;
                    mark_quad(
                        visited,
                        voxels_shape,
                        face,
                        &strides,
                        cn,
                        cu,
                        cv,
                        quad_width,
                        quad_height,
                    );
                    let quad = UnorientedQuad {
                        minimum: face.point(cn, cu, cv),
                        width: quad_width,
                        height: quad_height,
                    };
                    proof {
                        lemma_emit(
                            ctx,
                            voxels@,
                            voxels_shape,
                            min,
                            max,
                            face,
                            &strides,
                            quads@,
                            before,
                            visited@,
                            owner,
                            quad,
                        );
                        owner = owner_after(owner, before, visited@, quads@.len() as int);
                    }
                    quads.push(quad);
                }
                cu += 1;
            }
            cv += 1;
        }
        cn += 1;
    }
    proof {
        assert forall|cn: int, cu: int, cv: int|
            in_interior(face, min, max, cn, cu, cv) && #[trigger] slot_visible(
                ctx,
                voxels@,
                voxels_shape,
                face,
                cn,
                cu,
                cv,
            ) implies exists|k: int|
            0 <= k < quads@.len() && #[trigger] quad_covers(face, quads@[k], cn, cu, cv) by {
            let i = voxels_shape.face_index(face, cn, cu, cv);
            voxels_shape.lemma_face_index_bound(face, cn, cu, cv);
            assert(visited@[i]);
            assert(quad_covers(face, quads@[owner[i]], cn, cu, cv));
        }
    }
    quads
}

/// The cells that a quad search from an interior cell may read lie within
/// the arrays.
proof fn lemma_region(
    len: int,
    shape: &GridShape,
    min: [u32; 3],
    max: [u32; 3],
    face: &OrientedBlockFace,
    strides: &FaceStrides,
    cn: int,
    cu: int,
    cv: int,
)
    requires
        extent_valid(len, shape, min, max),
        strides_match(shape, face, strides),
        in_interior(face, min, max, cn, cu, cv),
    ensures
        region_in_bounds(
            len,
            len,
            shape.face_index(face, cn, cu, cv),
            strides,
            face.u_of(max) - cu,
            face.v_of(max) - cv,
        ),
{
    let seed = shape.face_index(face, cn, cu, cv);
    lemma_extent_cells(shape, min, max, face);
    shape.lemma_face_index_bound(face, cn, cu, cv);
    lemma_neighbour(shape, face, strides, cn, cu, cv);
    shape.lemma_face_index_bound(face, cn + normal_step(face), cu, cv);
    assert forall|a: int, b: int|
        0 <= a < face.u_of(max) - cu && 0 <= b < rows_of(face.v_of(max) - cv) implies 0
        <= #[trigger] row_index(
        row_index(seed, strides.v_stride as int, b),
        strides.u_stride as int,
        a,
    ) < len && row_index(row_index(seed, strides.v_stride as int, b), strides.u_stride as int, a)
        <= u32::MAX && 0 <= neighbour_index(
        row_index(row_index(seed, strides.v_stride as int, b), strides.u_stride as int, a),
        strides.visibility_offset as int,
    ) < len by {
        shape.lemma_face_index_shift(face, cn, cu, cv, a, b);
        assert(in_interior(face, min, max, cn, cu + a, cv + b));
        shape.lemma_face_index_bound(face, cn, cu + a, cv + b);
        lemma_neighbour(shape, face, strides, cn, cu + a, cv + b);
        shape.lemma_face_index_bound(face, cn + normal_step(face), cu + a, cv + b);
    }
}

/// The greedy meshing algorithm: for each of the six face directions it
/// replaces the group of `output` by the quads of that face. The markers of
/// `output` are left as the scan of the last face leaves them. Nothing is
/// read or written if the extent does not lie within the grid.
pub fn greedy_quads<T, C>(
    voxels: &[T],
    voxels_shape: &GridShape,
    min: [u32; 3],
    max: [u32; 3],
    faces: &[OrientedBlockFace; 6],
    output: &mut GreedyQuadsBuffer,
    ctx: &C,
) -> (r: Result<(), MeshError>) where C: MergeVoxelContext<T>
    requires
        keys_comparable::<T, C>(),
    ensures
        r == bounds_verdict(voxels.len() as int, voxels_shape, min, max),
        r is Err ==> *final(output) == *old(output),
        r is Ok ==> forall|f: int|
            0 <= f < 6 ==> is_face_mesh(
                ctx,
                voxels@,
                voxels_shape,
                min,
                max,
                &faces[f],
                (#[trigger] final(output).quads.groups[f])@,
            ),
        r is Ok ==> marks_visible(
            ctx,
            voxels@,
            voxels_shape,
            min,
            max,
            &faces[5],
            final(output).visited@,
        ),
{
    match check_bounds(voxels.len(), voxels_shape, min, max) {
        Err(e) => {
            return Err(e);
        },
        Ok(()) => {},
    }
    let g0 = greedy_quads_for_face(voxels, voxels_shape, min, max, &faces[0], &mut output.visited, ctx);
    let g1 = greedy_quads_for_face(voxels, voxels_shape, min, max, &faces[1], &mut output.visited, ctx);
    let g2 = greedy_quads_for_face(voxels, voxels_shape, min, max, &faces[2], &mut output.visited, ctx);
    let g3 = greedy_quads_for_face(voxels, voxels_shape, min, max, &faces[3], &mut output.visited, ctx);
    let g4 = greedy_quads_for_face(voxels, voxels_shape, min, max, &faces[4], &mut output.visited, ctx);
    let g5 = greedy_quads_for_face(voxels, voxels_shape, min, max, &faces[5], &mut output.visited, ctx);
    output.quads.groups = [g0, g1, g2, g3, g4, g5];
    Ok(())
}

} // verus!
