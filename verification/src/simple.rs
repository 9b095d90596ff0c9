//! The simple scanner: one unit quad for every visible face.

use vstd::prelude::*;
use crate::bounds::{bounds_verdict, check_bounds, extent_valid, MeshError};
use crate::buffer::UnitQuadBuffer;
use crate::geometry::{GridShape, OrientedBlockFace, UnorientedUnitQuad};
use crate::greedy::{
    face_is_visible, face_strides, lemma_neighbour, normal_step, slot_visible, strides_match,
};
use crate::VoxelContext;

verus! {

/// The cell lies strictly inside the extent on every axis.
pub open spec fn cell_inside(min: [u32; 3], max: [u32; 3], x: int, y: int, z: int) -> bool {
    &&& min[0] < x < max[0]
    &&& min[1] < y < max[1]
    &&& min[2] < z < max[2]
}

/// The first cell comes before the second in the order of linear indices:
/// X fastest, then Y, then Z.
pub open spec fn cell_before(x1: int, y1: int, z1: int, x2: int, y2: int, z2: int) -> bool {
    z1 < z2 || (z1 == z2 && (y1 < y2 || (y1 == y2 && x1 < x2)))
}

/// The cell `(x, y, z)` shows its face in the direction of `face`.
pub open spec fn cell_visible<T, C: VoxelContext<T>>(
    ctx: &C,
    voxels: Seq<T>,
    shape: &GridShape,
    face: &OrientedBlockFace,
    x: int,
    y: int,
    z: int,
) -> bool {
    slot_visible(ctx, voxels, shape, face, face.n_at(x, y, z), face.u_at(x, y, z), face.v_at(x, y, z))
}

/// The unit quad sits at the cell `(x, y, z)`.
pub open spec fn unit_at(q: UnorientedUnitQuad, x: int, y: int, z: int) -> bool {
    q.minimum[0] == x && q.minimum[1] == y && q.minimum[2] == z
}

/// Every quad sits at a cell inside the extent that shows this face.
pub open spec fn units_visible<T, C: VoxelContext<T>>(
    ctx: &C,
    voxels: Seq<T>,
    shape: &GridShape,
    min: [u32; 3],
    max: [u32; 3],
    face: &OrientedBlockFace,
    quads: Seq<UnorientedUnitQuad>,
) -> bool {
    forall|k: int|
        0 <= k < quads.len() ==> cell_inside(
            min,
            max,
            (#[trigger] quads[k]).minimum[0] as int,
            quads[k].minimum[1] as int,
            quads[k].minimum[2] as int,
        ) && cell_visible(
            ctx,
            voxels,
            shape,
            face,
            quads[k].minimum[0] as int,
            quads[k].minimum[1] as int,
            quads[k].minimum[2] as int,
        )
}

/// Every cell inside the extent that shows this face has its quad.
pub open spec fn units_complete<T, C: VoxelContext<T>>(
    ctx: &C,
    voxels: Seq<T>,
    shape: &GridShape,
    min: [u32; 3],
    max: [u32; 3],
    face: &OrientedBlockFace,
    quads: Seq<UnorientedUnitQuad>,
) -> bool {
    forall|x: int, y: int, z: int|
        cell_inside(min, max, x, y, z) && #[trigger] cell_visible(ctx, voxels, shape, face, x, y, z)
            ==> exists|k: int| 0 <= k < quads.len() && #[trigger] unit_at(quads[k], x, y, z)
}

/// The quads come in the order of their cells' linear indices.
pub open spec fn units_ordered(quads: Seq<UnorientedUnitQuad>) -> bool {
    forall|j: int, k: int|
        0 <= j < k < quads.len() ==> cell_before(
            (#[trigger] quads[j]).minimum[0] as int,
            quads[j].minimum[1] as int,
            quads[j].minimum[2] as int,
            (#[trigger] quads[k]).minimum[0] as int,
            quads[k].minimum[1] as int,
            quads[k].minimum[2] as int,
        )
}

/// `quads` is what the simple scanner emits for one face direction: one unit
/// quad for each cell inside the extent that shows this face, and no other,
/// in the order of linear indices.
pub open spec fn is_unit_scan<T, C: VoxelContext<T>>(
    ctx: &C,
    voxels: Seq<T>,
    shape: &GridShape,
    min: [u32; 3],
    max: [u32; 3],
    face: &OrientedBlockFace,
    quads: Seq<UnorientedUnitQuad>,
) -> bool {
    &&& units_visible(ctx, voxels, shape, min, max, face, quads)
    &&& units_complete(ctx, voxels, shape, min, max, face, quads)
    &&& units_ordered(quads)
}

/// The state of a scan whose cursor stands at the cell `(px, py, pz)`:
/// `slot` names, for each cell that shows its face, the number of its quad.
pub open spec fn unit_scan_state<T, C: VoxelContext<T>>(
    ctx: &C,
    voxels: Seq<T>,
    shape: &GridShape,
    min: [u32; 3],
    max: [u32; 3],
    face: &OrientedBlockFace,
    quads: Seq<UnorientedUnitQuad>,
    slot: Map<(int, int, int), int>,
    px: int,
    py: int,
    pz: int,
) -> bool {
    &&& units_visible(ctx, voxels, shape, min, max, face, quads)
    &&& units_ordered(quads)
    &&& forall|k: int|
        0 <= k < quads.len() ==> cell_before(
            (#[trigger] quads[k]).minimum[0] as int,
            quads[k].minimum[1] as int,
            quads[k].minimum[2] as int,
            px,
            py,
            pz,
        )
    &&& forall|x: int, y: int, z: int|
        cell_inside(min, max, x, y, z) && cell_before(x, y, z, px, py, pz) && #[trigger] cell_visible(
            ctx,
            voxels,
            shape,
            face,
            x,
            y,
            z,
        ) ==> slot.dom().contains((x, y, z)) && 0 <= slot[(x, y, z)] < quads.len() && unit_at(
            quads[slot[(x, y, z)]],
            x,
            y,
            z,
        )
}

/// Appends to `group` the unit quads of one face direction.
pub fn visible_faces_for_face<T, C>(
    voxels: &[T],
    voxels_shape: &GridShape,
    min: [u32; 3],
    max: [u32; 3],
    face: &OrientedBlockFace,
    group: &mut Vec<UnorientedUnitQuad>,
    ctx: &C,
) where C: VoxelContext<T>
    requires
        extent_valid(voxels.len() as int, voxels_shape, min, max),
    ensures
        final(group)@.len() >= old(group)@.len(),
        final(group)@.subrange(0, old(group)@.len() as int) == old(group)@,
        is_unit_scan(
            ctx,
            voxels@,
            voxels_shape,
            min,
            max,
            face,
            final(group)@.subrange(old(group)@.len() as int, final(group)@.len() as int),
        ),
{
    let strides = face_strides(voxels_shape, face);
    let ghost base = group@.len() as int;
    let ghost mut slot: Map<(int, int, int), int> = Map::empty();
    let mut z: u32 = min[2] + 1;
    while z < max[2]
        invariant
            extent_valid(voxels.len() as int, voxels_shape, min, max),
            strides_match(voxels_shape, face, &strides),
            min[2] < z,
            group@.len() >= base,
            group@.subrange(0, base) == old(group)@,
            base == old(group)@.len(),
            unit_scan_state(
                ctx,
                voxels@,
                voxels_shape,
                min,
                max,
                face,
                group@.subrange(base, group@.len() as int),
                slot,
                min[0] + 1,
                min[1] + 1,
                z as int,
            ),
        decreases max[2] - z,
    {
        let mut y: u32 = min[1] + 1;
        while y < max[1]
            invariant
                extent_valid(voxels.len() as int, voxels_shape, min, max),
                strides_match(voxels_shape, face, &strides),
                min[2] < z < max[2],
                min[1] < y,
                group@.len() >= base,
                group@.subrange(0, base) == old(group)@,
                base == old(group)@.len(),
                unit_scan_state(
                    ctx,
                    voxels@,
                    voxels_shape,
                    min,
                    max,
                    face,
                    group@.subrange(base, group@.len() as int),
                    slot,
                    min[0] + 1,
                    y as int,
                    z as int,
                ),
            decreases max[1] - y,
        {
            let mut x: u32 = min[0] + 1;
            while x < max[0]
                invariant
                    extent_valid(voxels.len() as int, voxels_shape, min, max),
                    strides_match(voxels_shape, face, &strides),
                    min[2] < z < max[2],
                    min[1] < y < max[1],
                    min[0] < x,
                    group@.len() >= base,
                    group@.subrange(0, base) == old(group)@,
                    base == old(group)@.len(),
                    unit_scan_state(
                        ctx,
                        voxels@,
                        voxels_shape,
                        min,
                        max,
                        face,
                        group@.subrange(base, group@.len() as int),
                        slot,
                        x as int,
                        y as int,
                        z as int,
                    ),
                decreases max[0] - x,
            {
                let p_array: [u32; 3] = [x, y, z];
                let p_index = voxels_shape.linearize(p_array);
                proof {
                    let cn = face.n_at(x as int, y as int, z as int);
                    let cu = face.u_at(x as int, y as int, z as int);
                    let cv = face.v_at(x as int, y as int, z as int);
                    voxels_shape.lemma_face_index(face, cn, cu, cv);
                    voxels_shape.lemma_face_index(face, cn + normal_step(face), cu, cv);
                    lemma_neighbour(voxels_shape, face, &strides, cn, cu, cv);
                    voxels_shape.lemma_face_index_bound(face, cn + normal_step(face), cu, cv);
                }
                let p_voxel = &voxels[p_index as usize];
                let neighbor_index = p_index.wrapping_add(strides.visibility_offset);
                let neighbor_voxel = &voxels[neighbor_index as usize];
                if face_is_visible(ctx, p_voxel, neighbor_voxel) {
                    let ghost earlier = group@.subrange(base, group@.len() as int);
                    let quad = UnorientedUnitQuad { minimum: p_array };
                    group.push(quad);
                    proof {
                        let later = group@.subrange(base, group@.len() as int);
                        assert(later == earlier.push(quad));
                        slot = slot.insert((x as int, y as int, z as int), earlier.len() as int);
                        assert forall|k: int| 0 <= k < earlier.len() implies #[trigger] later[k]
                            == earlier[k] by {}
                    }
                }
                x += 1;
            }
            y += 1;
        }
        z += 1;
    }
}

/// A fast and simple meshing algorithm that produces a single quad for every
/// visible face of a block: to each group of `output` it appends the unit
/// quads of that group's face. Nothing is read or written if the extent does
/// not lie within the grid.
pub fn visible_block_faces<T, C>(
    voxels: &[T],
    voxels_shape: &GridShape,
    min: [u32; 3],
    max: [u32; 3],
    faces: &[OrientedBlockFace; 6],
    output: &mut UnitQuadBuffer,
    ctx: &C,
) -> (r: Result<(), MeshError>) where C: VoxelContext<T>
    ensures
        r == bounds_verdict(voxels.len() as int, voxels_shape, min, max),
        r is Err ==> *final(output) == *old(output),
        r is Ok ==> forall|f: int|
            0 <= f < 6 ==> appended_unit_scan(
                ctx,
                voxels@,
                voxels_shape,
                min,
                max,
                &faces[f],
                (#[trigger] old(output).groups[f])@,
                final(output).groups[f]@,
            ),
{
    visible_block_faces_with_voxel_view(voxels, voxels_shape, min, max, faces, output, ctx)
}

/// `after` is `before` followed by the unit quads of one face direction.
pub open spec fn appended_unit_scan<T, C: VoxelContext<T>>(
    ctx: &C,
    voxels: Seq<T>,
    shape: &GridShape,
    min: [u32; 3],
    max: [u32; 3],
    face: &OrientedBlockFace,
    before: Seq<UnorientedUnitQuad>,
    after: Seq<UnorientedUnitQuad>,
) -> bool {
    &&& after.len() >= before.len()
    &&& after.subrange(0, before.len() as int) == before
    &&& is_unit_scan(
        ctx,
        voxels,
        shape,
        min,
        max,
        face,
        after.subrange(before.len() as int, after.len() as int),
    )
}

/// Same as [`visible_block_faces`], for a context that reads the array as
/// voxels of its own kind.
pub fn visible_block_faces_with_voxel_view<T, C>(
    voxels: &[T],
    voxels_shape: &GridShape,
    min: [u32; 3],
    max: [u32; 3],
    faces: &[OrientedBlockFace; 6],
    output: &mut UnitQuadBuffer,
    ctx: &C,
) -> (r: Result<(), MeshError>) where C: VoxelContext<T>
    ensures
        r == bounds_verdict(voxels.len() as int, voxels_shape, min, max),
        r is Err ==> *final(output) == *old(output),
        r is Ok ==> forall|f: int|
            0 <= f < 6 ==> appended_unit_scan(
                ctx,
                voxels@,
                voxels_shape,
                min,
                max,
                &faces[f],
                (#[trigger] old(output).groups[f])@,
                final(output).groups[f]@,
            ),
{
    match check_bounds(voxels.len(), voxels_shape, min, max) {
        Err(e) => {
            return Err(e);
        },
        Ok(()) => {},
    }
    let mut face_index: usize = 0;
    while face_index < 6
        invariant
            extent_valid(voxels.len() as int, voxels_shape, min, max),
            face_index <= 6,
            forall|f: int|
                face_index <= f < 6 ==> (#[trigger] output.groups[f]) == old(output).groups[f],
            forall|f: int|
                0 <= f < face_index ==> appended_unit_scan(
                    ctx,
                    voxels@,
                    voxels_shape,
                    min,
                    max,
                    &faces[f],
                    (#[trigger] old(output).groups[f])@,
                    output.groups[f]@,
                ),
        decreases 6 - face_index,
    {
        visible_faces_for_face(
            voxels,
            voxels_shape,
            min,
            max,
            &faces[face_index],
            &mut output.groups[face_index],
            ctx,
        );
        face_index += 1;
    }
    Ok(())
}

} // verus!
