//! What holds of the two scanners together.

use vstd::prelude::*;
use crate::bounds::extent_valid;
use crate::geometry::{GridShape, OrientedBlockFace, UnorientedQuad, UnorientedUnitQuad};
use crate::greedy::{
    can_join_at, covered, in_interior, is_face_mesh, normal_step, quad_covers, quad_in_interior,
    quad_is_greedy, quads_disjoint, scan_before, slot_visible,
};
use crate::simple::{cell_before, cell_inside, cell_visible, is_unit_scan, unit_at};
use crate::{MergeVoxelContext, VoxelContext, VoxelVisibility};

verus! {

/// Every voxel of the array is empty.
pub open spec fn all_empty<T, C: VoxelContext<T>>(ctx: &C, voxels: Seq<T>) -> bool {
    forall|i: int| 0 <= i < voxels.len() ==> ctx.visibility_of(&#[trigger] voxels[i]) == VoxelVisibility::Empty
}

/// Some quad of the mesh covers the cell `(x, y, z)`.
pub open spec fn mesh_covers(
    face: &OrientedBlockFace,
    quads: Seq<UnorientedQuad>,
    x: int,
    y: int,
    z: int,
) -> bool {
    exists|k: int|
        0 <= k < quads.len() && #[trigger] quad_covers(
            face,
            quads[k],
            face.n_at(x, y, z),
            face.u_at(x, y, z),
            face.v_at(x, y, z),
        )
}

/// Some unit quad of the scan sits at the cell `(x, y, z)`.
pub open spec fn scan_marks(quads: Seq<UnorientedUnitQuad>, x: int, y: int, z: int) -> bool {
    exists|k: int| 0 <= k < quads.len() && #[trigger] unit_at(quads[k], x, y, z)
}

/// The N, U, V coordinates of a quad's minimum cell name that cell.
proof fn lemma_local_coordinates(face: &OrientedBlockFace, p: [u32; 3])
    ensures
        face.n_at(p[0] as int, p[1] as int, p[2] as int) == face.n_of(p),
        face.u_at(p[0] as int, p[1] as int, p[2] as int) == face.u_of(p),
        face.v_at(p[0] as int, p[1] as int, p[2] as int) == face.v_of(p),
{
}

/// In a grid of empty voxels neither scanner emits a quad, whatever the face.
pub proof fn lemma_empty_grid_has_no_quads<T, C: MergeVoxelContext<T>>(
    ctx: &C,
    voxels: Seq<T>,
    shape: &GridShape,
    min: [u32; 3],
    max: [u32; 3],
    face: &OrientedBlockFace,
    merged: Seq<UnorientedQuad>,
    units: Seq<UnorientedUnitQuad>,
)
    requires
        extent_valid(voxels.len() as int, shape, min, max),
        all_empty(ctx, voxels),
        is_face_mesh(ctx, voxels, shape, min, max, face, merged),
        is_unit_scan(ctx, voxels, shape, min, max, face, units),
    ensures
        merged.len() == 0,
        units.len() == 0,
{
    if merged.len() > 0 {
        let q = merged[0];
        let (cn, cu, cv) = (face.n_of(q.minimum), face.u_of(q.minimum), face.v_of(q.minimum));
        assert(quad_in_interior(face, min, max, q));
        assert(quad_covers(face, merged[0], cn, cu, cv));
        shape.lemma_face_index_bound(face, cn, cu, cv);
        assert(slot_visible(ctx, voxels, shape, face, cn, cu, cv));
        assert(false);
    }
    if units.len() > 0 {
        let p = units[0].minimum;
        let (x, y, z) = (p[0] as int, p[1] as int, p[2] as int);
        assert(cell_inside(min, max, x, y, z));
        assert(cell_visible(ctx, voxels, shape, face, x, y, z));
        shape.lemma_face_index_bound(face, face.n_at(x, y, z), face.u_at(x, y, z), face.v_at(x, y, z));
        assert(false);
    }
}

/// The cells that the merger's quads cover on a face are exactly the cells
/// at which the simple scanner emits a unit quad for that face, and no cell
/// is covered by two of the merger's quads.
pub proof fn lemma_merged_quads_cover_what_the_scan_marks<T, C: MergeVoxelContext<T>>(
    ctx: &C,
    voxels: Seq<T>,
    shape: &GridShape,
    min: [u32; 3],
    max: [u32; 3],
    face: &OrientedBlockFace,
    merged: Seq<UnorientedQuad>,
    units: Seq<UnorientedUnitQuad>,
)
    requires
        is_face_mesh(ctx, voxels, shape, min, max, face, merged),
        is_unit_scan(ctx, voxels, shape, min, max, face, units),
    ensures
        forall|x: int, y: int, z: int| #[trigger]
            mesh_covers(face, merged, x, y, z) <==> scan_marks(units, x, y, z),
        quads_disjoint(face, merged),
{
    assert forall|x: int, y: int, z: int| #[trigger]
        mesh_covers(face, merged, x, y, z) implies scan_marks(units, x, y, z) by {
        let k = choose|k: int|
            0 <= k < merged.len() && #[trigger] quad_covers(
                face,
                merged[k],
                face.n_at(x, y, z),
                face.u_at(x, y, z),
                face.v_at(x, y, z),
            );
        assert(quad_in_interior(face, min, max, merged[k]));
        assert(cell_inside(min, max, x, y, z));
        assert(cell_visible(ctx, voxels, shape, face, x, y, z));
    }
    assert forall|x: int, y: int, z: int| #[trigger]
        scan_marks(units, x, y, z) implies mesh_covers(face, merged, x, y, z) by {
        let j = choose|j: int| 0 <= j < units.len() && #[trigger] unit_at(units[j], x, y, z);
        let p = units[j].minimum;
        assert(cell_inside(min, max, p[0] as int, p[1] as int, p[2] as int));
        assert(cell_visible(ctx, voxels, shape, face, x, y, z));
        assert(in_interior(face, min, max, face.n_at(x, y, z), face.u_at(x, y, z), face.v_at(x, y, z)));
        assert(slot_visible(
            ctx,
            voxels,
            shape,
            face,
            face.n_at(x, y, z),
            face.u_at(x, y, z),
            face.v_at(x, y, z),
        ));
    }
}

/// On every face the merger emits at most as many quads as the simple
/// scanner.
pub proof fn lemma_merging_never_adds_quads<T, C: MergeVoxelContext<T>>(
    ctx: &C,
    voxels: Seq<T>,
    shape: &GridShape,
    min: [u32; 3],
    max: [u32; 3],
    face: &OrientedBlockFace,
    merged: Seq<UnorientedQuad>,
    units: Seq<UnorientedUnitQuad>,
)
    requires
        is_face_mesh(ctx, voxels, shape, min, max, face, merged),
        is_unit_scan(ctx, voxels, shape, min, max, face, units),
    ensures
        merged.len() <= units.len(),
{
    // Each merged quad is sent to the unit quad at its minimum cell.
    let target = Seq::new(
        merged.len(),
        |k: int|
            choose|j: int|
                0 <= j < units.len() && #[trigger] unit_at(
                    units[j],
                    merged[k].minimum[0] as int,
                    merged[k].minimum[1] as int,
                    merged[k].minimum[2] as int,
                ),
    );
    assert forall|k: int| 0 <= k < merged.len() implies 0 <= #[trigger] target[k] < units.len()
        && unit_at(
        units[target[k]],
        merged[k].minimum[0] as int,
        merged[k].minimum[1] as int,
        merged[k].minimum[2] as int,
    ) by {
        let p = merged[k].minimum;
        let (x, y, z) = (p[0] as int, p[1] as int, p[2] as int);
        lemma_local_coordinates(face, p);
        assert(quad_in_interior(face, min, max, merged[k]));
        assert(quad_covers(face, merged[k], face.n_of(p), face.u_of(p), face.v_of(p)));
        assert(cell_inside(min, max, x, y, z));
        assert(cell_visible(ctx, voxels, shape, face, x, y, z));
    }
    assert forall|i: int, k: int|
        0 <= i < target.len() && 0 <= k < target.len() && i != k implies target[i] != target[k] by {
        if target[i] == target[k] {
            let p = merged[i].minimum;
            let q = merged[k].minimum;
            assert(p[0] == q[0] && p[1] == q[1] && p[2] == q[2]);
            lemma_local_coordinates(face, p);
            lemma_local_coordinates(face, q);
            assert(quad_in_interior(face, min, max, merged[i]));
            assert(quad_in_interior(face, min, max, merged[k]));
            assert(quad_covers(face, merged[i], face.n_of(p), face.u_of(p), face.v_of(p)));
            assert(quad_covers(face, merged[k], face.n_of(p), face.u_of(p), face.v_of(p)));
        }
    }
    assert(target.no_duplicates());
    target.unique_seq_to_set();
    vstd::set_lib::lemma_int_range(0, units.len() as int);
    assert(target.to_set().subset_of(vstd::set_lib::set_int_range(0, units.len() as int))) by {
        assert forall|j: int| target.to_set().contains(j) implies vstd::set_lib::set_int_range(
            0,
            units.len() as int,
        ).contains(j) by {
            let k = choose|k: int| 0 <= k < target.len() && target[k] == j;
            assert(0 <= target[k] < units.len());
        }
    }
    vstd::set_lib::lemma_len_subset(
        target.to_set(),
        vstd::set_lib::set_int_range(0, units.len() as int),
    );
}

/// Two cells whose voxels across the face carry different neighbour merge
/// keys, or whose own voxels carry different merge keys, never lie in one
/// quad of that face.
pub proof fn lemma_differing_keys_never_merge<T, C: MergeVoxelContext<T>>(
    ctx: &C,
    voxels: Seq<T>,
    shape: &GridShape,
    min: [u32; 3],
    max: [u32; 3],
    face: &OrientedBlockFace,
    merged: Seq<UnorientedQuad>,
    k: int,
    n1: int,
    u1: int,
    v1: int,
    n2: int,
    u2: int,
    v2: int,
)
    requires
        is_face_mesh(ctx, voxels, shape, min, max, face, merged),
        0 <= k < merged.len(),
        ctx.neighbour_merge_key(&voxels[shape.face_index(face, n1 + normal_step(face), u1, v1)])
            != ctx.neighbour_merge_key(
            &voxels[shape.face_index(face, n2 + normal_step(face), u2, v2)],
        ) || ctx.merge_key(&voxels[shape.face_index(face, n1, u1, v1)]) != ctx.merge_key(
            &voxels[shape.face_index(face, n2, u2, v2)],
        ),
    ensures
        !(quad_covers(face, merged[k], n1, u1, v1) && quad_covers(face, merged[k], n2, u2, v2)),
{
}

/// In a mesh, a cell that shows its face and comes before the minimum cell
/// of quad `k` in scan order is covered by one of the quads before `k`.
proof fn lemma_earlier_cells_are_taken<T, C: MergeVoxelContext<T>>(
    ctx: &C,
    voxels: Seq<T>,
    shape: &GridShape,
    min: [u32; 3],
    max: [u32; 3],
    face: &OrientedBlockFace,
    quads: Seq<UnorientedQuad>,
    k: int,
    cn: int,
    cu: int,
    cv: int,
)
    requires
        is_face_mesh(ctx, voxels, shape, min, max, face, quads),
        0 <= k < quads.len(),
        in_interior(face, min, max, cn, cu, cv),
        slot_visible(ctx, voxels, shape, face, cn, cu, cv),
        scan_before(
            cn,
            cu,
            cv,
            face.n_of(quads[k].minimum),
            face.u_of(quads[k].minimum),
            face.v_of(quads[k].minimum),
        ),
    ensures
        covered(face, quads.take(k), cn, cu, cv),
{
    let j = choose|j: int| 0 <= j < quads.len() && #[trigger] quad_covers(face, quads[j], cn, cu, cv);
    if j > k {
        assert(scan_before(
            face.n_of(quads[k].minimum),
            face.u_of(quads[k].minimum),
            face.v_of(quads[k].minimum),
            face.n_of(quads[j].minimum),
            face.u_of(quads[j].minimum),
            face.v_of(quads[j].minimum),
        ));
    }
    assert(j < k);
    assert(quads.take(k)[j] == quads[j]);
}

/// In a mesh, each cell of quad `k` lies inside the extent, shows its face,
/// shares the keys of the quad's minimum cell, and is covered by none of the
/// quads before `k`.
proof fn lemma_quad_cells_are_free<T, C: MergeVoxelContext<T>>(
    ctx: &C,
    voxels: Seq<T>,
    shape: &GridShape,
    min: [u32; 3],
    max: [u32; 3],
    face: &OrientedBlockFace,
    quads: Seq<UnorientedQuad>,
    k: int,
    a: int,
    b: int,
)
    requires
        is_face_mesh(ctx, voxels, shape, min, max, face, quads),
        0 <= k < quads.len(),
        0 <= a < quads[k].width,
        0 <= b < quads[k].height,
    ensures
        in_interior(
            face,
            min,
            max,
            face.n_of(quads[k].minimum),
            face.u_of(quads[k].minimum) + a,
            face.v_of(quads[k].minimum) + b,
        ),
        can_join_at(ctx, voxels, shape, face, quads.take(k), quads[k], a, b),
{
    let q = quads[k];
    let (cn, cu, cv) = (face.n_of(q.minimum), face.u_of(q.minimum) + a, face.v_of(q.minimum) + b);
    assert(quad_in_interior(face, min, max, q));
    assert(quad_covers(face, quads[k], cn, cu, cv));
    if covered(face, quads.take(k), cn, cu, cv) {
        let j = choose|j: int|
            0 <= j < quads.take(k).len() && #[trigger] quad_covers(
                face,
                quads.take(k)[j],
                cn,
                cu,
                cv,
            );
        assert(quads.take(k)[j] == quads[j]);
        assert(quad_covers(face, quads[j], cn, cu, cv));
        assert(false);
    }
}

/// Two greedy meshes of the same input agree on their first `k` quads.
proof fn lemma_prefixes_agree<T, C: MergeVoxelContext<T>>(
    ctx: &C,
    voxels: Seq<T>,
    shape: &GridShape,
    min: [u32; 3],
    max: [u32; 3],
    face: &OrientedBlockFace,
    first: Seq<UnorientedQuad>,
    second: Seq<UnorientedQuad>,
    k: int,
)
    requires
        is_face_mesh(ctx, voxels, shape, min, max, face, first),
        is_face_mesh(ctx, voxels, shape, min, max, face, second),
        0 <= k <= first.len(),
        k <= second.len(),
    ensures
        first.take(k) == second.take(k),
    decreases k,
{
    if k == 0 {
        assert(first.take(0) =~= second.take(0));
    } else {
        let i = k - 1;
        lemma_prefixes_agree(ctx, voxels, shape, min, max, face, first, second, i);
        let p = first[i];
        let q = second[i];
        let (pn, pu, pv) = (face.n_of(p.minimum), face.u_of(p.minimum), face.v_of(p.minimum));
        let (qn, qu, qv) = (face.n_of(q.minimum), face.u_of(q.minimum), face.v_of(q.minimum));
        lemma_quad_cells_are_free(ctx, voxels, shape, min, max, face, first, i, 0, 0);
        lemma_quad_cells_are_free(ctx, voxels, shape, min, max, face, second, i, 0, 0);
        assert(quad_in_interior(face, min, max, p));
        assert(quad_in_interior(face, min, max, q));
        if scan_before(pn, pu, pv, qn, qu, qv) {
            lemma_earlier_cells_are_taken(ctx, voxels, shape, min, max, face, second, i, pn, pu, pv);
            assert(false);
        }
        if scan_before(qn, qu, qv, pn, pu, pv) {
            lemma_earlier_cells_are_taken(ctx, voxels, shape, min, max, face, first, i, qn, qu, qv);
            assert(false);
        }
        assert(pn == qn && pu == qu && pv == qv);
        assert(quad_is_greedy(ctx, voxels, shape, max, face, first.take(i), first[i]));
        assert(quad_is_greedy(ctx, voxels, shape, max, face, second.take(i), second[i]));
        if p.width < q.width {
            lemma_quad_cells_are_free(
                ctx,
                voxels,
                shape,
                min,
                max,
                face,
                second,
                i,
                p.width as int,
                0,
            );
            assert(false);
        }
        if q.width < p.width {
            lemma_quad_cells_are_free(
                ctx,
                voxels,
                shape,
                min,
                max,
                face,
                first,
                i,
                q.width as int,
                0,
            );
            assert(false);
        }
        if p.height < q.height {
            let a = choose|a: int|
                0 <= a < p.width && !#[trigger] can_join_at(
                    ctx,
                    voxels,
                    shape,
                    face,
                    first.take(i),
                    p,
                    a,
                    p.height as int,
                );
            lemma_quad_cells_are_free(
                ctx,
                voxels,
                shape,
                min,
                max,
                face,
                second,
                i,
                a,
                p.height as int,
            );
            assert(false);
        }
        if q.height < p.height {
            let a = choose|a: int|
                0 <= a < q.width && !#[trigger] can_join_at(
                    ctx,
                    voxels,
                    shape,
                    face,
                    second.take(i),
                    q,
                    a,
                    q.height as int,
                );
            lemma_quad_cells_are_free(
                ctx,
                voxels,
                shape,
                min,
                max,
                face,
                first,
                i,
                a,
                q.height as int,
            );
            assert(false);
        }
        assert(p.minimum =~= q.minimum);
        assert(p == q);
        assert(first.take(k) =~= first.take(i).push(p));
        assert(second.take(k) =~= second.take(i).push(q));
    }
}

/// The greedy mesh of a face is determined by the input: two runs of the
/// merger on the same voxels, shape, extent, face and context yield the same
/// quads in the same order.
pub proof fn lemma_merging_is_deterministic<T, C: MergeVoxelContext<T>>(
    ctx: &C,
    voxels: Seq<T>,
    shape: &GridShape,
    min: [u32; 3],
    max: [u32; 3],
    face: &OrientedBlockFace,
    first: Seq<UnorientedQuad>,
    second: Seq<UnorientedQuad>,
)
    requires
        is_face_mesh(ctx, voxels, shape, min, max, face, first),
        is_face_mesh(ctx, voxels, shape, min, max, face, second),
    ensures
        first == second,
{
    let k = if first.len() <= second.len() {
        first.len() as int
    } else {
        second.len() as int
    };
    lemma_prefixes_agree(ctx, voxels, shape, min, max, face, first, second, k);
    if first.len() <= second.len() {
        lemma_no_quad_follows(ctx, voxels, shape, min, max, face, second, first);
    } else {
        lemma_no_quad_follows(ctx, voxels, shape, min, max, face, first, second);
    }
    assert(first.take(k) =~= first);
    assert(second.take(k) =~= second);
}

/// A greedy mesh that begins with all of another greedy mesh of the same
/// input ends where that one ends.
proof fn lemma_no_quad_follows<T, C: MergeVoxelContext<T>>(
    ctx: &C,
    voxels: Seq<T>,
    shape: &GridShape,
    min: [u32; 3],
    max: [u32; 3],
    face: &OrientedBlockFace,
    longer: Seq<UnorientedQuad>,
    shorter: Seq<UnorientedQuad>,
)
    requires
        is_face_mesh(ctx, voxels, shape, min, max, face, longer),
        is_face_mesh(ctx, voxels, shape, min, max, face, shorter),
        shorter.len() <= longer.len(),
        longer.take(shorter.len() as int) == shorter.take(shorter.len() as int),
    ensures
        longer.len() == shorter.len(),
{
    let k = shorter.len() as int;
    if k < longer.len() {
        let q = longer[k];
        let (cn, cu, cv) = (face.n_of(q.minimum), face.u_of(q.minimum), face.v_of(q.minimum));
        lemma_quad_cells_are_free(ctx, voxels, shape, min, max, face, longer, k, 0, 0);
        let j = choose|j: int|
            0 <= j < shorter.len() && #[trigger] quad_covers(face, shorter[j], cn, cu, cv);
        assert(shorter.take(k)[j] == shorter[j]);
        assert(longer.take(k)[j] == shorter[j]);
        assert(quad_covers(face, longer.take(k)[j], cn, cu, cv));
        assert(false);
    }
}

/// Two scans of the same input by the simple scanner agree on their first
/// `k` quads.
proof fn lemma_scan_prefixes_agree<T, C: VoxelContext<T>>(
    ctx: &C,
    voxels: Seq<T>,
    shape: &GridShape,
    min: [u32; 3],
    max: [u32; 3],
    face: &OrientedBlockFace,
    first: Seq<UnorientedUnitQuad>,
    second: Seq<UnorientedUnitQuad>,
    k: int,
)
    requires
        is_unit_scan(ctx, voxels, shape, min, max, face, first),
        is_unit_scan(ctx, voxels, shape, min, max, face, second),
        0 <= k <= first.len(),
        k <= second.len(),
    ensures
        first.take(k) == second.take(k),
    decreases k,
{
    if k == 0 {
        assert(first.take(0) =~= second.take(0));
    } else {
        let i = k - 1;
        lemma_scan_prefixes_agree(ctx, voxels, shape, min, max, face, first, second, i);
        let p = first[i].minimum;
        let q = second[i].minimum;
        lemma_scan_holds_no_earlier_cell(ctx, voxels, shape, min, max, face, first, second, i);
        lemma_scan_holds_no_earlier_cell(ctx, voxels, shape, min, max, face, second, first, i);
        assert(p =~= q);
        assert(first[i] == second[i]);
        assert(first.take(k) =~= first.take(i).push(first[i]));
        assert(second.take(k) =~= second.take(i).push(second[i]));
    }
}

/// Where two scans of the same input agree on their first `i` quads, quad
/// `i` of the one does not sit at an earlier cell than quad `i` of the other.
proof fn lemma_scan_holds_no_earlier_cell<T, C: VoxelContext<T>>(
    ctx: &C,
    voxels: Seq<T>,
    shape: &GridShape,
    min: [u32; 3],
    max: [u32; 3],
    face: &OrientedBlockFace,
    one: Seq<UnorientedUnitQuad>,
    other: Seq<UnorientedUnitQuad>,
    i: int,
)
    requires
        is_unit_scan(ctx, voxels, shape, min, max, face, one),
        is_unit_scan(ctx, voxels, shape, min, max, face, other),
        0 <= i < one.len(),
        i < other.len(),
        one.take(i) == other.take(i),
    ensures
        !cell_before(
            one[i].minimum[0] as int,
            one[i].minimum[1] as int,
            one[i].minimum[2] as int,
            other[i].minimum[0] as int,
            other[i].minimum[1] as int,
            other[i].minimum[2] as int,
        ),
{
    let p = one[i].minimum;
    let (x, y, z) = (p[0] as int, p[1] as int, p[2] as int);
    assert(cell_inside(min, max, x, y, z) && cell_visible(ctx, voxels, shape, face, x, y, z));
    let j = choose|j: int| 0 <= j < other.len() && #[trigger] unit_at(other[j], x, y, z);
    if j < i {
        assert(other.take(i)[j] == other[j]);
        assert(one.take(i)[j] == one[j]);
        assert(unit_at(one[j], x, y, z));
    }
}

/// What the simple scanner emits for a face is determined by the input.
pub proof fn lemma_scanning_is_deterministic<T, C: VoxelContext<T>>(
    ctx: &C,
    voxels: Seq<T>,
    shape: &GridShape,
    min: [u32; 3],
    max: [u32; 3],
    face: &OrientedBlockFace,
    first: Seq<UnorientedUnitQuad>,
    second: Seq<UnorientedUnitQuad>,
)
    requires
        is_unit_scan(ctx, voxels, shape, min, max, face, first),
        is_unit_scan(ctx, voxels, shape, min, max, face, second),
    ensures
        first == second,
{
    let k = if first.len() <= second.len() {
        first.len() as int
    } else {
        second.len() as int
    };
    lemma_scan_prefixes_agree(ctx, voxels, shape, min, max, face, first, second, k);
    if first.len() <= second.len() {
        lemma_no_unit_follows(ctx, voxels, shape, min, max, face, second, first);
    } else {
        lemma_no_unit_follows(ctx, voxels, shape, min, max, face, first, second);
    }
    assert(first.take(k) =~= first);
    assert(second.take(k) =~= second);
}

/// A scan that begins with all of another scan of the same input ends where
/// that one ends.
proof fn lemma_no_unit_follows<T, C: VoxelContext<T>>(
    ctx: &C,
    voxels: Seq<T>,
    shape: &GridShape,
    min: [u32; 3],
    max: [u32; 3],
    face: &OrientedBlockFace,
    longer: Seq<UnorientedUnitQuad>,
    shorter: Seq<UnorientedUnitQuad>,
)
    requires
        is_unit_scan(ctx, voxels, shape, min, max, face, longer),
        is_unit_scan(ctx, voxels, shape, min, max, face, shorter),
        shorter.len() <= longer.len(),
        longer.take(shorter.len() as int) == shorter.take(shorter.len() as int),
    ensures
        longer.len() == shorter.len(),
{
    let k = shorter.len() as int;
    if k < longer.len() {
        let p = longer[k].minimum;
        let (x, y, z) = (p[0] as int, p[1] as int, p[2] as int);
        assert(cell_inside(min, max, x, y, z) && cell_visible(ctx, voxels, shape, face, x, y, z));
        let j = choose|j: int| 0 <= j < shorter.len() && #[trigger] unit_at(shorter[j], x, y, z);
        assert(shorter.take(k)[j] == shorter[j]);
        assert(longer.take(k)[j] == longer[j]);
        assert(unit_at(longer[j], x, y, z));
        assert(false);
    }
}

} // verus!
