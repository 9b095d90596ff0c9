use block_mesh::{
    check_bounds, face_is_visible, face_needs_mesh, greedy_quads, right_handed_y_up_faces,
    visible_block_faces, AxisPermutation, DefaultVoxelContext, FaceStrides, GreedyQuadsBuffer,
    GridShape, MergeStrategy, MergeVoxel, MergeVoxelContext, MeshError, OrientedBlockFace,
    UnitQuadBuffer, UnorientedQuad, UnorientedUnitQuad, Voxel, VoxelContext, VoxelMerger,
    VoxelVisibility,
};
use ndshape::Shape;

#[derive(Default, Clone, Copy, Eq, PartialEq, Debug)]
struct BoolVoxel(bool);

const EMPTY: BoolVoxel = BoolVoxel(false);
const FULL: BoolVoxel = BoolVoxel(true);

impl Voxel for BoolVoxel {
    fn visibility(&self) -> VoxelVisibility {
        self.get_visibility()
    }

    fn get_visibility(&self) -> VoxelVisibility {
        if *self == EMPTY {
            VoxelVisibility::Empty
        } else {
            VoxelVisibility::Opaque
        }
    }
}

impl MergeVoxel for BoolVoxel {
    type MergeValue = bool;
    type MergeValueFacingNeighbour = bool;

    fn merge_key(&self) -> bool {
        self.0
    }

    fn neighbour_merge_key(&self) -> bool {
        self.0
    }

    fn merge_value(&self) -> bool {
        self.0
    }

    fn merge_value_facing_neighbour(&self) -> bool {
        self.0
    }
}

/// A voxel with a visibility code (0 empty, 1 translucent, 2 opaque) and two keys.
#[derive(Clone, Copy, Debug, PartialEq, Eq)]
struct Cell {
    vis: u8,
    key: u32,
    facing: u32,
}

const AIR: Cell = Cell { vis: 0, key: 0, facing: 0 };

struct CellContext;

impl VoxelContext<Cell> for CellContext {
    fn visibility_of(&self, voxel: &Cell) -> VoxelVisibility {
        self.get_visibility(voxel)
    }

    fn get_visibility(&self, voxel: &Cell) -> VoxelVisibility {
        match voxel.vis {
            0 => VoxelVisibility::Empty,
            1 => VoxelVisibility::Translucent,
            _ => VoxelVisibility::Opaque,
        }
    }
}

impl MergeVoxelContext<Cell> for CellContext {
    type MergeValue = u32;
    type MergeValueFacingNeighbour = u32;

    fn merge_key(&self, voxel: &Cell) -> u32 {
        voxel.key
    }

    fn neighbour_merge_key(&self, voxel: &Cell) -> u32 {
        voxel.facing
    }

    fn merge_value(&self, voxel: &Cell) -> u32 {
        voxel.key
    }

    fn merge_value_facing_neighbour(&self, voxel: &Cell) -> u32 {
        voxel.facing
    }
}

fn lin(dims: [u32; 3], p: [u32; 3]) -> usize {
    (p[0] + dims[0] * p[1] + dims[0] * dims[1] * p[2]) as usize
}

fn total(buffer: &GreedyQuadsBuffer) -> usize {
    buffer.quads.groups.iter().map(|g| g.len()).sum()
}

fn solid_cube(n: u32) -> ([u32; 3], Vec<BoolVoxel>) {
    let dims = [n + 2; 3];
    let mut voxels = vec![EMPTY; ((n + 2) * (n + 2) * (n + 2)) as usize];
    for z in 1..=n {
        for y in 1..=n {
            for x in 1..=n {
                voxels[lin(dims, [x, y, z])] = FULL;
            }
        }
    }
    (dims, voxels)
}

/// The cells of face `f` that a quad covers, as grid points.
fn cells_of(face: &OrientedBlockFace, q: &UnorientedQuad) -> Vec<[u32; 3]> {
    let axes = face.permutation.axes();
    let mut out = Vec::new();
    for b in 0..q.height {
        for a in 0..q.width {
            let mut p = q.minimum;
            p[axes[1]] += a;
            p[axes[2]] += b;
            out.push(p);
        }
    }
    out
}

/// A grid with a little of everything: opaque, translucent and empty cells, with varying keys.
fn mixed_grid() -> ([u32; 3], Vec<Cell>) {
    let dims = [7u32, 6, 5];
    let mut voxels = vec![AIR; (7 * 6 * 5) as usize];
    let mut seed: u32 = 12345;
    for z in 0..5 {
        for y in 0..6 {
            for x in 0..7 {
                seed = seed.wrapping_mul(1103515245).wrapping_add(12345);
                let r = (seed >> 16) % 10;
                let vis = if r < 3 { 0 } else if r < 5 { 1 } else { 2 };
                let key = (seed >> 8) % 2;
                let facing = (seed >> 4) % 2;
                voxels[lin(dims, [x, y, z])] = Cell { vis, key, facing };
            }
        }
    }
    (dims, voxels)
}

#[test]
#[should_panic]
fn panics_with_max_out_of_bounds_access() {
    let samples = vec![EMPTY; 34 * 34 * 34];
    let mut buffer = UnitQuadBuffer::new();
    visible_block_faces(
        &samples,
        &GridShape::new([34, 34, 34]),
        [0; 3],
        [34, 33, 33],
        &right_handed_y_up_faces(),
        &mut buffer,
        &DefaultVoxelContext,
    )
    .unwrap();
}

#[test]
#[should_panic]
fn panics_with_min_out_of_bounds_access() {
    let samples = vec![EMPTY; 34 * 34 * 34];
    let mut buffer = UnitQuadBuffer::new();
    visible_block_faces(
        &samples,
        &GridShape::new([34, 34, 34]),
        [0, 34, 0],
        [33; 3],
        &right_handed_y_up_faces(),
        &mut buffer,
        &DefaultVoxelContext,
    )
    .unwrap();
}

#[test]
fn out_of_bounds_extents_are_rejected_without_scanning() {
    let samples = vec![FULL; 34 * 34 * 34];
    let shape = GridShape::new([34, 34, 34]);
    let faces = right_handed_y_up_faces();
    let mut buffer = UnitQuadBuffer::new();
    let r = visible_block_faces(&samples, &shape, [0; 3], [34, 33, 33], &faces, &mut buffer, &DefaultVoxelContext);
    assert_eq!(r, Err(MeshError::ExtentOutOfBounds));
    assert_eq!(buffer.num_quads(), 0);
    let r = visible_block_faces(&samples, &shape, [0, 34, 0], [33; 3], &faces, &mut buffer, &DefaultVoxelContext);
    assert_eq!(r, Err(MeshError::EmptyExtent));
    let mut greedy = GreedyQuadsBuffer::new(samples.len());
    let r = greedy_quads(&samples, &shape, [0; 3], [34, 33, 33], &faces, &mut greedy, &DefaultVoxelContext);
    assert_eq!(r, Err(MeshError::ExtentOutOfBounds));
    assert_eq!(total(&greedy), 0);
}

#[test]
fn check_bounds_names_each_fault() {
    let shape = GridShape::new([4, 4, 4]);
    assert_eq!(check_bounds(64, &shape, [0; 3], [3; 3]), Ok(()));
    assert_eq!(check_bounds(100, &shape, [1, 2, 3], [1, 2, 3]), Ok(()));
    assert_eq!(check_bounds(64, &GridShape::new([4, 0, 4]), [0; 3], [3; 3]), Err(MeshError::EmptyShape));
    assert_eq!(
        check_bounds(64, &GridShape::new([65536, 65536, 1]), [0; 3], [3; 3]),
        Err(MeshError::ShapeTooLarge)
    );
    assert_eq!(
        check_bounds(64, &GridShape::new([2048, 2048, 2048]), [0; 3], [3; 3]),
        Err(MeshError::ShapeTooLarge)
    );
    assert_eq!(check_bounds(63, &shape, [0; 3], [3; 3]), Err(MeshError::VoxelsTooShort));
    assert_eq!(check_bounds(64, &shape, [0, 0, 2], [3, 3, 1]), Err(MeshError::EmptyExtent));
    assert_eq!(check_bounds(64, &shape, [0; 3], [3, 4, 3]), Err(MeshError::ExtentOutOfBounds));
}

#[test]
fn linearize_is_x_fastest() {
    let shape = GridShape::new([7, 6, 5]);
    assert_eq!(shape.linearize([0, 0, 0]), 0);
    assert_eq!(shape.linearize([3, 0, 0]), 3);
    assert_eq!(shape.linearize([0, 1, 0]), 7);
    assert_eq!(shape.linearize([0, 0, 1]), 42);
    assert_eq!(shape.linearize([6, 5, 4]), 209);
    assert_eq!(shape.axis_stride(0), 1);
    assert_eq!(shape.axis_stride(1), 7);
    assert_eq!(shape.axis_stride(2), 42);
}

#[test]
fn linearize_agrees_with_ndshape() {
    let dims = [7u32, 6, 5];
    let theirs = ndshape::RuntimeShape::<u32, 3>::new(dims);
    let ours = GridShape::new(theirs.as_array());
    assert_eq!(ours.dims, dims);
    for z in 0..5 {
        for y in 0..6 {
            for x in 0..7 {
                assert_eq!(ours.linearize([x, y, z]), theirs.linearize([x, y, z]));
            }
        }
    }
    assert_eq!(ours.axis_stride(0), theirs.linearize([1, 0, 0]));
    assert_eq!(ours.axis_stride(1), theirs.linearize([0, 1, 0]));
    assert_eq!(ours.axis_stride(2), theirs.linearize([0, 0, 1]));
    let strides = [theirs.linearize([1, 0, 0]), theirs.linearize([0, 1, 0]), theirs.linearize([0, 0, 1])];
    assert_eq!(GridShape::from_layout(dims, strides), Some(ours));
}

#[test]
fn from_layout_accepts_only_x_fastest() {
    let dims = [7u32, 6, 5];
    assert_eq!(GridShape::from_layout(dims, [1, 7, 42]), Some(GridShape::new(dims)));
    assert_eq!(GridShape::from_layout(dims, [2, 7, 42]), None);
    assert_eq!(GridShape::from_layout(dims, [1, 6, 42]), None);
    assert_eq!(GridShape::from_layout(dims, [1, 7, 35]), None);
    // Z fastest.
    assert_eq!(GridShape::from_layout(dims, [30, 5, 1]), None);
    // The stride of a flat axis does not matter.
    assert_eq!(GridShape::from_layout([7, 1, 5], [1, 0, 7]), Some(GridShape::new([7, 1, 5])));
    assert_eq!(GridShape::from_layout([1, 1, 1], [9, 9, 9]), Some(GridShape::new([1, 1, 1])));
    // The plane size is compared without wrapping.
    assert_eq!(GridShape::from_layout([65536, 65536, 2], [1, 65536, 0]), None);
}

#[test]
fn face_table_and_points() {
    let faces = right_handed_y_up_faces();
    assert_eq!(faces[0], OrientedBlockFace::new(-1, AxisPermutation::Xzy));
    assert_eq!(faces[4], OrientedBlockFace::new(1, AxisPermutation::Yzx));
    assert_eq!(AxisPermutation::Xzy.axes(), [0, 2, 1]);
    assert_eq!(AxisPermutation::Yzx.axes(), [1, 2, 0]);
    assert_eq!(AxisPermutation::Zxy.axes(), [2, 0, 1]);
    // N = 10 on Y, U = 20 on Z, V = 30 on X.
    assert_eq!(faces[1].point(10, 20, 30), [30, 10, 20]);
    assert_eq!(faces[5].point(10, 20, 30), [20, 30, 10]);
}

#[test]
fn visibility_predicate_truth_table() {
    let ctx = CellContext;
    let cell = |vis: u8| Cell { vis, key: 0, facing: 0 };
    // voxel, adjacent, expected
    let table = [
        (0, 0, false),
        (0, 1, false),
        (0, 2, false),
        (1, 0, true),
        (1, 1, false),
        (1, 2, false),
        (2, 0, true),
        (2, 1, true),
        (2, 2, false),
    ];
    for (v, a, expected) in table {
        assert_eq!(face_is_visible(&ctx, &cell(v), &cell(a)), expected, "{v} beside {a}");
    }
}

#[test]
fn face_needs_mesh_honours_visited_and_wraps_the_offset() {
    let ctx = CellContext;
    let solid = Cell { vis: 2, key: 0, facing: 0 };
    let voxels = [AIR, solid, solid, AIR];
    let fresh = [false; 4];
    // Looking one slot up.
    assert!(!face_needs_mesh(&voxels[1], 1, 1, &voxels, &fresh, &ctx));
    assert!(face_needs_mesh(&voxels[2], 2, 1, &voxels, &fresh, &ctx));
    // Looking one slot down: the offset is the 32-bit two's complement of 1.
    assert!(face_needs_mesh(&voxels[1], 1, u32::MAX, &voxels, &fresh, &ctx));
    assert!(!face_needs_mesh(&voxels[2], 2, u32::MAX, &voxels, &fresh, &ctx));
    let taken = [false, false, true, false];
    assert!(!face_needs_mesh(&voxels[2], 2, 1, &voxels, &taken, &ctx));
    assert!(!face_needs_mesh(&voxels[0], 0, 1, &voxels, &fresh, &ctx));
}

#[test]
fn row_width_stops_at_the_first_mismatch() {
    let ctx = CellContext;
    let s = |key: u32| Cell { vis: 2, key, facing: 0 };
    // One row of six cells at slots 6..12, with air across the face at slots 0..6.
    let mut voxels = vec![AIR; 12];
    for (i, key) in [5u32, 5, 5, 9, 5, 5].into_iter().enumerate() {
        voxels[6 + i] = s(key);
    }
    let visited = vec![false; 12];
    let off = 0u32.wrapping_sub(6);
    let width = |start: u32, max: u32, visited: &[bool]| {
        VoxelMerger::<Cell>::get_row_width(&voxels, visited, &5u32, &0u32, off, start, 1, max, &ctx)
    };
    assert_eq!(width(6, 6, &visited), 3);
    assert_eq!(width(6, 2, &visited), 2);
    assert_eq!(width(6, 0, &visited), 0);
    assert_eq!(width(9, 3, &visited), 0);
    assert_eq!(width(10, 2, &visited), 2);
    let mut taken = visited.clone();
    taken[7] = true;
    assert_eq!(width(6, 6, &taken), 1);
    // A different neighbour key matches nothing.
    assert_eq!(
        VoxelMerger::<Cell>::get_row_width(&voxels, &visited, &5u32, &1u32, off, 6, 1, 6, &ctx),
        0
    );
}

#[test]
fn find_quad_grows_width_first_then_height() {
    let ctx = CellContext;
    let s = Cell { vis: 2, key: 1, facing: 0 };
    // A 5 x 4 slice above a 5 x 4 slice of air; rows along U have stride 1, V has stride 5.
    // Row 0: s s s . .      Row 1: s s s s s      Row 2: s s . s s     Row 3: s s s s s
    let mut voxels = vec![AIR; 40];
    let rows = [[1, 1, 1, 0, 0], [1, 1, 1, 1, 1], [1, 1, 0, 1, 1], [1, 1, 1, 1, 1]];
    for (v, row) in rows.iter().enumerate() {
        for (u, full) in row.iter().enumerate() {
            if *full == 1 {
                voxels[20 + v * 5 + u] = s;
            }
        }
    }
    let visited = vec![false; 40];
    let strides = FaceStrides {
        n_stride: 20,
        u_stride: 1,
        v_stride: 5,
        visibility_offset: 0u32.wrapping_sub(20),
    };
    // Width 3 is fixed by row 0; row 2 matches only two cells, so it is rejected whole.
    assert_eq!(VoxelMerger::<Cell>::find_quad(20, 5, 4, &strides, &voxels, &visited, &ctx), (3, 2));
    // From the second cell of row 2 nothing matches to the right; the rows below do.
    assert_eq!(VoxelMerger::<Cell>::find_quad(31, 4, 2, &strides, &voxels, &visited, &ctx), (1, 2));
    // The caps are respected.
    assert_eq!(VoxelMerger::<Cell>::find_quad(25, 5, 1, &strides, &voxels, &visited, &ctx), (5, 1));
    assert_eq!(VoxelMerger::<Cell>::find_quad(25, 2, 3, &strides, &voxels, &visited, &ctx), (2, 3));
}

#[test]
fn all_empty_grid_produces_no_quads() {
    let dims = [6u32, 5, 4];
    let voxels = vec![EMPTY; 120];
    let shape = GridShape::new(dims);
    let faces = right_handed_y_up_faces();
    let mut unit = UnitQuadBuffer::new();
    assert_eq!(visible_block_faces(&voxels, &shape, [0; 3], [5, 4, 3], &faces, &mut unit, &DefaultVoxelContext), Ok(()));
    let mut greedy = GreedyQuadsBuffer::new(voxels.len());
    assert_eq!(greedy_quads(&voxels, &shape, [0; 3], [5, 4, 3], &faces, &mut greedy, &DefaultVoxelContext), Ok(()));
    for f in 0..6 {
        assert!(unit.groups[f].is_empty());
        assert!(greedy.quads.groups[f].is_empty());
    }
}

#[test]
fn solid_cube_gives_one_quad_per_face() {
    for n in [1u32, 2, 4, 7] {
        let (dims, voxels) = solid_cube(n);
        let shape = GridShape::new(dims);
        let faces = right_handed_y_up_faces();
        let mut greedy = GreedyQuadsBuffer::new(voxels.len());
        greedy_quads(&voxels, &shape, [0; 3], [n + 1; 3], &faces, &mut greedy, &DefaultVoxelContext).unwrap();
        assert_eq!(total(&greedy), 6);
        assert_eq!(greedy.quads.num_quads(), 6);
        for f in 0..6 {
            let group = &greedy.quads.groups[f];
            assert_eq!(group.len(), 1);
            assert_eq!((group[0].width, group[0].height), (n, n));
            let mut corner = [1u32; 3];
            if faces[f].n_sign > 0 {
                corner[faces[f].permutation.axes()[0]] = n;
            }
            assert_eq!(group[0].minimum, corner);
        }
        let mut unit = UnitQuadBuffer::new();
        visible_block_faces(&voxels, &shape, [0; 3], [n + 1; 3], &faces, &mut unit, &DefaultVoxelContext).unwrap();
        for f in 0..6 {
            assert_eq!(unit.groups[f].len() as u32, n * n);
        }
    }
}

#[test]
fn row_of_two_voxels() {
    // Two opaque voxels side by side along X.
    let dims = [4u32, 3, 3];
    let mut voxels = vec![EMPTY; 36];
    voxels[lin(dims, [1, 1, 1])] = FULL;
    voxels[lin(dims, [2, 1, 1])] = FULL;
    let shape = GridShape::new(dims);
    let faces = right_handed_y_up_faces();
    let mut greedy = GreedyQuadsBuffer::new(voxels.len());
    greedy_quads(&voxels, &shape, [0; 3], [3, 2, 2], &faces, &mut greedy, &DefaultVoxelContext).unwrap();
    let g = &greedy.quads.groups;
    // The end caps, looking along X.
    assert_eq!(g[0], vec![UnorientedQuad { minimum: [1, 1, 1], width: 1, height: 1 }]);
    assert_eq!(g[3], vec![UnorientedQuad { minimum: [2, 1, 1], width: 1, height: 1 }]);
    // Looking along Y the row runs along V, looking along Z it runs along U.
    assert_eq!(g[1], vec![UnorientedQuad { minimum: [1, 1, 1], width: 1, height: 2 }]);
    assert_eq!(g[4], vec![UnorientedQuad { minimum: [1, 1, 1], width: 1, height: 2 }]);
    assert_eq!(g[2], vec![UnorientedQuad { minimum: [1, 1, 1], width: 2, height: 1 }]);
    assert_eq!(g[5], vec![UnorientedQuad { minimum: [1, 1, 1], width: 2, height: 1 }]);
    let mut unit = UnitQuadBuffer::new();
    visible_block_faces(&voxels, &shape, [0; 3], [3, 2, 2], &faces, &mut unit, &DefaultVoxelContext).unwrap();
    assert_eq!(unit.groups[0], vec![UnorientedUnitQuad { minimum: [1, 1, 1] }]);
    assert_eq!(unit.groups[3], vec![UnorientedUnitQuad { minimum: [2, 1, 1] }]);
    for f in [1, 2, 4, 5] {
        assert_eq!(
            unit.groups[f],
            vec![UnorientedUnitQuad { minimum: [1, 1, 1] }, UnorientedUnitQuad { minimum: [2, 1, 1] }]
        );
    }
    assert_eq!(unit.num_quads(), 10);
}

#[test]
fn differing_neighbour_keys_keep_faces_apart() {
    let dims = [4u32, 3, 3];
    let mut voxels = vec![AIR; 36];
    let solid = Cell { vis: 2, key: 7, facing: 0 };
    voxels[lin(dims, [1, 1, 1])] = solid;
    voxels[lin(dims, [2, 1, 1])] = solid;
    // Above the two voxels the air differs.
    voxels[lin(dims, [1, 2, 1])] = Cell { vis: 0, key: 0, facing: 1 };
    voxels[lin(dims, [2, 2, 1])] = Cell { vis: 0, key: 0, facing: 2 };
    let shape = GridShape::new(dims);
    let faces = right_handed_y_up_faces();
    let mut greedy = GreedyQuadsBuffer::new(voxels.len());
    greedy_quads(&voxels, &shape, [0; 3], [3, 2, 2], &faces, &mut greedy, &CellContext).unwrap();
    let g = &greedy.quads.groups;
    assert_eq!(
        g[4],
        vec![
            UnorientedQuad { minimum: [1, 1, 1], width: 1, height: 1 },
            UnorientedQuad { minimum: [2, 1, 1], width: 1, height: 1 },
        ]
    );
    // Below them it does not.
    assert_eq!(g[1], vec![UnorientedQuad { minimum: [1, 1, 1], width: 1, height: 2 }]);
    // Differing keys of the voxels themselves split every shared face.
    voxels[lin(dims, [2, 1, 1])] = Cell { vis: 2, key: 8, facing: 0 };
    greedy_quads(&voxels, &shape, [0; 3], [3, 2, 2], &faces, &mut greedy, &CellContext).unwrap();
    for f in [1, 2, 4, 5] {
        assert_eq!(greedy.quads.groups[f].len(), 2);
    }
}

#[test]
fn translucent_beside_translucent_is_not_meshed() {
    let dims = [4u32, 3, 3];
    let mut voxels = vec![AIR; 36];
    voxels[lin(dims, [1, 1, 1])] = Cell { vis: 1, key: 0, facing: 0 };
    voxels[lin(dims, [2, 1, 1])] = Cell { vis: 2, key: 0, facing: 0 };
    let shape = GridShape::new(dims);
    let faces = right_handed_y_up_faces();
    let mut unit = UnitQuadBuffer::new();
    visible_block_faces(&voxels, &shape, [0; 3], [3, 2, 2], &faces, &mut unit, &CellContext).unwrap();
    // -X: only the translucent voxel's outer face; the opaque one shows through it.
    assert_eq!(
        unit.groups[0],
        vec![UnorientedUnitQuad { minimum: [1, 1, 1] }, UnorientedUnitQuad { minimum: [2, 1, 1] }]
    );
    // +X: the translucent voxel is hidden by the opaque one.
    assert_eq!(unit.groups[3], vec![UnorientedUnitQuad { minimum: [2, 1, 1] }]);
}

#[test]
fn simple_scanner_appends_in_index_order() {
    let (dims, voxels) = mixed_grid();
    let shape = GridShape::new(dims);
    let faces = right_handed_y_up_faces();
    let mut unit = UnitQuadBuffer::new();
    visible_block_faces(&voxels, &shape, [0; 3], [6, 5, 4], &faces, &mut unit, &CellContext).unwrap();
    let first: Vec<Vec<UnorientedUnitQuad>> = unit.groups.iter().cloned().collect();
    assert!(first.iter().any(|g| !g.is_empty()));
    for g in &first {
        for w in g.windows(2) {
            assert!(lin(dims, w[0].minimum) < lin(dims, w[1].minimum));
        }
    }
    // A second call adds the same quads behind the first ones.
    visible_block_faces(&voxels, &shape, [0; 3], [6, 5, 4], &faces, &mut unit, &CellContext).unwrap();
    for f in 0..6 {
        assert_eq!(unit.groups[f].len(), 2 * first[f].len());
        assert_eq!(&unit.groups[f][..first[f].len()], &first[f][..]);
        assert_eq!(&unit.groups[f][first[f].len()..], &first[f][..]);
    }
    unit.reset();
    assert_eq!(unit.num_quads(), 0);
}

#[test]
fn merged_quads_cover_exactly_the_visible_faces() {
    let (dims, voxels) = mixed_grid();
    let shape = GridShape::new(dims);
    let faces = right_handed_y_up_faces();
    let mut unit = UnitQuadBuffer::new();
    visible_block_faces(&voxels, &shape, [0; 3], [6, 5, 4], &faces, &mut unit, &CellContext).unwrap();
    let mut greedy = GreedyQuadsBuffer::new(voxels.len());
    greedy_quads(&voxels, &shape, [0; 3], [6, 5, 4], &faces, &mut greedy, &CellContext).unwrap();
    let mut merged_somewhere = false;
    for f in 0..6 {
        let mut covered: Vec<[u32; 3]> = Vec::new();
        for q in &greedy.quads.groups[f] {
            assert!(q.width >= 1 && q.height >= 1);
            covered.extend(cells_of(&faces[f], q));
        }
        let n = covered.len();
        covered.sort_by_key(|p| lin(dims, *p));
        covered.dedup();
        assert_eq!(covered.len(), n, "no cell is covered twice");
        let visible: Vec<[u32; 3]> = unit.groups[f].iter().map(|q| q.minimum).collect();
        assert_eq!(covered, visible);
        assert!(greedy.quads.groups[f].len() <= unit.groups[f].len());
        merged_somewhere |= greedy.quads.groups[f].len() < unit.groups[f].len();
    }
    assert!(merged_somewhere);
}

#[test]
fn a_new_buffer_has_one_unset_marker_per_slot() {
    let buffer = GreedyQuadsBuffer::new(5);
    assert_eq!(buffer.visited, vec![false; 5]);
    assert_eq!(buffer.quads.num_quads(), 0);
    for f in 0..6 {
        assert!(buffer.quads.groups[f].is_empty());
    }
    assert!(GreedyQuadsBuffer::new(0).visited.is_empty());
    // Meshing sizes the markers to the voxel array, whatever the buffer was made with.
    let (dims, voxels) = solid_cube(2);
    let mut small = GreedyQuadsBuffer::new(3);
    greedy_quads(&voxels, &GridShape::new(dims), [0; 3], [3; 3], &right_handed_y_up_faces(), &mut small, &DefaultVoxelContext)
        .unwrap();
    assert_eq!(small.visited.len(), voxels.len());
    assert_eq!(small.quads.num_quads(), 6);
}

#[test]
fn merging_again_gives_the_same_quads() {
    let (dims, voxels) = mixed_grid();
    let shape = GridShape::new(dims);
    let faces = right_handed_y_up_faces();
    let mut a = GreedyQuadsBuffer::new(voxels.len());
    greedy_quads(&voxels, &shape, [0; 3], [6, 5, 4], &faces, &mut a, &CellContext).unwrap();
    let mut b = GreedyQuadsBuffer::new(0);
    greedy_quads(&voxels, &shape, [0; 3], [6, 5, 4], &faces, &mut b, &CellContext).unwrap();
    assert_eq!(a.quads.groups, b.quads.groups);
    // The same buffer can be used again: the groups are replaced, not extended.
    greedy_quads(&voxels, &shape, [0; 3], [6, 5, 4], &faces, &mut a, &CellContext).unwrap();
    assert_eq!(a.quads.groups, b.quads.groups);
}

#[test]
fn only_the_interior_of_the_extent_is_meshed() {
    let dims = [5u32, 5, 5];
    let voxels = vec![FULL; 125];
    let shape = GridShape::new(dims);
    let faces = right_handed_y_up_faces();
    let mut greedy = GreedyQuadsBuffer::new(voxels.len());
    // An extent too thin to have an interior.
    greedy_quads(&voxels, &shape, [0; 3], [1, 4, 4], &faces, &mut greedy, &DefaultVoxelContext).unwrap();
    assert_eq!(total(&greedy), 0);
    // Solid everywhere: every neighbour hides every face.
    greedy_quads(&voxels, &shape, [0; 3], [4; 3], &faces, &mut greedy, &DefaultVoxelContext).unwrap();
    assert_eq!(total(&greedy), 0);
    // An L of three voxels in the plane z = 2: the +Z face starts with the wide row.
    let mut voxels = vec![EMPTY; 125];
    for p in [[1u32, 1, 2], [2, 1, 2], [1, 2, 2]] {
        voxels[lin(dims, p)] = FULL;
    }
    greedy_quads(&voxels, &shape, [0; 3], [4; 3], &faces, &mut greedy, &DefaultVoxelContext).unwrap();
    assert_eq!(
        greedy.quads.groups[5],
        vec![
            UnorientedQuad { minimum: [1, 1, 2], width: 2, height: 1 },
            UnorientedQuad { minimum: [1, 2, 2], width: 1, height: 1 },
        ]
    );
}
