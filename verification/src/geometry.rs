//! Grid shapes, face orientations and quads.

use vstd::prelude::*;

verus! {

/// The dimensions of a dense 3D array stored with X fastest, then Y, then Z.
#[derive(Debug, Clone, Copy, PartialEq, Eq)]
pub struct GridShape {
    pub dims: [u32; 3],
}

/// Which grid axis plays the role of the face normal (N) and which two span
/// the face (U, V). The variant's letters give N, U, V in that order.
#[derive(Debug, Clone, Copy, PartialEq, Eq, Structural)]
pub enum AxisPermutation {
    Xyz,
    Zxy,
    Yzx,
    Zyx,
    Xzy,
    Yxz,
}

/// One of the cube-face directions: a signed normal axis and the two axes
/// that span the slice orthogonal to it.
#[derive(Debug, Clone, Copy, PartialEq, Eq)]
pub struct OrientedBlockFace {
    pub n_sign: i32,
    pub permutation: AxisPermutation,
}

/// A rectangle of unit cells on one face. Orientation is given by the group
/// that holds it.
#[derive(Debug, Clone, Copy, PartialEq, Eq)]
pub struct UnorientedQuad {
    pub minimum: [u32; 3],
    pub width: u32,
    pub height: u32,
}

/// A single unit cell face.
#[derive(Debug, Clone, Copy, PartialEq, Eq)]
pub struct UnorientedUnitQuad {
    pub minimum: [u32; 3],
}

impl AxisPermutation {
    /// The grid axis (0, 1 or 2) of the normal.
    pub open spec fn n_axis(self) -> int {
        match self {
            AxisPermutation::Xyz | AxisPermutation::Xzy => 0,
            AxisPermutation::Yzx | AxisPermutation::Yxz => 1,
            AxisPermutation::Zxy | AxisPermutation::Zyx => 2,
        }
    }

    /// The grid axis of U.
    pub open spec fn u_axis(self) -> int {
        match self {
            AxisPermutation::Zxy | AxisPermutation::Yxz => 0,
            AxisPermutation::Xyz | AxisPermutation::Zyx => 1,
            AxisPermutation::Yzx | AxisPermutation::Xzy => 2,
        }
    }

    /// The grid axis of V.
    pub open spec fn v_axis(self) -> int {
        match self {
            AxisPermutation::Yzx | AxisPermutation::Zyx => 0,
            AxisPermutation::Zxy | AxisPermutation::Xzy => 1,
            AxisPermutation::Xyz | AxisPermutation::Yxz => 2,
        }
    }

    /// The grid axes of N, U and V.
    pub fn axes(self) -> (r: [usize; 3])
        ensures
            r[0] == self.n_axis(),
            r[1] == self.u_axis(),
            r[2] == self.v_axis(),
    {
        match self {
            AxisPermutation::Xyz => [0, 1, 2],
            AxisPermutation::Zxy => [2, 0, 1],
            AxisPermutation::Yzx => [1, 2, 0],
            AxisPermutation::Zyx => [2, 1, 0],
            AxisPermutation::Xzy => [0, 2, 1],
            AxisPermutation::Yxz => [1, 0, 2],
        }
    }
}

impl OrientedBlockFace {
    pub fn new(n_sign: i32, permutation: AxisPermutation) -> (r: Self)
        ensures
            r.n_sign == n_sign,
            r.permutation == permutation,
    {
        OrientedBlockFace { n_sign, permutation }
    }

    /// The point with N, U, V coordinates `cn`, `cu`, `cv`, in grid axes.
    pub open spec fn place(&self, cn: int, cu: int, cv: int) -> (int, int, int) {
        match self.permutation {
            AxisPermutation::Xyz => (cn, cu, cv),
            AxisPermutation::Zxy => (cu, cv, cn),
            AxisPermutation::Yzx => (cv, cn, cu),
            AxisPermutation::Zyx => (cv, cu, cn),
            AxisPermutation::Xzy => (cn, cv, cu),
            AxisPermutation::Yxz => (cu, cn, cv),
        }
    }

    /// The coordinate of the cell `(x, y, z)` along the normal.
    pub open spec fn n_at(&self, x: int, y: int, z: int) -> int {
        match self.permutation {
            AxisPermutation::Xyz | AxisPermutation::Xzy => x,
            AxisPermutation::Yzx | AxisPermutation::Yxz => y,
            AxisPermutation::Zxy | AxisPermutation::Zyx => z,
        }
    }

    /// The coordinate of the cell `(x, y, z)` along U.
    pub open spec fn u_at(&self, x: int, y: int, z: int) -> int {
        match self.permutation {
            AxisPermutation::Zxy | AxisPermutation::Yxz => x,
            AxisPermutation::Xyz | AxisPermutation::Zyx => y,
            AxisPermutation::Yzx | AxisPermutation::Xzy => z,
        }
    }

    /// The coordinate of the cell `(x, y, z)` along V.
    pub open spec fn v_at(&self, x: int, y: int, z: int) -> int {
        match self.permutation {
            AxisPermutation::Yzx | AxisPermutation::Zyx => x,
            AxisPermutation::Zxy | AxisPermutation::Xzy => y,
            AxisPermutation::Xyz | AxisPermutation::Yxz => z,
        }
    }

    /// The coordinate of `p` along the normal.
    pub open spec fn n_of(&self, p: [u32; 3]) -> int {
        p[self.permutation.n_axis()] as int
    }

    /// The coordinate of `p` along U.
    pub open spec fn u_of(&self, p: [u32; 3]) -> int {
        p[self.permutation.u_axis()] as int
    }

    /// The coordinate of `p` along V.
    pub open spec fn v_of(&self, p: [u32; 3]) -> int {
        p[self.permutation.v_axis()] as int
    }

    /// The grid point with the given N, U, V coordinates.
    pub fn point(&self, cn: u32, cu: u32, cv: u32) -> (p: [u32; 3])
        ensures
            self.n_of(p) == cn,
            self.u_of(p) == cu,
            self.v_of(p) == cv,
            (p[0] as int, p[1] as int, p[2] as int) == self.place(cn as int, cu as int, cv as int),
    {
        match self.permutation {
            AxisPermutation::Xyz => [cn, cu, cv],
            AxisPermutation::Zxy => [cu, cv, cn],
            AxisPermutation::Yzx => [cv, cn, cu],
            AxisPermutation::Zyx => [cv, cu, cn],
            AxisPermutation::Xzy => [cn, cv, cu],
            AxisPermutation::Yxz => [cu, cn, cv],
        }
    }
}

/// The six faces of the right-handed, Y-up convention: the three negative
/// normals X, Y, Z, then the three positive ones.
pub fn right_handed_y_up_faces() -> (faces: [OrientedBlockFace; 6])
    ensures
        faces[0] == (OrientedBlockFace { n_sign: -1i32, permutation: AxisPermutation::Xzy }),
        faces[1] == (OrientedBlockFace { n_sign: -1i32, permutation: AxisPermutation::Yzx }),
        faces[2] == (OrientedBlockFace { n_sign: -1i32, permutation: AxisPermutation::Zxy }),
        faces[3] == (OrientedBlockFace { n_sign: 1i32, permutation: AxisPermutation::Xzy }),
        faces[4] == (OrientedBlockFace { n_sign: 1i32, permutation: AxisPermutation::Yzx }),
        faces[5] == (OrientedBlockFace { n_sign: 1i32, permutation: AxisPermutation::Zxy }),
{
    [
        OrientedBlockFace::new(-1, AxisPermutation::Xzy),
        OrientedBlockFace::new(-1, AxisPermutation::Yzx),
        OrientedBlockFace::new(-1, AxisPermutation::Zxy),
        OrientedBlockFace::new(1, AxisPermutation::Xzy),
        OrientedBlockFace::new(1, AxisPermutation::Yzx),
        OrientedBlockFace::new(1, AxisPermutation::Zxy),
    ]
}

/// The strides are those of an array with these dimensions that stores X
/// fastest, then Y, then Z, on every axis along which it has two cells or
/// more.
pub open spec fn layout_is_x_fastest(dims: [u32; 3], strides: [u32; 3]) -> bool {
    &&& dims[0] > 1 ==> strides[0] == 1
    &&& dims[1] > 1 ==> strides[1] == dims[0]
    &&& dims[2] > 1 ==> strides[2] == dims[0] * dims[1]
}

impl GridShape {
    pub fn new(dims: [u32; 3]) -> (r: Self)
        ensures
            r.dims == dims,
    {
        GridShape { dims }
    }

    /// The shape with these dimensions, for an array in which one step along
    /// X, Y and Z moves the linear index by `strides[0]`, `strides[1]` and
    /// `strides[2]`: `None` unless that is the X-fastest layout. The stride of
    /// an axis along which the grid has a single cell is not looked at.
    pub fn from_layout(dims: [u32; 3], strides: [u32; 3]) -> (r: Option<Self>)
        ensures
            r == if layout_is_x_fastest(dims, strides) {
                Some(GridShape { dims })
            } else {
                None
            },
    {
        if dims[0] > 1 && strides[0] != 1 {
            return None;
        }
        if dims[1] > 1 && strides[1] != dims[0] {
            return None;
        }
        let row: u64 = dims[0] as u64;
        let rows: u64 = dims[1] as u64;
        assert(row * rows <= 0xffff_ffff * 0xffff_ffff) by (nonlinear_arith)
            requires
                row <= 0xffff_ffff,
                rows <= 0xffff_ffff,
        ;
        if dims[2] > 1 && strides[2] as u64 != row * rows {
            return None;
        }
        Some(GridShape { dims })
    }

    /// The extent of the grid along `axis`.
    pub open spec fn dim(&self, axis: int) -> int {
        self.dims[axis] as int
    }

    /// The number of cells.
    pub open spec fn size(&self) -> int {
        self.dim(0) * self.dim(1) * self.dim(2)
    }

    /// Every dimension is positive and every linear index fits in `u32`.
    pub open spec fn wf(&self) -> bool {
        &&& self.dim(0) > 0
        &&& self.dim(1) > 0
        &&& self.dim(2) > 0
        &&& self.size() <= u32::MAX
    }

    /// The distance in linear index between two cells that are neighbours
    /// along `axis`.
    pub open spec fn stride(&self, axis: int) -> int {
        if axis == 0 {
            1
        } else if axis == 1 {
            self.dim(0)
        } else {
            self.dim(0) * self.dim(1)
        }
    }

    /// The linear index of the cell `(x, y, z)`.
    pub open spec fn index(&self, x: int, y: int, z: int) -> int {
        x + self.dim(0) * y + self.dim(0) * self.dim(1) * z
    }

    /// `(x, y, z)` is a cell of the grid.
    pub open spec fn holds(&self, x: int, y: int, z: int) -> bool {
        &&& 0 <= x < self.dim(0)
        &&& 0 <= y < self.dim(1)
        &&& 0 <= z < self.dim(2)
    }

    /// The linear index of the cell with N, U, V coordinates `cn`, `cu`, `cv`
    /// with respect to `face`.
    pub open spec fn face_index(&self, face: &OrientedBlockFace, cn: int, cu: int, cv: int) -> int {
        cn * self.stride(face.permutation.n_axis()) + cu * self.stride(face.permutation.u_axis())
            + cv * self.stride(face.permutation.v_axis())
    }

    /// The cell with N, U, V coordinates `cn`, `cu`, `cv` lies in the grid.
    pub open spec fn face_holds(&self, face: &OrientedBlockFace, cn: int, cu: int, cv: int) -> bool {
        &&& 0 <= cn < self.dim(face.permutation.n_axis())
        &&& 0 <= cu < self.dim(face.permutation.u_axis())
        &&& 0 <= cv < self.dim(face.permutation.v_axis())
    }

    /// The stride along `axis`, which is 0, 1 or 2.
    pub fn axis_stride(&self, axis: usize) -> (s: u32)
        requires
            self.wf(),
            axis < 3,
        ensures
            s == self.stride(axis as int),
            s >= 1,
    {
        proof {
            self.lemma_stride_bounds();
        }
        if axis == 0 {
            1
        } else if axis == 1 {
            self.dims[0]
        } else {
            self.dims[0] * self.dims[1]
        }
    }

    /// The linear index of the cell `p`.
    pub fn linearize(&self, p: [u32; 3]) -> (i: u32)
        requires
            self.wf(),
            self.holds(p[0] as int, p[1] as int, p[2] as int),
        ensures
            i == self.index(p[0] as int, p[1] as int, p[2] as int),
            i < self.size(),
    {
        proof {
            self.lemma_index_bound(p[0] as int, p[1] as int, p[2] as int);
            self.lemma_stride_bounds();
        }
        let row: u32 = self.dims[0];
        let plane: u32 = self.dims[0] * self.dims[1];
        assert(row * p[1] >= 0 && plane * p[2] >= 0) by (nonlinear_arith)
            requires
                row >= 0,
                plane >= 0,
        ;
        p[0] + row * p[1] + plane * p[2]
    }

    /// The row length and the plane size are positive and fit in `u32`.
    pub proof fn lemma_stride_bounds(&self)
        requires
            self.wf(),
        ensures
            1 <= self.dim(0) * self.dim(1) <= self.size(),
            self.dim(0) <= self.dim(0) * self.dim(1),
    {
        let a = self.dim(0);
        let b = self.dim(1);
        let c = self.dim(2);
        assert(1 <= a * b <= a * b * c && a <= a * b) by (nonlinear_arith)
            requires
                a >= 1,
                b >= 1,
                c >= 1,
        ;
    }

    /// A cell's linear index is less than the grid's size.
    pub proof fn lemma_index_bound(&self, x: int, y: int, z: int)
        requires
            self.holds(x, y, z),
        ensures
            0 <= self.index(x, y, z) < self.size(),
            0 <= self.dim(0) * y,
            0 <= self.dim(0) * self.dim(1) * z,
    {
        let a = self.dim(0);
        let b = self.dim(1);
        let c = self.dim(2);
        assert(0 <= a * y && 0 <= a * b * z && x + a * y + a * b * z < a * b * c)
            by (nonlinear_arith)
            requires
                0 <= x < a,
                0 <= y < b,
                0 <= z < c,
        {
            assert(a * y + a <= a * b);
            assert(a * b * z + a * b <= a * b * c);
        }
    }

    /// Two cells with the same linear index are the same cell.
    pub proof fn lemma_index_injective(&self, x1: int, y1: int, z1: int, x2: int, y2: int, z2: int)
        requires
            self.holds(x1, y1, z1),
            self.holds(x2, y2, z2),
            self.index(x1, y1, z1) == self.index(x2, y2, z2),
        ensures
            x1 == x2 && y1 == y2 && z1 == z2,
    {
        let a = self.dim(0);
        let b = self.dim(1);
        assert(z1 == z2) by (nonlinear_arith)
            requires
                0 <= x1 < a,
                0 <= x2 < a,
                0 <= y1 < b,
                0 <= y2 < b,
                x1 + a * y1 + a * b * z1 == x2 + a * y2 + a * b * z2,
        {
            assert(x1 + a * y1 < a * b) by {
                assert(a * y1 + a <= a * b);
            }
            assert(x2 + a * y2 < a * b) by {
                assert(a * y2 + a <= a * b);
            }
            if z1 < z2 {
                assert(a * b * z1 + a * b <= a * b * z2);
            }
            if z2 < z1 {
                assert(a * b * z2 + a * b <= a * b * z1);
            }
        }
        assert(y1 == y2) by (nonlinear_arith)
            requires
                0 <= x1 < a,
                0 <= x2 < a,
                x1 + a * y1 == x2 + a * y2,
        {
            if y1 < y2 {
                assert(a * y1 + a <= a * y2);
            }
            if y2 < y1 {
                assert(a * y2 + a <= a * y1);
            }
        }
    }

    /// The linear index computed from N, U, V coordinates is the linear
    /// index of the point that they name.
    pub proof fn lemma_face_index(&self, face: &OrientedBlockFace, cn: int, cu: int, cv: int)
        ensures
            ({
                let p = face.place(cn, cu, cv);
                &&& self.face_index(face, cn, cu, cv) == self.index(p.0, p.1, p.2)
                &&& self.face_holds(face, cn, cu, cv) == self.holds(p.0, p.1, p.2)
            }),
    {
        let a = self.dim(0);
        let b = self.dim(1);
        assert(cn * 1 == cn && cu * 1 == cu && cv * 1 == cv);
        assert(cn * a == a * cn && cu * a == a * cu && cv * a == a * cv) by (nonlinear_arith);
        assert(cn * (a * b) == a * b * cn && cu * (a * b) == a * b * cu && cv * (a * b) == a * b
            * cv) by (nonlinear_arith);
    }

    /// Within the grid, the linear index is below the size, and so is each
    /// of its three terms.
    pub proof fn lemma_face_index_bound(&self, face: &OrientedBlockFace, cn: int, cu: int, cv: int)
        requires
            self.face_holds(face, cn, cu, cv),
        ensures
            0 <= self.face_index(face, cn, cu, cv) < self.size(),
            0 <= cn * self.stride(face.permutation.n_axis()) <= self.face_index(face, cn, cu, cv),
            0 <= cu * self.stride(face.permutation.u_axis()) <= self.face_index(face, cn, cu, cv),
            0 <= cv * self.stride(face.permutation.v_axis()) <= self.face_index(face, cn, cu, cv),
    {
        self.lemma_face_index(face, cn, cu, cv);
        let p = face.place(cn, cu, cv);
        self.lemma_index_bound(p.0, p.1, p.2);
        let sn = self.stride(face.permutation.n_axis());
        let su = self.stride(face.permutation.u_axis());
        let sv = self.stride(face.permutation.v_axis());
        let a = self.dim(0);
        let b = self.dim(1);
        assert(a * b >= 0) by (nonlinear_arith)
            requires
                a >= 0,
                b >= 0,
        ;
        assert(0 <= cn * sn && 0 <= cu * su && 0 <= cv * sv) by (nonlinear_arith)
            requires
                cn >= 0,
                cu >= 0,
                cv >= 0,
                sn >= 0,
                su >= 0,
                sv >= 0,
        ;
    }

    /// Two cells of the grid with the same linear index have the same N, U
    /// and V coordinates.
    pub proof fn lemma_face_index_injective(
        &self,
        face: &OrientedBlockFace,
        n1: int,
        u1: int,
        v1: int,
        n2: int,
        u2: int,
        v2: int,
    )
        requires
            self.face_holds(face, n1, u1, v1),
            self.face_holds(face, n2, u2, v2),
            self.face_index(face, n1, u1, v1) == self.face_index(face, n2, u2, v2),
        ensures
            n1 == n2 && u1 == u2 && v1 == v2,
    {
        self.lemma_face_index(face, n1, u1, v1);
        self.lemma_face_index(face, n2, u2, v2);
        let p = face.place(n1, u1, v1);
        let q = face.place(n2, u2, v2);
        self.lemma_index_injective(p.0, p.1, p.2, q.0, q.1, q.2);
    }
    /// Moving `a` cells along U and `b` cells along V adds `a` U-strides and
    /// `b` V-strides to the linear index.
    pub proof fn lemma_face_index_shift(
        &self,
        face: &OrientedBlockFace,
        cn: int,
        cu: int,
        cv: int,
        a: int,
        b: int,
    )
        ensures
            self.face_index(face, cn, cu + a, cv + b) == self.face_index(face, cn, cu, cv) + b
                * self.stride(face.permutation.v_axis()) + a * self.stride(
                face.permutation.u_axis(),
            ),
    {
        let su = self.stride(face.permutation.u_axis());
        let sv = self.stride(face.permutation.v_axis());
        assert((cu + a) * su == cu * su + a * su) by (nonlinear_arith);
        assert((cv + b) * sv == cv * sv + b * sv) by (nonlinear_arith);
    }

    /// Moving `d` cells along the normal adds `d` N-strides to the linear
    /// index.
    pub proof fn lemma_face_index_normal(
        &self,
        face: &OrientedBlockFace,
        cn: int,
        cu: int,
        cv: int,
        d: int,
    )
        ensures
            self.face_index(face, cn + d, cu, cv) == self.face_index(face, cn, cu, cv) + d
                * self.stride(face.permutation.n_axis()),
    {
        let sn = self.stride(face.permutation.n_axis());
        assert((cn + d) * sn == cn * sn + d * sn) by (nonlinear_arith);
    }
}

} // verus!
