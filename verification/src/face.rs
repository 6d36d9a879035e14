use vstd::prelude::*;

verus! {

/// One of the six axis-aligned sides of a voxel.
///
/// The variants are listed in the order in which the sides of a voxel are
/// visited when a surface is built: up and down along `y`, then towards
/// negative and positive `z`, then towards positive and negative `x`.
#[derive(Clone, Copy, Debug, PartialEq, Eq, Structural)]
pub enum Face {
    Top,
    Bottom,
    North,
    South,
    East,
    West,
}

impl Face {
    /// Place of the side in the visiting order, from 0 to 5.
    pub open spec fn spec_index(self) -> int {
        match self {
            Face::Top => 0,
            Face::Bottom => 1,
            Face::North => 2,
            Face::South => 3,
            Face::East => 4,
            Face::West => 5,
        }
    }

    /// The side at a place of the visiting order.
    pub open spec fn spec_from_index(i: int) -> Face {
        if i == 0 {
            Face::Top
        } else if i == 1 {
            Face::Bottom
        } else if i == 2 {
            Face::North
        } else if i == 3 {
            Face::South
        } else if i == 4 {
            Face::East
        } else {
            Face::West
        }
    }

    /// Unit vector that points out of the voxel through this side. It is also
    /// the step from a voxel to the neighbour that can hide the side.
    pub open spec fn spec_normal(self) -> (i8, i8, i8) {
        match self {
            Face::Top => (0i8, 1i8, 0i8),
            Face::Bottom => (0i8, -1i8, 0i8),
            Face::North => (0i8, 0i8, -1i8),
            Face::South => (0i8, 0i8, 1i8),
            Face::East => (1i8, 0i8, 0i8),
            Face::West => (-1i8, 0i8, 0i8),
        }
    }

    /// The four corners of the side on the unit cube, in the order in which
    /// they are written to a vertex buffer.
    pub open spec fn spec_corners(self) -> Seq<(i8, i8, i8)> {
        match self {
            Face::Top => seq![(0i8, 1i8, 0i8), (0i8, 1i8, 1i8), (1i8, 1i8, 0i8), (1i8, 1i8, 1i8)],
            Face::Bottom => seq![(0i8, 0i8, 0i8), (0i8, 0i8, 1i8), (1i8, 0i8, 0i8), (1i8, 0i8, 1i8)],
            Face::North => seq![(0i8, 0i8, 0i8), (0i8, 1i8, 0i8), (1i8, 0i8, 0i8), (1i8, 1i8, 0i8)],
            Face::South => seq![(0i8, 0i8, 1i8), (0i8, 1i8, 1i8), (1i8, 0i8, 1i8), (1i8, 1i8, 1i8)],
            Face::East => seq![(1i8, 0i8, 0i8), (1i8, 1i8, 0i8), (1i8, 0i8, 1i8), (1i8, 1i8, 1i8)],
            Face::West => seq![(0i8, 0i8, 0i8), (0i8, 1i8, 0i8), (0i8, 0i8, 1i8), (0i8, 1i8, 1i8)],
        }
    }

    /// Texture coordinates of the four corners, in the order of
    /// [`Face::spec_corners`]: the four corners of the unit square, each
    /// once, the same on every side.
    pub open spec fn spec_uvs(self) -> Seq<(i8, i8)> {
        seq![(0i8, 0i8), (0i8, 1i8), (1i8, 0i8), (1i8, 1i8)]
    }

    /// Whether the corners of the side run clockwise when seen from outside,
    /// so that its triangles are wound the other way round.
    pub open spec fn mirrored(self) -> bool {
        self == Face::Bottom || self == Face::South || self == Face::West
    }

    /// The two triangles of the side, as six places among its four corners.
    pub open spec fn spec_winding(self) -> Seq<u32> {
        if self.mirrored() {
            seq![0u32, 2u32, 1u32, 1u32, 2u32, 3u32]
        } else {
            seq![0u32, 1u32, 2u32, 3u32, 2u32, 1u32]
        }
    }

    /// Unit vector that points out of the voxel through this side.
    #[verifier::when_used_as_spec(spec_normal)]
    pub fn normal(self) -> (n: (i8, i8, i8))
        ensures
            n == self.spec_normal(),
    {
        match self {
            Face::Top => (0, 1, 0),
            Face::Bottom => (0, -1, 0),
            Face::North => (0, 0, -1),
            Face::South => (0, 0, 1),
            Face::East => (1, 0, 0),
            Face::West => (-1, 0, 0),
        }
    }

    /// The four corners of the side on the unit cube.
    pub fn corners(self) -> (c: [(i8, i8, i8); 4])
        ensures
            c@ == self.spec_corners(),
    {
        let c = match self {
            Face::Top => [(0, 1, 0), (0, 1, 1), (1, 1, 0), (1, 1, 1)],
            Face::Bottom => [(0, 0, 0), (0, 0, 1), (1, 0, 0), (1, 0, 1)],
            Face::North => [(0, 0, 0), (0, 1, 0), (1, 0, 0), (1, 1, 0)],
            Face::South => [(0, 0, 1), (0, 1, 1), (1, 0, 1), (1, 1, 1)],
            Face::East => [(1, 0, 0), (1, 1, 0), (1, 0, 1), (1, 1, 1)],
            Face::West => [(0, 0, 0), (0, 1, 0), (0, 0, 1), (0, 1, 1)],
        };
        assert(c@ =~= self.spec_corners());
        c
    }

    /// Texture coordinates of the four corners.
    pub fn uvs(self) -> (t: [(i8, i8); 4])
        ensures
            t@ == self.spec_uvs(),
    {
        let t = [(0, 0), (0, 1), (1, 0), (1, 1)];
        assert(t@ =~= self.spec_uvs());
        t
    }

    /// The two triangles of the side, as six places among its four corners.
    pub fn winding(self) -> (w: [u32; 6])
        ensures
            w@ == self.spec_winding(),
    {
        let w = match self {
            Face::Bottom | Face::South | Face::West => [0, 2, 1, 1, 2, 3],
            _ => [0, 1, 2, 3, 2, 1],
        };
        assert(w@ =~= self.spec_winding());
        w
    }

    /// The six sides in visiting order.
    pub fn all() -> (f: [Face; 6])
        ensures
            forall|i: int| 0 <= i < 6 ==> f@[i] == Face::spec_from_index(i),
    {
        [Face::Top, Face::Bottom, Face::North, Face::South, Face::East, Face::West]
    }
}

/// Cross product of two vectors.
pub open spec fn cross(u: (int, int, int), v: (int, int, int)) -> (int, int, int) {
    (u.1 * v.2 - u.2 * v.1, u.2 * v.0 - u.0 * v.2, u.0 * v.1 - u.1 * v.0)
}

/// The vector from point `a` to point `b`.
pub open spec fn from_to(a: (i8, i8, i8), b: (i8, i8, i8)) -> (int, int, int) {
    (b.0 - a.0, b.1 - a.1, b.2 - a.2)
}

/// The four corners of a side are different corners of the unit cube, and
/// one step along the side's normal leads from each of them out of the cube.
pub proof fn lemma_corners_on_side(face: Face, k: int)
    requires
        0 <= k < 4,
    ensures
        ({
            let c = face.spec_corners()[k];
            let n = face.normal();
            &&& 0 <= c.0 <= 1 && 0 <= c.1 <= 1 && 0 <= c.2 <= 1
            &&& !(0 <= c.0 + n.0 <= 1 && 0 <= c.1 + n.1 <= 1 && 0 <= c.2 + n.2 <= 1)
            &&& forall|j: int| 0 <= j < 4 && j != k ==> face.spec_corners()[j] != c
        }),
{
}

/// Whether `uv` is one of the four corners of the unit square.
pub open spec fn unit_square_corner(uv: (i8, i8)) -> bool {
    (uv.0 == 0 || uv.0 == 1) && (uv.1 == 0 || uv.1 == 1)
}

/// The texture coordinates of a side cover the unit square: there are four
/// of them, each is a corner of the square, no two are the same, and so each
/// of the four corners stands among them exactly once.
pub proof fn lemma_uvs_cover_unit_square(face: Face)
    ensures
        face.spec_uvs().len() == 4,
        forall|k: int| 0 <= k < 4 ==> unit_square_corner(#[trigger] face.spec_uvs()[k]),
        face.spec_uvs().no_duplicates(),
        forall|uv: (i8, i8)| unit_square_corner(uv) ==> #[trigger] face.spec_uvs().contains(uv),
{
    let uvs = face.spec_uvs();
    assert forall|uv: (i8, i8)| unit_square_corner(uv) implies #[trigger] uvs.contains(uv) by {
        let k = 2 * uv.0 + uv.1;
        assert(uvs[k] == uv);
    }
}

/// Both triangles of every side turn counter-clockwise when seen from
/// outside the voxel: with corners `a`, `b`, `c` of triangle `t` in winding
/// order, `(b - a) x (c - a)` is the side's normal.
pub proof fn lemma_triangles_face_outward(face: Face, t: int)
    requires
        0 <= t < 2,
    ensures
        ({
            let corners = face.spec_corners();
            let w = face.spec_winding();
            let a = corners[w[3 * t] as int];
            let b = corners[w[3 * t + 1] as int];
            let c = corners[w[3 * t + 2] as int];
            let n = face.normal();
            cross(from_to(a, b), from_to(a, c)) == (n.0 as int, n.1 as int, n.2 as int)
        }),
{
    let corners = face.spec_corners();
    let w = face.spec_winding();
    let a = corners[w[3 * t] as int];
    let b = corners[w[3 * t + 1] as int];
    let c = corners[w[3 * t + 2] as int];
    let u = from_to(a, b);
    let v = from_to(a, c);
    assert(-1 <= u.0 <= 1 && -1 <= u.1 <= 1 && -1 <= u.2 <= 1);
    assert(-1 <= v.0 <= 1 && -1 <= v.1 <= 1 && -1 <= v.2 <= 1);
    lemma_unit_product(u.1, v.2);
    lemma_unit_product(u.2, v.1);
    lemma_unit_product(u.2, v.0);
    lemma_unit_product(u.0, v.2);
    lemma_unit_product(u.0, v.1);
    lemma_unit_product(u.1, v.0);
}

/// The product of two numbers between -1 and 1.
proof fn lemma_unit_product(a: int, b: int)
    requires
        -1 <= a <= 1,
        -1 <= b <= 1,
    ensures
        a == 0 || b == 0 ==> a * b == 0,
        a == 1 ==> a * b == b,
        a == -1 ==> a * b == -b,
{
}

} // verus!
