use vstd::prelude::*;
use crate::face::Face;

verus! {

/// One side of one voxel: the voxel's position inside its chunk and the side.
#[derive(Clone, Copy, Debug, PartialEq, Eq, Structural)]
pub struct Quad {
    pub x: i8,
    pub y: i8,
    pub z: i8,
    pub face: Face,
}

impl Quad {
    /// The four vertices of the side: the corners of the unit cube, moved to
    /// the voxel's position.
    pub open spec fn positions(self) -> Seq<(i8, i8, i8)> {
        Seq::new(
            4,
            |k: int|
                {
                    let c = self.face.spec_corners()[k];
                    ((self.x + c.0) as i8, (self.y + c.1) as i8, (self.z + c.2) as i8)
                },
        )
    }

    /// The normal of the side, once for each vertex.
    pub open spec fn normals(self) -> Seq<(i8, i8, i8)> {
        Seq::new(4, |k: int| self.face.normal())
    }

    /// The texture coordinates of the four vertices.
    pub open spec fn uvs(self) -> Seq<(i8, i8)> {
        self.face.spec_uvs()
    }

    /// The six indices of the side's two triangles, where `base` is the index
    /// of its first vertex.
    pub open spec fn indices(self, base: int) -> Seq<u32> {
        Seq::new(6, |j: int| (base + self.face.spec_winding()[j]) as u32)
    }
}

/// The vertex positions of a list of voxel sides, four for each side.
pub open spec fn quad_positions(faces: Seq<Quad>) -> Seq<(i8, i8, i8)> {
    Seq::new(4 * faces.len(), |v: int| faces[v / 4].positions()[v % 4])
}

/// The vertex normals of a list of voxel sides, four for each side.
pub open spec fn quad_normals(faces: Seq<Quad>) -> Seq<(i8, i8, i8)> {
    Seq::new(4 * faces.len(), |v: int| faces[v / 4].normals()[v % 4])
}

/// The texture coordinates of a list of voxel sides, four for each side.
pub open spec fn quad_uvs(faces: Seq<Quad>) -> Seq<(i8, i8)> {
    Seq::new(4 * faces.len(), |v: int| faces[v / 4].uvs()[v % 4])
}

/// The triangle indices of a list of voxel sides, six for each side. The
/// side at place `i` of the list owns the vertices `4 * i` to `4 * i + 3`.
pub open spec fn quad_indices(faces: Seq<Quad>) -> Seq<u32> {
    Seq::new(6 * faces.len(), |t: int| faces[t / 6].indices(4 * (t / 6))[t % 6])
}

/// Vertex and index buffers of a triangle list.
#[derive(Debug)]
pub struct Mesh {
    /// One point for each vertex.
    pub positions: Vec<(i8, i8, i8)>,
    /// One unit vector for each vertex.
    pub normals: Vec<(i8, i8, i8)>,
    /// One texture coordinate for each vertex.
    pub uvs: Vec<(i8, i8)>,
    /// Vertex numbers, three for each triangle.
    pub indices: Vec<u32>,
}

impl Mesh {
    /// Whether the buffers hold exactly the given voxel sides, in their order.
    pub open spec fn depicts(&self, faces: Seq<Quad>) -> bool {
        &&& self.positions@ == quad_positions(faces)
        &&& self.normals@ == quad_normals(faces)
        &&& self.uvs@ == quad_uvs(faces)
        &&& self.indices@ == quad_indices(faces)
    }

    /// A mesh without vertices.
    pub fn new() -> (mesh: Mesh)
        ensures
            mesh.positions@.len() == 0,
            mesh.normals@.len() == 0,
            mesh.uvs@.len() == 0,
            mesh.indices@.len() == 0,
    {
        Mesh { positions: Vec::new(), normals: Vec::new(), uvs: Vec::new(), indices: Vec::new() }
    }

    /// Appends the four vertices and the two triangles of one voxel side.
    pub fn push_quad(&mut self, quad: Quad)
        requires
            old(self).positions@.len() + 4 <= u32::MAX,
            quad.x < i8::MAX,
            quad.y < i8::MAX,
            quad.z < i8::MAX,
        ensures
            final(self).positions@ == old(self).positions@ + quad.positions(),
            final(self).normals@ == old(self).normals@ + quad.normals(),
            final(self).uvs@ == old(self).uvs@ + quad.uvs(),
            final(self).indices@ == old(self).indices@ + quad.indices(
                old(self).positions@.len() as int,
            ),
    {
        let base: u32 = self.positions.len() as u32;
        let corners = quad.face.corners();
        let normal = quad.face.normal();
        let uvs = quad.face.uvs();
        let winding = quad.face.winding();
        for k in 0..4usize
            invariant
                corners@ == quad.face.spec_corners(),
                uvs@ == quad.face.spec_uvs(),
                normal == quad.face.normal(),
                quad.x < i8::MAX,
                quad.y < i8::MAX,
                quad.z < i8::MAX,
                self.positions@ == old(self).positions@ + quad.positions().take(k as int),
                self.normals@ == old(self).normals@ + quad.normals().take(k as int),
                self.uvs@ == old(self).uvs@ + quad.uvs().take(k as int),
                self.indices@ == old(self).indices@,
        {
            let c = corners[k];
            self.positions.push((quad.x + c.0, quad.y + c.1, quad.z + c.2));
            self.normals.push(normal);
            self.uvs.push(uvs[k]);
            assert(quad.positions().take(k + 1) =~= quad.positions().take(k as int).push(
                quad.positions()[k as int],
            ));
            assert(quad.normals().take(k + 1) =~= quad.normals().take(k as int).push(
                quad.normals()[k as int],
            ));
            assert(quad.uvs().take(k + 1) =~= quad.uvs().take(k as int).push(quad.uvs()[k as int]));
        }
        for j in 0..6usize
            invariant
                winding@ == quad.face.spec_winding(),
                base == old(self).positions@.len(),
                base + 4 <= u32::MAX,
                self.positions@ == old(self).positions@ + quad.positions(),
                self.normals@ == old(self).normals@ + quad.normals(),
                self.uvs@ == old(self).uvs@ + quad.uvs(),
                self.indices@ == old(self).indices@ + quad.indices(base as int).take(j as int),
        {
            self.indices.push(base + winding[j]);
            assert(quad.indices(base as int).take(j + 1) =~= quad.indices(base as int).take(
                j as int,
            ).push(quad.indices(base as int)[j as int]));
        }
    }
}

/// A mesh that holds some voxel sides holds one more after the vertices and
/// indices of that side were appended.
pub proof fn lemma_depicts_push(before: Mesh, after: Mesh, faces: Seq<Quad>, quad: Quad)
    requires
        before.depicts(faces),
        after.positions@ == before.positions@ + quad.positions(),
        after.normals@ == before.normals@ + quad.normals(),
        after.uvs@ == before.uvs@ + quad.uvs(),
        after.indices@ == before.indices@ + quad.indices(before.positions@.len() as int),
    ensures
        after.depicts(faces.push(quad)),
{
    let more = faces.push(quad);
    assert(after.positions@ =~= quad_positions(more));
    assert(after.normals@ =~= quad_normals(more));
    assert(after.uvs@ =~= quad_uvs(more));
    assert(after.indices@ =~= quad_indices(more));
}

/// Whether `a`, `b`, `c` are three different vertices among the four that
/// start at `base`.
pub open spec fn triangle_of_quad(a: u32, b: u32, c: u32, base: int) -> bool {
    &&& base <= a < base + 4
    &&& base <= b < base + 4
    &&& base <= c < base + 4
    &&& a != b
    &&& b != c
    &&& a != c
}

/// Whether `v` is one of `a`, `b`, `c`.
pub open spec fn among(v: u32, a: u32, b: u32, c: u32) -> bool {
    v == a || v == b || v == c
}

/// Vertex `4 * i + k` is vertex `k` of side `i`.
proof fn lemma_vertex_place(i: int, k: int)
    requires
        0 <= i,
        0 <= k < 4,
    ensures
        (4 * i + k) / 4 == i,
        (4 * i + k) % 4 == k,
{
}

/// Index `6 * i + j` is index `j` of side `i`.
proof fn lemma_index_place(i: int, j: int)
    requires
        0 <= i,
        0 <= j < 6,
    ensures
        (6 * i + j) / 6 == i,
        (6 * i + j) % 6 == j,
{
}

/// The four entries from `4 * i` of the position buffer of a list of sides
/// are those of side `i`.
proof fn lemma_positions_of_side(buffer: Seq<(i8, i8, i8)>, faces: Seq<Quad>, i: int)
    requires
        0 <= i < faces.len(),
        buffer == quad_positions(faces),
    ensures
        buffer.subrange(4 * i, 4 * i + 4) == faces[i].positions(),
{
    let part = buffer.subrange(4 * i, 4 * i + 4);
    assert forall|k: int| 0 <= k < 4 implies part[k] == faces[i].positions()[k] by {
        lemma_vertex_place(i, k);
    }
    assert(part =~= faces[i].positions());
}

/// The four entries from `4 * i` of the normal buffer of a list of sides are
/// those of side `i`.
proof fn lemma_normals_of_side(buffer: Seq<(i8, i8, i8)>, faces: Seq<Quad>, i: int)
    requires
        0 <= i < faces.len(),
        buffer == quad_normals(faces),
    ensures
        buffer.subrange(4 * i, 4 * i + 4) == faces[i].normals(),
{
    let part = buffer.subrange(4 * i, 4 * i + 4);
    assert forall|k: int| 0 <= k < 4 implies part[k] == faces[i].normals()[k] by {
        lemma_vertex_place(i, k);
    }
    assert(part =~= faces[i].normals());
}

/// The four entries from `4 * i` of the texture buffer of a list of sides
/// are those of side `i`.
proof fn lemma_uvs_of_side(buffer: Seq<(i8, i8)>, faces: Seq<Quad>, i: int)
    requires
        0 <= i < faces.len(),
        buffer == quad_uvs(faces),
    ensures
        buffer.subrange(4 * i, 4 * i + 4) == faces[i].uvs(),
{
    let part = buffer.subrange(4 * i, 4 * i + 4);
    assert forall|k: int| 0 <= k < 4 implies part[k] == faces[i].uvs()[k] by {
        lemma_vertex_place(i, k);
    }
    assert(part =~= faces[i].uvs());
}

/// In a mesh that holds a list of voxel sides, the side at place `i` owns the
/// vertices from `4 * i` and the indices from `6 * i`, and they are its own.
pub proof fn lemma_depicted_face(mesh: Mesh, faces: Seq<Quad>, i: int)
    requires
        mesh.depicts(faces),
        0 <= i < faces.len(),
    ensures
        mesh.positions@.subrange(4 * i, 4 * i + 4) == faces[i].positions(),
        mesh.normals@.subrange(4 * i, 4 * i + 4) == faces[i].normals(),
        mesh.uvs@.subrange(4 * i, 4 * i + 4) == faces[i].uvs(),
        mesh.indices@.subrange(6 * i, 6 * i + 6) == faces[i].indices(4 * i),
{
    lemma_positions_of_side(mesh.positions@, faces, i);
    lemma_normals_of_side(mesh.normals@, faces, i);
    lemma_uvs_of_side(mesh.uvs@, faces, i);
    lemma_indices_of_side(mesh.indices@, faces, i);
}

/// The six entries from `6 * i` of the index buffer of a list of sides are
/// those of side `i`.
proof fn lemma_indices_of_side(buffer: Seq<u32>, faces: Seq<Quad>, i: int)
    requires
        0 <= i < faces.len(),
        buffer == quad_indices(faces),
    ensures
        buffer.subrange(6 * i, 6 * i + 6) == faces[i].indices(4 * i),
{
    let part = buffer.subrange(6 * i, 6 * i + 6);
    assert forall|j: int| 0 <= j < 6 implies part[j] == faces[i].indices(4 * i)[j] by {
        lemma_index_place(i, j);
    }
    assert(part =~= faces[i].indices(4 * i));
}

/// The six indices of a side form two triangles: each has three different
/// vertices among the side's four, and the first vertex of the first
/// triangle is none of the second, so that the two are not one triangle
/// written twice.
pub proof fn lemma_quad_triangles(quad: Quad, base: int)
    requires
        0 <= base,
        base + 3 <= u32::MAX,
    ensures
        ({
            let t = quad.indices(base);
            &&& t.len() == 6
            &&& triangle_of_quad(t[0], t[1], t[2], base)
            &&& triangle_of_quad(t[3], t[4], t[5], base)
            &&& !among(t[0], t[3], t[4], t[5])
        }),
{
    let w = quad.face.spec_winding();
    let t = quad.indices(base);
    assert(t[0] == base + w[0] && t[1] == base + w[1] && t[2] == base + w[2]);
    assert(t[3] == base + w[3] && t[4] == base + w[4] && t[5] == base + w[5]);
}

} // verus!
