use vstd::prelude::*;
use crate::chunk::{Chunk, AIR, CHUNKSIZE, SOLID, in_grid};
use crate::face::{Face, lemma_uvs_cover_unit_square, unit_square_corner};
use crate::mesh::{
    Mesh, Quad, among, lemma_depicted_face, lemma_depicts_push, lemma_quad_triangles,
    triangle_of_quad,
};

verus! {

/// Number of voxel sides in a chunk: six for each of its voxels.
pub open spec fn slot_count() -> int {
    24576
}

/// The voxel side at a place of the scan. The scan visits the voxels with `x`
/// running fastest, then `y`, then `z`, and the six sides of each voxel in the
/// order of [`Face`].
pub open spec fn quad_at(slot: int) -> Quad {
    let cell = slot / 6;
    Quad {
        x: (cell % 16) as i8,
        y: (cell / 16 % 16) as i8,
        z: (cell / 256) as i8,
        face: Face::spec_from_index(slot % 6),
    }
}

/// Place in the scan of side number `side` of the voxel at `(x, y, z)`.
pub open spec fn slot_of(x: int, y: int, z: int, side: int) -> int {
    6 * (x + 16 * (y + 16 * z)) + side
}

/// Place in the scan of a voxel side.
pub open spec fn slot_index(quad: Quad) -> int {
    slot_of(quad.x as int, quad.y as int, quad.z as int, quad.face.spec_index())
}

/// Every voxel side of a chunk, in scan order.
pub open spec fn scan_order() -> Seq<Quad> {
    Seq::new(slot_count() as nat, |slot: int| quad_at(slot))
}

/// The scan reaches side `side` of the voxel at `(x, y, z)` at `slot_of(x, y, z, side)`.
pub proof fn lemma_quad_at_slot(x: int, y: int, z: int, side: int)
    requires
        in_grid(x, y, z),
        0 <= side < 6,
    ensures
        0 <= slot_of(x, y, z, side) < slot_count(),
        quad_at(slot_of(x, y, z, side)) == (Quad {
            x: x as i8,
            y: y as i8,
            z: z as i8,
            face: Face::spec_from_index(side),
        }),
{
    let cell = x + 16 * (y + 16 * z);
    let slot = slot_of(x, y, z, side);
    assert(slot / 6 == cell && slot % 6 == side);
    assert(cell % 16 == x && cell / 16 == y + 16 * z);
    assert((y + 16 * z) % 16 == y && cell / 256 == z);
}

/// Every place of the scan holds a voxel side of the grid, and that side's
/// place is the place it was taken from.
pub proof fn lemma_slot_of_quad_at(slot: int)
    requires
        0 <= slot < slot_count(),
    ensures
        in_grid(quad_at(slot).x as int, quad_at(slot).y as int, quad_at(slot).z as int),
        slot_index(quad_at(slot)) == slot,
{
    let cell = slot / 6;
    assert(0 <= cell < 4096);
    assert(0 <= slot % 6 < 6);
    assert(cell == cell % 16 + 16 * (cell / 16));
    assert(cell / 16 == (cell / 16) % 16 + 16 * (cell / 256));
    assert(Face::spec_from_index(slot % 6).spec_index() == slot % 6);
}

impl Chunk {
    /// Whether a voxel side lies open: its voxel is solid and the neighbour
    /// on that side is air.
    pub open spec fn exposes(&self, quad: Quad) -> bool {
        let n = quad.face.normal();
        &&& self.block_at(quad.x as int, quad.y as int, quad.z as int) == SOLID
        &&& self.block_at(quad.x + n.0, quad.y + n.1, quad.z + n.2) == AIR
    }

    /// [`Chunk::exposes`] as a predicate.
    pub open spec fn exposure(&self) -> spec_fn(Quad) -> bool {
        |quad: Quad| self.exposes(quad)
    }

    /// The open sides among the first `slot` places of the scan.
    spec fn faces_before(&self, slot: int) -> Seq<Quad> {
        scan_order().take(slot).filter(self.exposure())
    }

    /// The open sides of the chunk, in scan order.
    pub open spec fn exposed_faces(&self) -> Seq<Quad> {
        scan_order().filter(self.exposure())
    }

    /// One more place of the scan adds the side at that place if it lies
    /// open, and nothing otherwise.
    proof fn lemma_faces_step(&self, slot: int)
        requires
            0 <= slot < slot_count(),
        ensures
            self.faces_before(slot + 1) == if self.exposes(quad_at(slot)) {
                self.faces_before(slot).push(quad_at(slot))
            } else {
                self.faces_before(slot)
            },
            self.faces_before(slot).len() <= slot,
    {
        let longer = scan_order().take(slot + 1);
        assert(longer.drop_last() =~= scan_order().take(slot));
        assert(longer.last() == quad_at(slot));
        reveal(Seq::filter);
        scan_order().take(slot).lemma_filter_len(self.exposure());
    }

    /// A voxel that is not solid adds nothing on any of its six places.
    proof fn lemma_air_cell(&self, x: int, y: int, z: int)
        requires
            in_grid(x, y, z),
            self.block_at(x, y, z) != SOLID,
        ensures
            self.faces_before(slot_of(x, y, z, 6)) == self.faces_before(slot_of(x, y, z, 0)),
    {
        let first = slot_of(x, y, z, 0);
        assert forall|side: int| 0 <= side < 6 implies #[trigger] self.faces_before(
            first + side + 1,
        ) == self.faces_before(first + side) by {
            lemma_quad_at_slot(x, y, z, side);
            self.lemma_faces_step(first + side);
        }
        assert(self.faces_before(first + 0 + 1) == self.faces_before(first + 0));
        assert(self.faces_before(first + 1 + 1) == self.faces_before(first + 1));
        assert(self.faces_before(first + 2 + 1) == self.faces_before(first + 2));
        assert(self.faces_before(first + 3 + 1) == self.faces_before(first + 3));
        assert(self.faces_before(first + 4 + 1) == self.faces_before(first + 4));
        assert(self.faces_before(first + 5 + 1) == self.faces_before(first + 5));
    }

    /// What the first `slot` places of the scan contribute: open sides only,
    /// in rising order of their places, and every open side among them.
    proof fn lemma_faces_before_exact(&self, slot: int)
        requires
            0 <= slot <= slot_count(),
        ensures
            forall|i: int|
                0 <= i < self.faces_before(slot).len() ==> {
                    let quad = #[trigger] self.faces_before(slot)[i];
                    self.exposes(quad) && 0 <= slot_index(quad) < slot
                },
            forall|i: int, j: int|
                0 <= i < j < self.faces_before(slot).len() ==> slot_index(
                    #[trigger] self.faces_before(slot)[i],
                ) < slot_index(#[trigger] self.faces_before(slot)[j]),
            forall|quad: Quad|
                self.exposes(quad) && slot_index(quad) < slot ==> #[trigger] self.faces_before(
                    slot,
                ).contains(quad),
        decreases slot,
    {
        if slot == 0 {
            assert(self.faces_before(0) =~= Seq::<Quad>::empty()) by {
                reveal(Seq::filter);
            }
            assert forall|quad: Quad| self.exposes(quad) implies slot_index(quad) >= 0 by {
                lemma_exposed_in_scan(*self, quad);
            }
        } else {
            let last = quad_at(slot - 1);
            let shorter = self.faces_before(slot - 1);
            self.lemma_faces_before_exact(slot - 1);
            self.lemma_faces_step(slot - 1);
            lemma_slot_of_quad_at(slot - 1);
            assert forall|quad: Quad|
                self.exposes(quad) && slot_index(quad) < slot implies #[trigger] self.faces_before(
                slot,
            ).contains(quad) by {
                if slot_index(quad) < slot - 1 {
                    assert(shorter.contains(quad));
                    let i = choose|i: int| 0 <= i < shorter.len() && shorter[i] == quad;
                    assert(self.faces_before(slot)[i] == quad);
                } else {
                    lemma_exposed_in_scan(*self, quad);
                    assert(quad == last);
                    assert(self.faces_before(slot)[shorter.len() as int] == quad);
                }
            }
        }
    }

    /// The set of the chunk's open sides: the pairs of a solid voxel and a
    /// side on which its neighbour is air.
    pub open spec fn exposed_set(&self) -> Set<Quad> {
        Set::new(|quad: Quad| self.exposes(quad))
    }

    /// The list of open sides holds each open side of the chunk once, and no
    /// other side, in the order of the scan. Its length is therefore the
    /// number of pairs of a solid voxel and an air neighbour.
    pub proof fn lemma_exposed_faces_exact(&self)
        ensures
            forall|quad: Quad| self.exposed_faces().contains(quad) <==> self.exposes(quad),
            forall|i: int, j: int|
                0 <= i < j < self.exposed_faces().len() ==> slot_index(
                    #[trigger] self.exposed_faces()[i],
                ) < slot_index(#[trigger] self.exposed_faces()[j]),
            self.exposed_faces().no_duplicates(),
            self.exposed_set().finite(),
            self.exposed_faces().len() == self.exposed_set().len(),
    {
        let faces = self.exposed_faces();
        assert(scan_order().take(slot_count()) =~= scan_order());
        assert(faces == self.faces_before(slot_count()));
        self.lemma_faces_before_exact(slot_count());
        assert forall|quad: Quad| faces.contains(quad) <==> self.exposes(quad) by {
            if self.exposes(quad) {
                lemma_exposed_in_scan(*self, quad);
            }
        }
        assert(faces.to_set() =~= self.exposed_set());
        faces.unique_seq_to_set();
    }

    /// Builds the surface of the chunk: one quad for each side of a solid
    /// voxel whose neighbour on that side is air. Positions outside the grid
    /// count as air, so the sides on the chunk's boundary are always drawn.
    pub fn make_mesh(&self) -> (mesh: Mesh)
        ensures
            mesh.depicts(self.exposed_faces()),
            mesh.positions@.len() == 4 * self.exposed_set().len(),
            mesh.normals@.len() == 4 * self.exposed_set().len(),
            mesh.uvs@.len() == 4 * self.exposed_set().len(),
            mesh.indices@.len() == 6 * self.exposed_set().len(),
            self.all_air() ==> mesh.positions@.len() == 0 && mesh.indices@.len() == 0,
    {
        let mut mesh = Mesh::new();
        let sides = Face::all();
        assert(self.faces_before(0) =~= Seq::<Quad>::empty()) by {
            reveal(Seq::filter);
        }
        assert(mesh.positions@ =~= crate::mesh::quad_positions(Seq::<Quad>::empty()));
        assert(mesh.normals@ =~= crate::mesh::quad_normals(Seq::<Quad>::empty()));
        assert(mesh.uvs@ =~= crate::mesh::quad_uvs(Seq::<Quad>::empty()));
        assert(mesh.indices@ =~= crate::mesh::quad_indices(Seq::<Quad>::empty()));
        for z in 0..CHUNKSIZE
            invariant
                forall|i: int| 0 <= i < 6 ==> sides@[i] == Face::spec_from_index(i),
                mesh.depicts(self.faces_before(slot_of(0, 0, z as int, 0))),
        {
            for y in 0..CHUNKSIZE
                invariant
                    0 <= z < 16,
                    forall|i: int| 0 <= i < 6 ==> sides@[i] == Face::spec_from_index(i),
                    mesh.depicts(self.faces_before(slot_of(0, y as int, z as int, 0))),
            {
                for x in 0..CHUNKSIZE
                    invariant
                        0 <= z < 16,
                        0 <= y < 16,
                        forall|i: int| 0 <= i < 6 ==> sides@[i] == Face::spec_from_index(i),
                        mesh.depicts(self.faces_before(slot_of(x as int, y as int, z as int, 0))),
                {
                    if self.get_block(x, y, z) == SOLID {
                        for side in 0..6usize
                            invariant
                                0 <= z < 16,
                                0 <= y < 16,
                                0 <= x < 16,
                                self.block_at(x as int, y as int, z as int) == SOLID,
                                forall|i: int| 0 <= i < 6 ==> sides@[i] == Face::spec_from_index(i),
                                mesh.depicts(
                                    self.faces_before(
                                        slot_of(x as int, y as int, z as int, side as int),
                                    ),
                                ),
                        {
                            let face = sides[side];
                            let n = face.normal();
                            let quad = Quad { x, y, z, face };
                            proof {
                                let slot = slot_of(x as int, y as int, z as int, side as int);
                                lemma_quad_at_slot(x as int, y as int, z as int, side as int);
                                self.lemma_faces_step(slot);
                            }
                            if self.get_block(x + n.0, y + n.1, z + n.2) == AIR {
                                let ghost before = mesh;
                                mesh.push_quad(quad);
                                proof {
                                    lemma_depicts_push(
                                        before,
                                        mesh,
                                        self.faces_before(
                                            slot_of(x as int, y as int, z as int, side as int),
                                        ),
                                        quad,
                                    );
                                }
                            }
                        }
                    } else {
                        proof {
                            self.lemma_air_cell(x as int, y as int, z as int);
                        }
                    }
                }
            }
        }
        proof {
            assert(scan_order().take(slot_count()) =~= scan_order());
            self.lemma_exposed_faces_exact();
            if self.all_air() {
                lemma_air_has_no_faces(*self);
            }
        }
        mesh
    }
}

/// The surface to draw for a chunk: none for a chunk that is flagged as
/// empty, and the mesh of its open sides for every other chunk. The flag is
/// taken as it stands; the voxels of an empty chunk are not looked at.
pub fn surface_of(chunk: &Chunk) -> (surface: Option<Mesh>)
    ensures
        surface is None <==> chunk.is_empty,
        surface matches Some(m) ==> m.depicts(chunk.exposed_faces()),
{
    if chunk.is_empty {
        None
    } else {
        Some(chunk.make_mesh())
    }
}

/// An open side belongs to a voxel of the grid: it has a place in the scan,
/// and the scan holds it at that place.
pub proof fn lemma_exposed_in_scan(chunk: Chunk, quad: Quad)
    requires
        chunk.exposes(quad),
    ensures
        in_grid(quad.x as int, quad.y as int, quad.z as int),
        0 <= slot_index(quad) < slot_count(),
        quad_at(slot_index(quad)) == quad,
{
    lemma_quad_at_slot(quad.x as int, quad.y as int, quad.z as int, quad.face.spec_index());
    assert(Face::spec_from_index(quad.face.spec_index()) == quad.face);
}

/// Every side in the list of a chunk's open sides lies open: its voxel is
/// solid and the neighbour on that side is air. There are at most as many
/// of them as the scan has places.
pub proof fn lemma_listed_side_is_open(chunk: Chunk, i: int)
    requires
        0 <= i < chunk.exposed_faces().len(),
    ensures
        chunk.exposes(chunk.exposed_faces()[i]),
        chunk.exposed_faces().len() <= slot_count(),
{
    scan_order().lemma_filter_pred(chunk.exposure(), i);
    scan_order().lemma_filter_len(chunk.exposure());
}

/// Normals agree with the scan. For the side at place `i` of a chunk's
/// surface: its voxel is solid, the neighbour that was looked at is air, and
/// the normal stored with each of its four vertices is the step to that
/// neighbour.
pub proof fn lemma_side_normals(chunk: Chunk, mesh: Mesh, i: int)
    requires
        mesh.depicts(chunk.exposed_faces()),
        0 <= i < chunk.exposed_faces().len(),
    ensures
        ({
            let quad = chunk.exposed_faces()[i];
            let step = quad.face.normal();
            &&& chunk.block_at(quad.x as int, quad.y as int, quad.z as int) == SOLID
            &&& chunk.block_at(quad.x + step.0, quad.y + step.1, quad.z + step.2) == AIR
            &&& mesh.normals@.subrange(4 * i, 4 * i + 4) == seq![step, step, step, step]
        }),
{
    let quad = chunk.exposed_faces()[i];
    let step = quad.face.normal();
    lemma_listed_side_is_open(chunk, i);
    lemma_depicted_face(mesh, chunk.exposed_faces(), i);
    assert(quad.normals() =~= seq![step, step, step, step]);
}

/// Winding agrees with the scan. The six indices of the side at place `i` of
/// a chunk's surface form two triangles, each of three different vertices
/// of that side, and the two are not the same triangle.
pub proof fn lemma_side_triangles(chunk: Chunk, mesh: Mesh, i: int)
    requires
        mesh.depicts(chunk.exposed_faces()),
        0 <= i < chunk.exposed_faces().len(),
    ensures
        ({
            let t = mesh.indices@.subrange(6 * i, 6 * i + 6);
            &&& triangle_of_quad(t[0], t[1], t[2], 4 * i)
            &&& triangle_of_quad(t[3], t[4], t[5], 4 * i)
            &&& !among(t[0], t[3], t[4], t[5])
        }),
{
    lemma_listed_side_is_open(chunk, i);
    lemma_depicted_face(mesh, chunk.exposed_faces(), i);
    lemma_quad_triangles(chunk.exposed_faces()[i], 4 * i);
}

/// Texture coordinates cover the unit square. The four coordinates stored
/// for the side at place `i` of a chunk's surface are the four corners of
/// the unit square, each once, in the order of the side's corners.
pub proof fn lemma_side_uvs(chunk: Chunk, mesh: Mesh, i: int)
    requires
        mesh.depicts(chunk.exposed_faces()),
        0 <= i < chunk.exposed_faces().len(),
    ensures
        ({
            let uvs = mesh.uvs@.subrange(4 * i, 4 * i + 4);
            &&& uvs == chunk.exposed_faces()[i].face.spec_uvs()
            &&& uvs.len() == 4
            &&& uvs.no_duplicates()
            &&& forall|k: int| 0 <= k < 4 ==> unit_square_corner(#[trigger] uvs[k])
            &&& forall|uv: (i8, i8)| unit_square_corner(uv) ==> #[trigger] uvs.contains(uv)
        }),
{
    lemma_depicted_face(mesh, chunk.exposed_faces(), i);
    lemma_uvs_cover_unit_square(chunk.exposed_faces()[i].face);
}

/// A chunk without a solid voxel has no open side.
pub proof fn lemma_air_has_no_faces(chunk: Chunk)
    requires
        chunk.all_air(),
    ensures
        chunk.exposed_faces() == Seq::<Quad>::empty(),
{
    assert forall|i: int| 0 <= i < scan_order().len() implies !(chunk.exposure())(
        #[trigger] scan_order()[i],
    ) by {
        lemma_slot_of_quad_at(i);
        let quad = scan_order()[i];
        assert(chunk.block_at(quad.x as int, quad.y as int, quad.z as int) == crate::chunk::grid_cell(
            chunk.blocks,
            quad.x as int,
            quad.y as int,
            quad.z as int,
        ));
    }
    scan_order().lemma_all_neg_filter_empty(chunk.exposure());
    assert(chunk.exposed_faces() =~= Seq::<Quad>::empty());
}

} // verus!
