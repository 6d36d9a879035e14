use vstd::prelude::*;

verus! {

/// Side length of a chunk, in voxels.
pub const CHUNKSIZE: i8 = 16;

/// Block kind of an empty voxel.
pub const AIR: i8 = 0;

/// Block kind of a filled voxel.
pub const SOLID: i8 = 1;

/// Quotient of `a` by the chunk's side length, rounded towards zero.
pub open spec fn toward_zero_quotient(a: int) -> int {
    if a >= 0 {
        a / 16
    } else {
        -((-a) / 16)
    }
}

/// Rounding towards zero: sixteen times the quotient lies between zero and
/// `a`, less than sixteen away from `a`. For `a` from -15 to 15 the
/// quotient is 0.
pub proof fn lemma_quotient_rounds_toward_zero(a: int)
    ensures
        a >= 0 ==> 16 * toward_zero_quotient(a) <= a < 16 * toward_zero_quotient(a) + 16,
        a <= 0 ==> 16 * toward_zero_quotient(a) - 16 < a <= 16 * toward_zero_quotient(a),
        a >= 0 ==> toward_zero_quotient(a) >= 0,
        a <= 0 ==> toward_zero_quotient(a) <= 0,
        -16 < a < 16 ==> toward_zero_quotient(a) == 0,
{
}

/// Whether a position lies inside a chunk's grid on all three axes.
pub open spec fn in_grid(x: int, y: int, z: int) -> bool {
    0 <= x < 16 && 0 <= y < 16 && 0 <= z < 16
}

/// The chunk that holds the block at a world position.
///
/// Each axis is divided by the side length and rounded towards zero, so the
/// blocks from -15 to 15 all belong to chunk 0 on that axis.
pub fn chunk_coords(x: i16, y: i16, z: i16) -> (c: (i16, i16, i16))
    ensures
        c.0 == toward_zero_quotient(x as int),
        c.1 == toward_zero_quotient(y as int),
        c.2 == toward_zero_quotient(z as int),
{
    (x / CHUNKSIZE as i16, y / CHUNKSIZE as i16, z / CHUNKSIZE as i16)
}

/// World coordinate, on one axis, of the voxel at `local` in chunk `chunk`.
pub open spec fn world_coord(local: int, chunk: int) -> int {
    local + 16 * chunk
}

/// World position of the voxel at `(x, y, z)` in the chunk at `c`.
pub open spec fn world_position(x: int, y: int, z: int, c: (i16, i16, i16)) -> (i32, i32, i32) {
    (
        world_coord(x, c.0 as int) as i32,
        world_coord(y, c.1 as int) as i32,
        world_coord(z, c.2 as int) as i32,
    )
}

/// Whether a density may be asked about every voxel of the chunk at `c`.
pub open spec fn covers<F: Fn(i32, i32, i32) -> bool>(density: F, c: (i16, i16, i16)) -> bool {
    forall|x: int, y: int, z: int|
        in_grid(x, y, z) ==> density.requires(#[trigger] world_position(x, y, z, c))
}

/// Whether a block kind is what a density said about the voxel at
/// `(x, y, z)` in the chunk at `c`: solid for `true`, air for `false`.
pub open spec fn follows<F: Fn(i32, i32, i32) -> bool>(
    kind: i8,
    density: F,
    x: int,
    y: int,
    z: int,
    c: (i16, i16, i16),
) -> bool {
    &&& kind == SOLID || kind == AIR
    &&& density.ensures(world_position(x, y, z, c), kind == SOLID)
}

/// Whether a grid is filled from a density up to, and not including, the
/// voxel at `(x, y, z)`, and holds air from there on.
spec fn filled_up_to<F: Fn(i32, i32, i32) -> bool>(
    blocks: [[[i8; 16]; 16]; 16],
    density: F,
    c: (i16, i16, i16),
    x: int,
    y: int,
    z: int,
) -> bool {
    forall|a: int, b: int, d: int|
        in_grid(a, b, d) ==> {
            let kind = #[trigger] grid_cell(blocks, a, b, d);
            if walked_before(a, b, d, x, y, z) {
                follows(kind, density, a, b, d, c)
            } else {
                kind == AIR
            }
        }
}

/// Whether a grid holds no solid voxel.
pub open spec fn grid_is_air(blocks: [[[i8; 16]; 16]; 16]) -> bool {
    forall|x: int, y: int, z: int|
        in_grid(x, y, z) ==> #[trigger] grid_cell(blocks, x, y, z) != SOLID
}

/// Whether `(a, b, c)` comes before `(x, y, z)` when a grid is walked with
/// `x` running fastest, then `y`, then `z`.
spec fn walked_before(a: int, b: int, c: int, x: int, y: int, z: int) -> bool {
    c < z || (c == z && (b < y || (b == y && a < x)))
}

/// What a three-dimensional grid holds at a position inside it.
pub open spec fn grid_cell(blocks: [[[i8; 16]; 16]; 16], x: int, y: int, z: int) -> i8 {
    blocks[x][y][z]
}

/// World position of the first voxel, the one at `(0, 0, 0)`, of the chunk at
/// `(cx, cy, cz)`.
pub fn world_origin(cx: i16, cy: i16, cz: i16) -> (origin: (i32, i32, i32))
    ensures
        origin == world_position(0, 0, 0, (cx, cy, cz)),
        origin.0 == 16 * cx,
        origin.1 == 16 * cy,
        origin.2 == 16 * cz,
{
    (CHUNKSIZE as i32 * cx as i32, CHUNKSIZE as i32 * cy as i32, CHUNKSIZE as i32 * cz as i32)
}

/// A cube of 16 x 16 x 16 voxels.
pub struct Chunk {
    /// Whether the chunk held no solid voxel when it was generated.
    pub is_empty: bool,
    /// Position of the chunk, counted in chunks.
    pub cxyz: (i16, i16, i16),
    /// Block kind of each voxel, addressed as `blocks[x][y][z]`.
    pub blocks: [[[i8; 16]; 16]; 16],
}

impl Chunk {
    /// Block kind at a position: what the grid holds inside the chunk, air
    /// everywhere else.
    pub open spec fn block_at(&self, x: int, y: int, z: int) -> i8 {
        if in_grid(x, y, z) {
            grid_cell(self.blocks, x, y, z)
        } else {
            AIR
        }
    }

    /// Whether no voxel of the chunk is solid.
    pub open spec fn all_air(&self) -> bool {
        grid_is_air(self.blocks)
    }

    /// Whether the chunk is what [`Chunk::generate`] makes of a density at a
    /// chunk position: every voxel is solid or air, it is solid exactly where
    /// the density said so for its world position, the flag tells whether
    /// no voxel is solid, and the position is recorded.
    pub open spec fn generated_by<F: Fn(i32, i32, i32) -> bool>(
        &self,
        density: F,
        cx: i16,
        cy: i16,
        cz: i16,
    ) -> bool {
        &&& self.cxyz == (cx, cy, cz)
        &&& self.is_empty <==> self.all_air()
        &&& forall|x: int, y: int, z: int|
            in_grid(x, y, z) ==> follows(
                #[trigger] self.block_at(x, y, z),
                density,
                x,
                y,
                z,
                (cx, cy, cz),
            )
    }

    /// Fills a chunk from a density: `density(wx, wy, wz)` tells whether the
    /// voxel at that world position is solid. It is asked once for each voxel
    /// of the chunk at `(cx, cy, cz)`.
    pub fn generate<F: Fn(i32, i32, i32) -> bool>(density: F, cx: i16, cy: i16, cz: i16) -> (chunk:
        Chunk)
        requires
            covers(density, (cx, cy, cz)),
        ensures
            chunk.generated_by(density, cx, cy, cz),
            chunk.is_empty <==> chunk.all_air(),
    {
        let mut is_empty = true;
        let mut blocks = [[[AIR;16];16];16];
        for z in 0..CHUNKSIZE
            invariant
                covers(density, (cx, cy, cz)),
                is_empty <==> grid_is_air(blocks),
                filled_up_to(blocks, density, (cx, cy, cz), 0, 0, z as int),
        {
            for y in 0..CHUNKSIZE
                invariant
                    0 <= z < 16,
                    covers(density, (cx, cy, cz)),
                    is_empty <==> grid_is_air(blocks),
                    filled_up_to(blocks, density, (cx, cy, cz), 0, y as int, z as int),
            {
                for x in 0..CHUNKSIZE
                    invariant
                        0 <= z < 16,
                        0 <= y < 16,
                        covers(density, (cx, cy, cz)),
                        is_empty <==> grid_is_air(blocks),
                        filled_up_to(blocks, density, (cx, cy, cz), x as int, y as int, z as int),
                {
                    let wx: i32 = x as i32 + CHUNKSIZE as i32 * cx as i32;
                    let wy: i32 = y as i32 + CHUNKSIZE as i32 * cy as i32;
                    let wz: i32 = z as i32 + CHUNKSIZE as i32 * cz as i32;
                    assert((wx, wy, wz) == world_position(
                        x as int,
                        y as int,
                        z as int,
                        (cx, cy, cz),
                    ));
                    let ghost before = blocks;
                    if density(wx, wy, wz) {
                        blocks[x as usize][y as usize][z as usize] = SOLID;
                        is_empty = false;
                        assert(grid_cell(blocks, x as int, y as int, z as int) == SOLID);
                    }
                    assert(forall|a: int, b: int, d: int|
                        in_grid(a, b, d) && !(a == x && b == y && d == z) ==> #[trigger] grid_cell(
                            blocks,
                            a,
                            b,
                            d,
                        ) == grid_cell(before, a, b, d));
                }
            }
        }
        Chunk { is_empty, cxyz: (cx, cy, cz), blocks }
    }

    /// Block kind at a position of the chunk's own grid. Every position
    /// outside the grid reads as air.
    pub fn get_block(&self, x: i8, y: i8, z: i8) -> (b: i8)
        ensures
            b == self.block_at(x as int, y as int, z as int),
            !in_grid(x as int, y as int, z as int) ==> b == 0,
    {
        if 0 <= x && x < CHUNKSIZE && 0 <= y && y < CHUNKSIZE && 0 <= z && z < CHUNKSIZE {
            self.blocks[x as usize][y as usize][z as usize]
        } else {
            AIR
        }
    }
}

/// Whether a density gives one answer for each voxel of the chunk at `c`.
pub open spec fn single_valued<F: Fn(i32, i32, i32) -> bool>(density: F, c: (i16, i16, i16)) -> bool {
    forall|x: int, y: int, z: int|
        in_grid(x, y, z) ==> !(density.ensures(#[trigger] world_position(x, y, z, c), true)
            && density.ensures(world_position(x, y, z, c), false))
}

/// Generation is deterministic: two chunks generated from one density at one
/// chunk position are equal, voxel for voxel, flag and position included,
/// provided the density gives one answer for each voxel.
pub proof fn lemma_generate_deterministic<F: Fn(i32, i32, i32) -> bool>(
    density: F,
    cx: i16,
    cy: i16,
    cz: i16,
    first: Chunk,
    second: Chunk,
)
    requires
        single_valued(density, (cx, cy, cz)),
        first.generated_by(density, cx, cy, cz),
        second.generated_by(density, cx, cy, cz),
    ensures
        first == second,
{
    assert forall|x: int, y: int, z: int| in_grid(x, y, z) implies #[trigger] grid_cell(
        first.blocks,
        x,
        y,
        z,
    ) == grid_cell(second.blocks, x, y, z) by {
        let p = world_position(x, y, z, (cx, cy, cz));
        let u = first.block_at(x, y, z);
        let v = second.block_at(x, y, z);
        assert(density.ensures(p, u == SOLID) && density.ensures(p, v == SOLID));
    }
    lemma_grids_equal(first.blocks, second.blocks);
}

/// Two grids that hold the same block kind at every position are equal.
pub proof fn lemma_grids_equal(a: [[[i8; 16]; 16]; 16], b: [[[i8; 16]; 16]; 16])
    requires
        forall|x: int, y: int, z: int|
            in_grid(x, y, z) ==> #[trigger] grid_cell(a, x, y, z) == grid_cell(b, x, y, z),
    ensures
        a == b,
{
    assert forall|x: int| 0 <= x < 16 implies a[x] == b[x] by {
        assert forall|y: int| 0 <= y < 16 implies a[x][y] == b[x][y] by {
            assert forall|z: int| 0 <= z < 16 implies a[x][y][z] == b[x][y][z] by {
                assert(in_grid(x, y, z));
                assert(grid_cell(a, x, y, z) == grid_cell(b, x, y, z));
            }
            assert(a[x][y] =~= b[x][y]);
        }
        assert(a[x] =~= b[x]);
    }
    assert(a =~= b);
}

} // verus!
