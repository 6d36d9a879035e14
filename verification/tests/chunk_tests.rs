use squareblocks::chunk::{chunk_coords, world_origin, Chunk, AIR, CHUNKSIZE, SOLID};
use std::cell::Cell;

fn count_solid(chunk: &Chunk) -> usize {
    let mut n: usize = 0;
    for x in 0..16usize {
        for y in 0..16usize {
            for z in 0..16usize {
                if chunk.blocks[x][y][z] == 1 {
                    n += 1;
                }
            }
        }
    }
    n
}

#[test]
fn constants_have_their_values() {
    assert_eq!(CHUNKSIZE, 16);
    assert_eq!(AIR, 0);
    assert_eq!(SOLID, 1);
}

#[test]
fn chunk_coords_last_block_of_chunk_zero() {
    assert_eq!(chunk_coords(15, 0, 0), (0, 0, 0));
}

#[test]
fn chunk_coords_first_block_of_chunk_one() {
    assert_eq!(chunk_coords(16, 0, 0), (1, 0, 0));
}

#[test]
fn chunk_coords_minus_one_is_chunk_zero() {
    assert_eq!(chunk_coords(-1, 0, 0), (0, 0, 0));
}

#[test]
fn chunk_coords_rounds_toward_zero_on_every_axis() {
    assert_eq!(chunk_coords(-15, -16, -17), (0, -1, -1));
    assert_eq!(chunk_coords(31, 32, 33), (1, 2, 2));
    assert_eq!(chunk_coords(-31, -32, -33), (-1, -2, -2));
    assert_eq!(chunk_coords(0, 0, 0), (0, 0, 0));
}

#[test]
fn chunk_coords_at_the_ends_of_the_range() {
    assert_eq!(chunk_coords(i16::MAX, i16::MIN, 0), (2047, -2048, 0));
    assert_eq!(chunk_coords(0, i16::MAX, i16::MIN), (0, 2047, -2048));
}

#[test]
fn chunk_coords_agrees_with_truncating_division() {
    let mut a: i16 = -200;
    while a <= 200 {
        let c = chunk_coords(a, a, a);
        assert_eq!(c, (a / 16, a / 16, a / 16));
        a += 1;
    }
}

#[test]
fn world_origin_is_sixteen_times_the_chunk_position() {
    assert_eq!(world_origin(0, 0, 0), (0, 0, 0));
    assert_eq!(world_origin(1, -1, 2), (16, -16, 32));
    assert_eq!(world_origin(i16::MAX, i16::MIN, 2048), (524272, -524288, 32768));
}

#[test]
fn generate_without_solid_voxels_is_empty() {
    let chunk = Chunk::generate(|_x: i32, _y: i32, _z: i32| false, 3, -4, 5);
    assert!(chunk.is_empty);
    assert_eq!(chunk.cxyz, (3, -4, 5));
    assert_eq!(count_solid(&chunk), 0);
    assert_eq!(chunk.blocks, [[[0i8; 16]; 16]; 16]);
}

#[test]
fn generate_all_solid_is_not_empty() {
    let chunk = Chunk::generate(|_x: i32, _y: i32, _z: i32| true, 0, 0, 0);
    assert!(!chunk.is_empty);
    assert_eq!(count_solid(&chunk), 4096);
    assert_eq!(chunk.blocks, [[[1i8; 16]; 16]; 16]);
}

#[test]
fn generate_sets_exactly_the_voxels_the_density_names() {
    let chunk = Chunk::generate(|x: i32, y: i32, z: i32| x == 1 && y == 2 && z == 3, 0, 0, 0);
    assert!(!chunk.is_empty);
    assert_eq!(count_solid(&chunk), 1);
    assert_eq!(chunk.blocks[1][2][3], 1);
    assert_eq!(chunk.get_block(1, 2, 3), 1);
    assert_eq!(chunk.get_block(3, 2, 1), 0);
}

#[test]
fn generate_asks_the_density_at_world_positions() {
    let chunk = Chunk::generate(|x: i32, y: i32, z: i32| x == 33 && y == -14 && z == 51, 2, -1, 3);
    assert!(!chunk.is_empty);
    assert_eq!(chunk.cxyz, (2, -1, 3));
    assert_eq!(count_solid(&chunk), 1);
    assert_eq!(chunk.get_block(1, 2, 3), 1);
}

#[test]
fn generate_last_voxel_alone_clears_the_flag() {
    let chunk = Chunk::generate(|x: i32, y: i32, z: i32| x == 15 && y == 15 && z == 15, 0, 0, 0);
    assert!(!chunk.is_empty);
    assert_eq!(count_solid(&chunk), 1);
    assert_eq!(chunk.get_block(15, 15, 15), 1);
}

#[test]
fn generate_stays_inside_the_chunk() {
    let low = Chunk::generate(|x: i32, _y: i32, _z: i32| x < 0 || x >= 16, 0, 0, 0);
    assert!(low.is_empty);
    let next = Chunk::generate(|x: i32, _y: i32, _z: i32| x < 0 || x >= 16, 1, 0, 0);
    assert_eq!(count_solid(&next), 4096);
}

#[test]
fn generate_asks_once_for_each_voxel() {
    let calls: Cell<u32> = Cell::new(0);
    let sum: Cell<i64> = Cell::new(0);
    let chunk = Chunk::generate(
        |x: i32, y: i32, z: i32| {
            calls.set(calls.get() + 1);
            sum.set(sum.get() + i64::from(x) + 100 * i64::from(y) + 10000 * i64::from(z));
            false
        },
        0,
        0,
        0,
    );
    assert!(chunk.is_empty);
    assert_eq!(calls.get(), 4096);
    assert_eq!(sum.get(), 120 * 256 * (1 + 100 + 10000));
}

#[test]
fn generate_at_the_ends_of_the_chunk_range() {
    let chunk = Chunk::generate(
        |x: i32, y: i32, z: i32| x == 16 * 32767 && y == -16 * 32768 + 15 && z == 7,
        i16::MAX,
        i16::MIN,
        0,
    );
    assert_eq!(count_solid(&chunk), 1);
    assert_eq!(chunk.get_block(0, 15, 7), 1);
}

#[test]
fn generate_twice_gives_the_same_chunk() {
    let density = |x: i32, y: i32, z: i32| (x * 7 + y * 13 + z * 29).rem_euclid(5) < 2;
    let first = Chunk::generate(density, 4, 1, -2);
    let second = Chunk::generate(density, 4, 1, -2);
    assert_eq!(first.blocks, second.blocks);
    assert_eq!(first.is_empty, second.is_empty);
    assert_eq!(first.cxyz, second.cxyz);
}

#[test]
fn is_empty_means_no_solid_voxel() {
    let mut k: i32 = 0;
    while k < 6 {
        let chunk = Chunk::generate(|x: i32, y: i32, z: i32| k > 2 && x + y + z == 40 + k, 0, 0, 0);
        assert_eq!(chunk.is_empty, count_solid(&chunk) == 0);
        k += 1;
    }
}

#[test]
fn get_block_outside_the_grid_is_air() {
    let chunk = Chunk::generate(|_x: i32, _y: i32, _z: i32| true, 0, 0, 0);
    assert_eq!(chunk.get_block(-1, 0, 0), 0);
    assert_eq!(chunk.get_block(0, -1, 0), 0);
    assert_eq!(chunk.get_block(0, 0, -1), 0);
    assert_eq!(chunk.get_block(16, 0, 0), 0);
    assert_eq!(chunk.get_block(0, 16, 0), 0);
    assert_eq!(chunk.get_block(0, 0, 16), 0);
    assert_eq!(chunk.get_block(i8::MIN, 5, 5), 0);
    assert_eq!(chunk.get_block(5, i8::MAX, 5), 0);
    assert_eq!(chunk.get_block(i8::MAX, i8::MAX, i8::MIN), 0);
}

#[test]
fn get_block_outside_is_air_for_every_coordinate() {
    let chunk = Chunk::generate(|_x: i32, _y: i32, _z: i32| true, 0, 0, 0);
    let mut a: i8 = i8::MIN;
    loop {
        let inside = (0..16).contains(&a);
        assert_eq!(chunk.get_block(a, 3, 3), if inside { 1 } else { 0 });
        assert_eq!(chunk.get_block(3, a, 3), if inside { 1 } else { 0 });
        assert_eq!(chunk.get_block(3, 3, a), if inside { 1 } else { 0 });
        if a == i8::MAX {
            break;
        }
        a += 1;
    }
}

#[test]
fn get_block_inside_reads_the_grid() {
    let mut blocks = [[[0i8; 16]; 16]; 16];
    blocks[0][0][0] = 1;
    blocks[15][0][7] = 1;
    blocks[4][5][6] = 3;
    let chunk = Chunk { is_empty: false, cxyz: (0, 0, 0), blocks };
    assert_eq!(chunk.get_block(0, 0, 0), 1);
    assert_eq!(chunk.get_block(15, 0, 7), 1);
    assert_eq!(chunk.get_block(7, 0, 15), 0);
    assert_eq!(chunk.get_block(4, 5, 6), 3);
    assert_eq!(chunk.get_block(15, 15, 15), 0);
}
