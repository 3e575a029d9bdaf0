use bevy::color::Color;
use rand::rngs::StdRng;
use rand::{Rng, SeedableRng};
use voxel_mesher::meshing::build_chunk_mesh;
use voxel_mesher::terrain::spawn_chunk;
use voxel_mesher::{Block, Chunk, IVec3, World};

#[test]
fn columns_are_solid_up_to_their_height() {
    let heights = [[0, 1, 2], [-1, 5, 3], [1, 1, 0]];
    let mut rng = StdRng::seed_from_u64(420);
    let chunk: Chunk<3> = spawn_chunk(IVec3::new(4, 0, -2), &heights, &mut rng);
    assert_eq!(chunk.position(), IVec3::new(4, 0, -2));
    for x in 0..3 {
        for z in 0..3 {
            for y in 0..3 {
                let block = chunk.get_block(IVec3::new(x, y, z)).unwrap();
                if y <= heights[x as usize][z as usize] {
                    assert!(!block.transparent);
                    assert!(block.color.is_some());
                } else {
                    assert_eq!(*block, Block::air());
                }
            }
        }
    }
}

#[test]
fn heights_are_global() {
    let heights = [[9, 12], [7, 40]];
    let mut rng = StdRng::seed_from_u64(1);
    // The chunk at y = 5 spans the global heights 10 and 11.
    let chunk: Chunk<2> = spawn_chunk(IVec3::new(0, 5, 0), &heights, &mut rng);
    let solid = |x, y, z| !chunk.get_block(IVec3::new(x, y, z)).unwrap().transparent;
    assert!(!solid(0, 0, 0) && !solid(0, 1, 0));
    assert!(solid(0, 0, 1) && solid(0, 1, 1));
    assert!(!solid(1, 0, 0) && !solid(1, 1, 0));
    assert!(solid(1, 0, 1) && solid(1, 1, 1));

    let mut rng = StdRng::seed_from_u64(1);
    let below: Chunk<2> = spawn_chunk(IVec3::new(0, -3, 0), &[[-6, -5], [-7, i32::MIN]], &mut rng);
    let solid = |x, y, z| !below.get_block(IVec3::new(x, y, z)).unwrap().transparent;
    assert!(solid(0, 0, 0) && !solid(0, 1, 0));
    assert!(solid(0, 0, 1) && solid(0, 1, 1));
    assert!(!solid(1, 0, 0) && !solid(1, 1, 0));
    assert!(!solid(1, 0, 1) && !solid(1, 1, 1));
}

#[test]
fn extreme_chunk_heights_do_not_overflow() {
    let mut rng = StdRng::seed_from_u64(7);
    let top: Chunk<2> = spawn_chunk(IVec3::new(0, i32::MAX, 0), &[[i32::MAX; 2]; 2], &mut rng);
    assert!(top.get_block(IVec3::new(0, 0, 0)).unwrap().transparent);
    let bottom: Chunk<2> = spawn_chunk(IVec3::new(0, i32::MIN, 0), &[[i32::MIN; 2]; 2], &mut rng);
    assert!(!bottom.get_block(IVec3::new(1, 1, 1)).unwrap().transparent);
}

#[test]
fn colours_are_drawn_column_by_column_from_the_generator() {
    let heights = [[1, 0], [-1, 1]];
    let mut rng = StdRng::seed_from_u64(420);
    let chunk: Chunk<2> = spawn_chunk(IVec3::new(0, 0, 0), &heights, &mut rng);
    let mut reference = StdRng::seed_from_u64(420);
    for x in 0..2 {
        for z in 0..2 {
            for y in 0..2 {
                if y <= heights[x as usize][z as usize] {
                    let expected = Color::srgb(reference.random(), reference.random(), reference.random());
                    assert_eq!(
                        chunk.get_block(IVec3::new(x, y, z)),
                        Some(&Block::solid(expected))
                    );
                }
            }
        }
    }
    // Both generators have been advanced by the same number of draws.
    assert_eq!(rng.random::<u64>(), reference.random::<u64>());
}

#[test]
fn same_seed_gives_the_same_chunk() {
    let heights = [[3; 4]; 4];
    let first: Chunk<4> = spawn_chunk(IVec3::new(0, 0, 0), &heights, &mut StdRng::seed_from_u64(9));
    let second: Chunk<4> = spawn_chunk(IVec3::new(0, 0, 0), &heights, &mut StdRng::seed_from_u64(9));
    for x in 0..4 {
        for y in 0..4 {
            for z in 0..4 {
                let position = IVec3::new(x, y, z);
                assert_eq!(first.get_block(position), second.get_block(position));
            }
        }
    }
}

#[test]
fn flat_terrain_meshes_to_a_slab() {
    // Two solid layers in a 4 x 4 x 4 chunk: 16 quads on top and below,
    // 8 on each side.
    let heights = [[1; 4]; 4];
    let chunk: Chunk<4> = spawn_chunk(IVec3::new(0, 0, 0), &heights, &mut StdRng::seed_from_u64(3));
    let world = World::<4>::new();
    let mesh = build_chunk_mesh(&chunk, &world, Color::WHITE);
    assert_eq!(mesh.vertices().len(), 4 * (16 + 16 + 4 * 8));
    assert_eq!(mesh.indices().len(), 6 * (16 + 16 + 4 * 8));
}
