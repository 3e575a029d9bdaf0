//! Terrain fill: turns a height for each column of a chunk into solid ground
//! below open air.

use vstd::prelude::*;
use rand::rngs::StdRng;
use crate::block::Block;
use crate::chunk::Chunk;
use crate::color::random_color;
use crate::vector::IVec3;

verus! {

/// Whether the cell at local height `y` of a chunk at `chunk_position` is
/// ground in a column whose terrain reaches up to the global height `height`:
/// the cell's global height is `chunk_position.y * S + y`.
pub open spec fn is_ground<const S: usize>(chunk_position: IVec3, height: i32, y: int) -> bool {
    chunk_position.y * S + y <= height
}

/// Whether `cell` holds what terrain generation puts there: an opaque,
/// coloured block where the cell is ground, air elsewhere.
pub open spec fn is_terrain_block(ground: bool, cell: Option<Block>) -> bool {
    match cell {
        Some(block) => if ground {
            !block.transparent && block.color is Some
        } else {
            block == (Block { transparent: true, color: None })
        },
        None => false,
    }
}

/// Generates the chunk at `chunk_position`. `heights[x][z]` is the global
/// height of the terrain in the column at local `(x, z)`; every cell at or
/// below it becomes an opaque block with a colour drawn from `rng`, every
/// cell above it is air.
pub fn spawn_chunk<const S: usize>(
    chunk_position: IVec3,
    heights: &[[i32; S]; S],
    rng: &mut StdRng,
) -> (chunk: Chunk<S>)
    requires
        Chunk::<S>::size_supported(),
    ensures
        chunk.wf(),
        chunk.spec_position() == chunk_position,
        forall|x: int, y: int, z: int|
            Chunk::<S>::in_bounds(x, y, z) ==> is_terrain_block(
                is_ground::<S>(chunk_position, heights@[x]@[z], y),
                #[trigger] chunk.block_at(x, y, z),
            ),
{
    let mut chunk = Chunk::<S>::create_filled(chunk_position, Block::air());
    let size: i64 = S as i64;
    assert(-0x1_0000_0000_0000 < chunk_position.y * size < 0x1_0000_0000_0000) by (nonlinear_arith)
        requires
            0 < size <= 563,
            -0x8000_0000 <= chunk_position.y < 0x8000_0000,
    ;
    let base: i64 = chunk_position.y as i64 * size;
    let mut x: usize = 0;
    while x < S
        invariant
            Chunk::<S>::size_supported(),
            size == S,
            base == chunk_position.y * S,
            -0x1_0000_0000_0000 < base < 0x1_0000_0000_0000,
            x <= S,
            chunk.wf(),
            chunk.spec_position() == chunk_position,
            forall|i: int, j: int, k: int|
                Chunk::<S>::in_bounds(i, j, k) ==> is_terrain_block(
                    i < x && is_ground::<S>(chunk_position, heights@[i]@[k], j),
                    #[trigger] chunk.block_at(i, j, k),
                ),
        decreases S - x,
    {
        let mut z: usize = 0;
        while z < S
            invariant
                Chunk::<S>::size_supported(),
                size == S,
                base == chunk_position.y * S,
                -0x1_0000_0000_0000 < base < 0x1_0000_0000_0000,
            -0x1_0000_0000_0000 < base < 0x1_0000_0000_0000,
                x < S,
                z <= S,
                chunk.wf(),
                chunk.spec_position() == chunk_position,
                forall|i: int, j: int, k: int|
                    Chunk::<S>::in_bounds(i, j, k) ==> is_terrain_block(
                        (i < x || (i == x && k < z)) && is_ground::<S>(
                            chunk_position,
                            heights@[i]@[k],
                            j,
                        ),
                        #[trigger] chunk.block_at(i, j, k),
                    ),
            decreases S - z,
        {
            let height: i64 = heights[x][z] as i64;
            let mut y: usize = 0;
            while y < S
                invariant
                    Chunk::<S>::size_supported(),
                    size == S,
                    base == chunk_position.y * S,
                    -0x1_0000_0000_0000 < base < 0x1_0000_0000_0000,
                -0x1_0000_0000_0000 < base < 0x1_0000_0000_0000,
            -0x1_0000_0000_0000 < base < 0x1_0000_0000_0000,
                    x < S,
                    z < S,
                    y <= S,
                    height == heights@[x as int]@[z as int],
                    chunk.wf(),
                    chunk.spec_position() == chunk_position,
                    forall|i: int, j: int, k: int|
                        Chunk::<S>::in_bounds(i, j, k) ==> is_terrain_block(
                            (i < x || (i == x && (k < z || (k == z && j < y)))) && is_ground::<S>(
                                chunk_position,
                                heights@[i]@[k],
                                j,
                            ),
                            #[trigger] chunk.block_at(i, j, k),
                        ),
                decreases S - y,
            {
                let ghost before = chunk;
                if base + y as i64 <= height {
                    let block = Block::solid(random_color(rng));
                    chunk.set_block(IVec3::new(x as i32, y as i32, z as i32), block);
                }
                assert forall|i: int, j: int, k: int| Chunk::<S>::in_bounds(i, j, k) implies is_terrain_block(
                    (i < x || (i == x && (k < z || (k == z && j < y + 1)))) && is_ground::<S>(
                        chunk_position,
                        heights@[i]@[k],
                        j,
                    ),
                    #[trigger] chunk.block_at(i, j, k),
                ) by {
                    assert(is_terrain_block(
                        (i < x || (i == x && (k < z || (k == z && j < y)))) && is_ground::<S>(
                            chunk_position,
                            heights@[i]@[k],
                            j,
                        ),
                        before.block_at(i, j, k),
                    ));
                    if (i, j, k) != (x as int, y as int, z as int) {
                        assert(chunk@[(i, j, k)] == before@[(i, j, k)]);
                    }
                }
                y += 1;
            }
            z += 1;
        }
        x += 1;
    }
    chunk
}

} // verus!
