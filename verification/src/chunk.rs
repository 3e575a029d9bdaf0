//! Chunks: cubes of `S` x `S` x `S` blocks, stored densely and addressed by
//! local coordinates in `[0, S)` on each axis.

use vstd::prelude::*;
use crate::block::Block;
use crate::vector::IVec3;

verus! {

/// The largest chunk edge this library supports. A chunk of this size has at
/// most 24 vertices for each of its blocks, a total that still fits the
/// 32-bit index type of a mesh buffer.
pub const MAX_CHUNK_SIZE: usize = 563;

/// A cube of `S` x `S` x `S` blocks and its place on the chunk grid. The
/// block at local `(0, 0, 0)` has the global coordinate `position * S`.
pub struct Chunk<const S: usize> {
    position: IVec3,
    blocks: Vec<Vec<Vec<Block>>>,
}

impl<const S: usize> View for Chunk<S> {
    type V = Map<(int, int, int), Block>;

    /// The blocks of the chunk by local coordinate.
    closed spec fn view(&self) -> Map<(int, int, int), Block> {
        Map::new(
            |p: (int, int, int)| Self::in_bounds(p.0, p.1, p.2),
            |p: (int, int, int)| self.blocks@[p.0]@[p.1]@[p.2],
        )
    }
}

impl<const S: usize> Chunk<S> {
    /// Whether a chunk edge of `S` blocks is supported: positive and at most
    /// [`MAX_CHUNK_SIZE`].
    pub open spec fn size_supported() -> bool {
        0 < S <= MAX_CHUNK_SIZE
    }

    pub fn size_is_supported() -> (supported: bool)
        ensures
            supported == Self::size_supported(),
    {
        0 < S && S <= MAX_CHUNK_SIZE
    }

    /// Whether `(x, y, z)` is a local coordinate of a block of the chunk.
    pub open spec fn in_bounds(x: int, y: int, z: int) -> bool {
        &&& 0 <= x < S
        &&& 0 <= y < S
        &&& 0 <= z < S
    }

    pub closed spec fn spec_position(&self) -> IVec3 {
        self.position
    }

    /// The storage has the shape of the cube and the size is supported.
    pub closed spec fn wf(&self) -> bool {
        &&& Self::size_supported()
        &&& self.blocks@.len() == S
        &&& forall|x: int| 0 <= x < S ==> (#[trigger] self.blocks@[x])@.len() == S
        &&& forall|x: int, y: int|
            0 <= x < S && 0 <= y < S ==> (#[trigger] self.blocks@[x]@[y])@.len() == S
    }

    /// The block at a local coordinate; absent outside the chunk.
    pub open spec fn block_at(&self, x: int, y: int, z: int) -> Option<Block> {
        if Self::in_bounds(x, y, z) {
            Some(self@[(x, y, z)])
        } else {
            None
        }
    }

    /// A well-formed chunk holds a block at exactly the coordinates within
    /// its bounds.
    pub proof fn lemma_domain(&self)
        requires
            self.wf(),
        ensures
            Self::size_supported(),
            forall|x: int, y: int, z: int|
                #[trigger] self@.contains_key((x, y, z)) <==> Self::in_bounds(x, y, z),
    {
    }

    /// Reading a coordinate after a block was written there gives that block
    /// back; every other coordinate reads as it did before the write.
    pub proof fn lemma_set_then_get(&self, after: &Chunk<S>, position: IVec3, block: Block)
        requires
            Self::in_bounds(position.x as int, position.y as int, position.z as int),
            after@ == self@.insert((position.x as int, position.y as int, position.z as int), block),
        ensures
            after.block_at(position.x as int, position.y as int, position.z as int) == Some(block),
            forall|x: int, y: int, z: int|
                (x, y, z) != (position.x as int, position.y as int, position.z as int)
                    ==> #[trigger] after.block_at(x, y, z) == self.block_at(x, y, z),
    {
    }

    /// The chunk at grid coordinate `position` with every cell set to
    /// `fill_block`.
    pub fn create_filled(position: IVec3, fill_block: Block) -> (chunk: Chunk<S>)
        requires
            Self::size_supported(),
        ensures
            chunk.wf(),
            chunk.spec_position() == position,
            forall|x: int, y: int, z: int|
                Self::in_bounds(x, y, z) ==> #[trigger] chunk.block_at(x, y, z) == Some(fill_block),
    {
        let mut blocks: Vec<Vec<Vec<Block>>> = Vec::new();
        let mut x: usize = 0;
        while x < S
            invariant
                x <= S,
                blocks@.len() == x,
                forall|i: int| 0 <= i < x ==> (#[trigger] blocks@[i])@.len() == S,
                forall|i: int, j: int|
                    0 <= i < x && 0 <= j < S ==> (#[trigger] blocks@[i]@[j])@.len() == S,
                forall|i: int, j: int, k: int|
                    0 <= i < x && 0 <= j < S && 0 <= k < S
                        ==> #[trigger] blocks@[i]@[j]@[k] == fill_block,
            decreases S - x,
        {
            let mut plane: Vec<Vec<Block>> = Vec::new();
            let mut y: usize = 0;
            while y < S
                invariant
                    y <= S,
                    plane@.len() == y,
                    forall|j: int| 0 <= j < y ==> (#[trigger] plane@[j])@.len() == S,
                    forall|j: int, k: int|
                        0 <= j < y && 0 <= k < S ==> #[trigger] plane@[j]@[k] == fill_block,
                decreases S - y,
            {
                let mut row: Vec<Block> = Vec::new();
                let mut z: usize = 0;
                while z < S
                    invariant
                        z <= S,
                        row@.len() == z,
                        forall|k: int| 0 <= k < z ==> #[trigger] row@[k] == fill_block,
                    decreases S - z,
                {
                    row.push(fill_block);
                    z += 1;
                }
                plane.push(row);
                y += 1;
            }
            blocks.push(plane);
            x += 1;
        }
        Chunk { position, blocks }
    }

    /// The chunk's coordinate on the chunk grid.
    pub fn position(&self) -> (position: IVec3)
        ensures
            position == self.spec_position(),
    {
        self.position
    }

    /// Whether `position` is the local coordinate of a block: each component
    /// lies in `[0, S)`.
    pub fn is_position_valid(position: IVec3) -> (valid: bool)
        ensures
            valid == Self::in_bounds(position.x as int, position.y as int, position.z as int),
    {
        position.x >= 0 && (position.x as usize) < S
            && position.y >= 0 && (position.y as usize) < S
            && position.z >= 0 && (position.z as usize) < S
    }

    /// The block at `position`, absent where `position` lies outside the
    /// chunk.
    pub fn get_block(&self, position: IVec3) -> (block: Option<&Block>)
        requires
            self.wf(),
        ensures
            match block {
                Some(found) => self.block_at(position.x as int, position.y as int, position.z as int)
                    == Some(*found),
                None => self.block_at(position.x as int, position.y as int, position.z as int)
                    is None,
            },
            block is Some <==> Self::in_bounds(position.x as int, position.y as int, position.z as int),
    {
        if Self::is_position_valid(position) {
            Some(&self.blocks[position.x as usize][position.y as usize][position.z as usize])
        } else {
            None
        }
    }

    /// Overwrites the block at `position`. Outside the chunk nothing is
    /// written and the result is `false`.
    pub fn set_block(&mut self, position: IVec3, block: Block) -> (written: bool)
        requires
            old(self).wf(),
        ensures
            final(self).wf(),
            final(self).spec_position() == old(self).spec_position(),
            written == Self::in_bounds(position.x as int, position.y as int, position.z as int),
            written ==> final(self)@ == old(self)@.insert(
                (position.x as int, position.y as int, position.z as int),
                block,
            ),
            !written ==> *final(self) == *old(self),
            forall|x: int, y: int, z: int| #[trigger]
                final(self).block_at(x, y, z) == if written && x == position.x && y == position.y && z
                    == position.z {
                    Some(block)
                } else {
                    old(self).block_at(x, y, z)
                },
    {
        if Self::is_position_valid(position) {
            self.blocks[position.x as usize][position.y as usize][position.z as usize] = block;
            assert(self@ =~= old(self)@.insert(
                (position.x as int, position.y as int, position.z as int),
                block,
            ));
            true
        } else {
            false
        }
    }
}

} // verus!
