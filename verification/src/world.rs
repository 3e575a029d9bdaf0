//! The world index: which chunk sits at which chunk-grid coordinate, and the
//! lookup of a block by its global coordinate.

use vstd::prelude::*;
use crate::block::Block;
use crate::chunk::Chunk;
use crate::vector::{
    euclid_mod, floor_div, lemma_split_characterised, split_coordinate, IVec3,
};

verus! {

/// The hash map from chunk-grid coordinate to the slot that holds the chunk:
/// a `bevy::utils::HashMap`, which is hashbrown's map, keyed by
/// `bevy::math::IVec3`. The map's type has an allocator parameter whose trait
/// hashbrown keeps private, so the type cannot be made known to the verifier
/// by itself; the struct around it is opaque instead, and what it holds is
/// spoken of through [`index_entries`].
#[verifier::external_body]
pub struct ChunkIndex {
    slots: bevy::utils::HashMap<bevy::math::IVec3, usize>,
}

/// The entries of a [`ChunkIndex`]: the slot stored under each coordinate.
pub uninterp spec fn index_entries(index: ChunkIndex) -> Map<(i32, i32, i32), usize>;

impl ChunkIndex {
    /// Calls `HashMap::default`, which gives a map without entries.
    #[verifier::external_body]
    pub(crate) fn new() -> (index: ChunkIndex)
        ensures
            index_entries(index) == (Map::<(i32, i32, i32), usize>::empty()),
    {
        ChunkIndex { slots: bevy::utils::HashMap::default() }
    }

    /// Calls `HashMap::get` with the key `IVec3::new(x, y, z)`: the slot
    /// stored under that coordinate, if there is one. Two keys are the same
    /// entry exactly when their three components agree.
    #[verifier::external_body]
    pub(crate) fn get(&self, x: i32, y: i32, z: i32) -> (slot: Option<usize>)
        ensures
            slot == (if index_entries(*self).contains_key((x, y, z)) {
                Some(index_entries(*self)[(x, y, z)])
            } else {
                None
            }),
    {
        self.slots.get(&bevy::math::IVec3::new(x, y, z)).copied()
    }

    /// Calls `HashMap::insert` with the key `IVec3::new(x, y, z)`: `slot` is
    /// stored under that coordinate, in place of what was stored there
    /// before; all other entries stay as they were.
    #[verifier::external_body]
    pub(crate) fn insert(&mut self, x: i32, y: i32, z: i32, slot: usize)
        ensures
            index_entries(*final(self)) == index_entries(*old(self)).insert((x, y, z), slot),
    {
        self.slots.insert(bevy::math::IVec3::new(x, y, z), slot);
    }
}

/// The chunks of a world by chunk-grid coordinate, at most one for each
/// coordinate.
pub struct World<const S: usize> {
    index: ChunkIndex,
    chunks: Vec<Chunk<S>>,
}

impl<const S: usize> View for World<S> {
    type V = Map<IVec3, Chunk<S>>;

    /// The registered chunks by chunk-grid coordinate.
    closed spec fn view(&self) -> Map<IVec3, Chunk<S>> {
        Map::new(
            |c: IVec3| index_entries(self.index).contains_key((c.x, c.y, c.z)),
            |c: IVec3| self.chunks@[index_entries(self.index)[(c.x, c.y, c.z)] as int],
        )
    }
}

impl<const S: usize> World<S> {
    /// Every entry of the index leads to a well-formed chunk that lies at the
    /// coordinate it is registered under.
    pub closed spec fn wf(&self) -> bool {
        forall|k: (i32, i32, i32)| #[trigger]
            index_entries(self.index).contains_key(k) ==> {
                let slot = index_entries(self.index)[k];
                &&& slot < self.chunks@.len()
                &&& self.chunks@[slot as int].wf()
                &&& self.chunks@[slot as int].spec_position() == (IVec3 { x: k.0, y: k.1, z: k.2 })
            }
    }

    /// The chunk registered at the chunk-grid coordinate `(cx, cy, cz)`.
    pub open spec fn chunk_at(&self, cx: int, cy: int, cz: int) -> Option<Chunk<S>> {
        if i32::MIN <= cx <= i32::MAX && i32::MIN <= cy <= i32::MAX && i32::MIN <= cz <= i32::MAX
            && self@.contains_key(IVec3 { x: cx as i32, y: cy as i32, z: cz as i32 }) {
            Some(self@[IVec3 { x: cx as i32, y: cy as i32, z: cz as i32 }])
        } else {
            None
        }
    }

    /// The block at the global coordinate `(gx, gy, gz)`: the chunk is found
    /// by floor division by the chunk size, the block within it by the
    /// remainder. Absent where no chunk is registered.
    pub open spec fn block_at(&self, gx: int, gy: int, gz: int) -> Option<Block> {
        match self.chunk_at(floor_div(gx, S as int), floor_div(gy, S as int), floor_div(gz, S as int)) {
            Some(chunk) => chunk.block_at(
                euclid_mod(gx, S as int),
                euclid_mod(gy, S as int),
                euclid_mod(gz, S as int),
            ),
            None => None,
        }
    }

    /// In a well-formed world every registered chunk is well-formed and lies
    /// at the coordinate it is registered under.
    pub proof fn lemma_chunks(&self, coord: IVec3)
        requires
            self.wf(),
            self@.contains_key(coord),
        ensures
            self@[coord].wf(),
            self@[coord].spec_position() == coord,
            Chunk::<S>::size_supported(),
    {
        assert(index_entries(self.index).contains_key((coord.x, coord.y, coord.z)));
        self@[coord].lemma_domain();
    }

    /// The block at the local coordinate `(x, y, z)` of a registered chunk is
    /// the block the world holds at the global coordinate
    /// `coord * S + (x, y, z)`.
    pub proof fn lemma_block_of_chunk(&self, coord: IVec3, x: int, y: int, z: int)
        requires
            self.wf(),
            self@.contains_key(coord),
            Chunk::<S>::in_bounds(x, y, z),
        ensures
            self.block_at(coord.x * S + x, coord.y * S + y, coord.z * S + z) == self@[coord].block_at(
                x,
                y,
                z,
            ),
    {
        let size = S as int;
        lemma_split_characterised(coord.x * size + x, size, coord.x as int, x);
        lemma_split_characterised(coord.y * size + y, size, coord.y as int, y);
        lemma_split_characterised(coord.z * size + z, size, coord.z as int, z);
    }

    /// A world without chunks.
    pub fn new() -> (world: World<S>)
        ensures
            world.wf(),
            world@ == Map::<IVec3, Chunk<S>>::empty(),
    {
        let world = World { index: ChunkIndex::new(), chunks: Vec::new() };
        assert(world@ =~= Map::<IVec3, Chunk<S>>::empty());
        world
    }

    /// Registers `chunk` at its own chunk-grid coordinate, in place of a
    /// chunk registered there before.
    pub fn insert(&mut self, chunk: Chunk<S>)
        requires
            old(self).wf(),
            chunk.wf(),
        ensures
            final(self).wf(),
            final(self)@ == old(self)@.insert(chunk.spec_position(), chunk),
    {
        let coord = chunk.position();
        match self.index.get(coord.x, coord.y, coord.z) {
            Some(slot) => {
                assert(index_entries(self.index).contains_key((coord.x, coord.y, coord.z)));
                self.chunks[slot] = chunk;
                assert forall|k: (i32, i32, i32)| #[trigger]
                    index_entries(self.index).contains_key(k) implies {
                    let slot = index_entries(self.index)[k];
                    &&& slot < self.chunks@.len()
                    &&& self.chunks@[slot as int].wf()
                    &&& self.chunks@[slot as int].spec_position() == (IVec3 { x: k.0, y: k.1, z: k.2 })
                } by {
                    assert(index_entries(old(self).index).contains_key(k));
                }
                assert(self@ =~= old(self)@.insert(coord, chunk)) by {
                    assert forall|c: IVec3| #[trigger] self@.contains_key(c) implies self@[c]
                        == old(self)@.insert(coord, chunk)[c] by {
                        assert(index_entries(old(self).index).contains_key((c.x, c.y, c.z)));
                    }
                }
            },
            None => {
                let slot = self.chunks.len();
                self.index.insert(coord.x, coord.y, coord.z, slot);
                self.chunks.push(chunk);
                assert forall|k: (i32, i32, i32)| #[trigger]
                    index_entries(self.index).contains_key(k) implies {
                    let slot = index_entries(self.index)[k];
                    &&& slot < self.chunks@.len()
                    &&& self.chunks@[slot as int].wf()
                    &&& self.chunks@[slot as int].spec_position() == (IVec3 { x: k.0, y: k.1, z: k.2 })
                } by {
                    if k != (coord.x, coord.y, coord.z) {
                        assert(index_entries(old(self).index).contains_key(k));
                    }
                }
                assert(self@ =~= old(self)@.insert(coord, chunk)) by {
                    assert forall|c: IVec3| #[trigger] self@.contains_key(c) implies self@[c]
                        == old(self)@.insert(coord, chunk)[c] by {
                        if c != coord {
                            assert((c.x, c.y, c.z) != (coord.x, coord.y, coord.z));
                            assert(index_entries(old(self).index).contains_key((c.x, c.y, c.z)));
                        }
                    }
                }
            },
        }
    }

    /// The chunk registered at the chunk-grid coordinate `coord`.
    pub fn get_chunk(&self, coord: IVec3) -> (chunk: Option<&Chunk<S>>)
        requires
            self.wf(),
        ensures
            match chunk {
                Some(found) => self.chunk_at(coord.x as int, coord.y as int, coord.z as int)
                    == Some(*found) && found.wf() && found.spec_position() == coord,
                None => self.chunk_at(coord.x as int, coord.y as int, coord.z as int) is None,
            },
    {
        match self.index.get(coord.x, coord.y, coord.z) {
            Some(slot) => {
                assert(index_entries(self.index).contains_key((coord.x, coord.y, coord.z)));
                Some(&self.chunks[slot])
            },
            None => None,
        }
    }

    /// The block at a global coordinate given in 64-bit components. This
    /// reaches the blocks of every chunk the index can hold, also those whose
    /// global coordinates leave the 32-bit range.
    pub fn get_block_at(&self, gx: i64, gy: i64, gz: i64) -> (block: Option<Block>)
        requires
            self.wf(),
        ensures
            block == self.block_at(gx as int, gy as int, gz as int),
    {
        if !Chunk::<S>::size_is_supported() {
            // No chunk of an unsupported size exists, so nothing is registered.
            proof {
                let cx = floor_div(gx as int, S as int);
                let cy = floor_div(gy as int, S as int);
                let cz = floor_div(gz as int, S as int);
                if self.chunk_at(cx, cy, cz) is Some {
                    self.lemma_chunks(IVec3 { x: cx as i32, y: cy as i32, z: cz as i32 });
                }
            }
            return None;
        }
        let size = S as i64;
        let (cx, lx) = split_coordinate(gx, size);
        let (cy, ly) = split_coordinate(gy, size);
        let (cz, lz) = split_coordinate(gz, size);
        if cx < i32::MIN as i64 || cx > i32::MAX as i64 || cy < i32::MIN as i64 || cy > i32::MAX as i64
            || cz < i32::MIN as i64 || cz > i32::MAX as i64 {
            return None;
        }
        match self.get_chunk(IVec3::new(cx as i32, cy as i32, cz as i32)) {
            Some(chunk) => match chunk.get_block(IVec3::new(lx as i32, ly as i32, lz as i32)) {
                Some(found) => Some(*found),
                None => None,
            },
            None => None,
        }
    }

    /// The block at the global coordinate `global_pos`; absent where no chunk
    /// is registered for it.
    pub fn get_block(&self, global_pos: IVec3) -> (block: Option<Block>)
        requires
            self.wf(),
        ensures
            block == self.block_at(global_pos.x as int, global_pos.y as int, global_pos.z as int),
    {
        self.get_block_at(global_pos.x as i64, global_pos.y as i64, global_pos.z as i64)
    }
}

impl<const S: usize> Default for World<S> {
    fn default() -> (world: World<S>)
        ensures
            world.wf(),
            world@ == Map::<IVec3, Chunk<S>>::empty(),
    {
        World::new()
    }
}

} // verus!
