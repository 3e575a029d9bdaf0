//! Face visibility: a face of a block is drawn exactly when the block beyond
//! it is absent or transparent. Neighbours inside the chunk are read from the
//! chunk, neighbours beyond its boundary from the world index.

use vstd::prelude::*;
use crate::block::{Block, Face};
use crate::chunk::Chunk;
use crate::vector::IVec3;
use crate::world::World;

verus! {

/// The block next to `position` on the side of `face`. `position` is local to
/// `chunk`; a neighbour outside the chunk is looked up in `world` under its
/// global coordinate, `chunk position * S + local coordinate`.
pub open spec fn spec_neighbour_block<const S: usize>(
    chunk: &Chunk<S>,
    world: &World<S>,
    position: IVec3,
    face: Face,
) -> Option<Block> {
    let direction = face.spec_as_ivec3();
    let nx = position.x + direction.x;
    let ny = position.y + direction.y;
    let nz = position.z + direction.z;
    if Chunk::<S>::in_bounds(nx, ny, nz) {
        chunk.block_at(nx, ny, nz)
    } else {
        let origin = chunk.spec_position();
        world.block_at(origin.x * S + nx, origin.y * S + ny, origin.z * S + nz)
    }
}

/// A face is visible when its neighbour is absent or transparent. Missing
/// chunks and missing blocks count as open space, never as solid.
pub open spec fn face_visible<const S: usize>(
    chunk: &Chunk<S>,
    world: &World<S>,
    position: IVec3,
    face: Face,
) -> bool {
    match spec_neighbour_block(chunk, world, position, face) {
        Some(neighbour) => neighbour.transparent,
        None => true,
    }
}

/// Whether the bit of `face` is set in `mask`.
pub open spec fn mask_has(mask: u8, face: Face) -> bool {
    mask & face.spec_bit() != 0
}

/// The visibility mask restricted to the first `n` faces of the canonical
/// order.
pub open spec fn visibility_mask_upto<const S: usize>(
    chunk: &Chunk<S>,
    world: &World<S>,
    position: IVec3,
    n: nat,
) -> u8
    decreases n,
{
    if n == 0 || n > 6 {
        0
    } else {
        let rest = visibility_mask_upto(chunk, world, position, (n - 1) as nat);
        let face = Face::spec_all()[n - 1];
        if face_visible(chunk, world, position, face) {
            rest | face.spec_bit()
        } else {
            rest
        }
    }
}

/// The 6-bit visibility mask of the block at `position`: the bit of a face is
/// set exactly when that face is visible.
pub open spec fn visibility_mask<const S: usize>(
    chunk: &Chunk<S>,
    world: &World<S>,
    position: IVec3,
) -> u8 {
    visibility_mask_upto(chunk, world, position, 6)
}

/// A mask assembled face by face holds the bit of a face exactly when that
/// face was added, and no bit beyond the sixth.
proof fn lemma_assembled_mask(b: Seq<bool>, m: Seq<u8>)
    requires
        b.len() == 6,
        m.len() == 7,
        m[0] == 0,
        m[1] == (if b[0] { m[0] | 1 } else { m[0] }),
        m[2] == (if b[1] { m[1] | 2 } else { m[1] }),
        m[3] == (if b[2] { m[2] | 4 } else { m[2] }),
        m[4] == (if b[3] { m[3] | 8 } else { m[3] }),
        m[5] == (if b[4] { m[4] | 16 } else { m[4] }),
        m[6] == (if b[5] { m[5] | 32 } else { m[5] }),
    ensures
        m[6] < 64,
        (m[6] & 1 != 0) == b[0],
        (m[6] & 2 != 0) == b[1],
        (m[6] & 4 != 0) == b[2],
        (m[6] & 8 != 0) == b[3],
        (m[6] & 16 != 0) == b[4],
        (m[6] & 32 != 0) == b[5],
{
    let (b0, b1, b2, b3, b4, b5) = (b[0], b[1], b[2], b[3], b[4], b[5]);
    let (m0, m1, m2, m3, m4, m5, m6) = (m[0], m[1], m[2], m[3], m[4], m[5], m[6]);
    assert(m6 < 64 && (m6 & 1 != 0) == b0 && (m6 & 2 != 0) == b1 && (m6 & 4 != 0) == b2 && (m6 & 8
        != 0) == b3 && (m6 & 16 != 0) == b4 && (m6 & 32 != 0) == b5) by (bit_vector)
        requires
            m0 == 0,
            m1 == (if b0 { m0 | 1 } else { m0 }),
            m2 == (if b1 { m1 | 2 } else { m1 }),
            m3 == (if b2 { m2 | 4 } else { m2 }),
            m4 == (if b3 { m3 | 8 } else { m3 }),
            m5 == (if b4 { m4 | 16 } else { m4 }),
            m6 == (if b5 { m5 | 32 } else { m5 }),
    ;
}

/// The bit of a face is set in the visibility mask exactly when the face is
/// visible, and the mask has no bit beyond the six of the faces.
pub proof fn lemma_visibility_mask_bits<const S: usize>(
    chunk: &Chunk<S>,
    world: &World<S>,
    position: IVec3,
)
    ensures
        visibility_mask(chunk, world, position) < 64,
        forall|face: Face| #[trigger]
            mask_has(visibility_mask(chunk, world, position), face) == face_visible(
                chunk,
                world,
                position,
                face,
            ),
{
    reveal_with_fuel(visibility_mask_upto, 7);
    let b = Seq::new(6, |k: int| face_visible(chunk, world, position, Face::spec_all()[k]));
    let m = Seq::new(7, |n: int| visibility_mask_upto(chunk, world, position, n as nat));
    lemma_assembled_mask(b, m);
    assert forall|face: Face| #[trigger]
        mask_has(visibility_mask(chunk, world, position), face) == face_visible(
            chunk,
            world,
            position,
            face,
        ) by {
        match face {
            Face::Front => assert(b[0] == face_visible(chunk, world, position, face)),
            Face::Back => assert(b[1] == face_visible(chunk, world, position, face)),
            Face::Left => assert(b[2] == face_visible(chunk, world, position, face)),
            Face::Right => assert(b[3] == face_visible(chunk, world, position, face)),
            Face::Bottom => assert(b[4] == face_visible(chunk, world, position, face)),
            Face::Top => assert(b[5] == face_visible(chunk, world, position, face)),
        }
    }
}

/// The faces that are visible, in canonical order.
pub open spec fn visible_faces<const S: usize>(
    chunk: &Chunk<S>,
    world: &World<S>,
    position: IVec3,
) -> Seq<Face> {
    Face::spec_all().filter(|face: Face| face_visible(chunk, world, position, face))
}

/// Whether the bit of `face` is set in `mask`.
pub fn mask_contains(mask: u8, face: Face) -> (set: bool)
    ensures
        set == mask_has(mask, face),
{
    mask & face.bit() != 0
}

/// Looks up the block next to `position` on the side of `face`: in `chunk`
/// where the neighbour lies within it, else in `world`.
pub fn neighbour_block<const S: usize>(
    position: IVec3,
    face: Face,
    chunk: &Chunk<S>,
    world: &World<S>,
) -> (block: Option<Block>)
    requires
        chunk.wf(),
        world.wf(),
    ensures
        block == spec_neighbour_block(chunk, world, position, face),
{
    proof {
        chunk.lemma_domain();
    }
    let direction = face.as_ivec3();
    let size: i64 = S as i64;
    let nx: i64 = position.x as i64 + direction.x as i64;
    let ny: i64 = position.y as i64 + direction.y as i64;
    let nz: i64 = position.z as i64 + direction.z as i64;
    if 0 <= nx && nx < size && 0 <= ny && ny < size && 0 <= nz && nz < size {
        match chunk.get_block(IVec3::new(nx as i32, ny as i32, nz as i32)) {
            Some(found) => Some(*found),
            None => None,
        }
    } else {
        let origin = chunk.position();
        assert(-0x1_0000_0000_0000 < origin.x * size < 0x1_0000_0000_0000
            && -0x1_0000_0000_0000 < origin.y * size < 0x1_0000_0000_0000
            && -0x1_0000_0000_0000 < origin.z * size < 0x1_0000_0000_0000) by (nonlinear_arith)
            requires
                0 < size <= 563,
                -0x8000_0000 <= origin.x < 0x8000_0000,
                -0x8000_0000 <= origin.y < 0x8000_0000,
                -0x8000_0000 <= origin.z < 0x8000_0000,
        ;
        world.get_block_at(
            origin.x as i64 * size + nx,
            origin.y as i64 * size + ny,
            origin.z as i64 * size + nz,
        )
    }
}

/// Whether the face `face` of the block at `position` is visible.
pub fn is_face_visible<const S: usize>(
    position: IVec3,
    face: Face,
    chunk: &Chunk<S>,
    world: &World<S>,
) -> (visible: bool)
    requires
        chunk.wf(),
        world.wf(),
    ensures
        visible == face_visible(chunk, world, position, face),
{
    match neighbour_block(position, face, chunk, world) {
        Some(neighbour) => neighbour.transparent,
        None => true,
    }
}

/// The visibility mask of the block at `position`: one bit for each face, in
/// canonical order, set where the face is visible.
pub fn visible_face_mask<const S: usize>(position: IVec3, chunk: &Chunk<S>, world: &World<S>) -> (mask: u8)
    requires
        chunk.wf(),
        world.wf(),
    ensures
        mask == visibility_mask(chunk, world, position),
        mask < 64,
        forall|face: Face| #[trigger] mask_has(mask, face) == face_visible(chunk, world, position, face),
{
    let faces = Face::all();
    let mut mask: u8 = 0;
    let mut i: usize = 0;
    while i < 6
        invariant
            i <= 6,
            chunk.wf(),
            world.wf(),
            faces@ == Face::spec_all(),
            mask == visibility_mask_upto(chunk, world, position, i as nat),
        decreases 6 - i,
    {
        let face = faces[i];
        if is_face_visible(position, face, chunk, world) {
            mask = mask | face.bit();
        }
        i += 1;
    }
    proof {
        lemma_visibility_mask_bits(chunk, world, position);
    }
    mask
}

/// The visible faces of the block at `position`, in canonical order.
pub fn get_visible_block_faces<const S: usize>(
    position: IVec3,
    chunk: &Chunk<S>,
    world: &World<S>,
) -> (visible: Vec<Face>)
    requires
        chunk.wf(),
        world.wf(),
    ensures
        visible@ == visible_faces(chunk, world, position),
        forall|face: Face| visible@.contains(face) == face_visible(chunk, world, position, face),
{
    let ghost pred = |face: Face| face_visible(chunk, world, position, face);
    let faces = Face::all();
    let mut visible: Vec<Face> = Vec::new();
    let mut i: usize = 0;
    while i < 6
        invariant
            i <= 6,
            chunk.wf(),
            world.wf(),
            faces@ == Face::spec_all(),
            pred == (|face: Face| face_visible(chunk, world, position, face)),
            visible@ == faces@.take(i as int).filter(pred),
        decreases 6 - i,
    {
        let face = faces[i];
        proof {
            reveal(Seq::filter);
            assert(faces@.take(i as int + 1).drop_last() =~= faces@.take(i as int));
        }
        if is_face_visible(position, face, chunk, world) {
            visible.push(face);
        }
        i += 1;
    }
    proof {
        assert(faces@.take(6) =~= faces@);
        assert forall|face: Face| visible@.contains(face) == face_visible(chunk, world, position, face) by {
            if face_visible(chunk, world, position, face) {
                let k: int = match face {
                    Face::Front => 0,
                    Face::Back => 1,
                    Face::Left => 2,
                    Face::Right => 3,
                    Face::Bottom => 4,
                    Face::Top => 5,
                };
                assert(faces@[k] == face);
                assert(faces@.contains(face));
                assert(pred(face));
            }
        }
    }
    visible
}

} // verus!
