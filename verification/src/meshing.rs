//! Mesh assembly: the quad of one face, the faces of one block, and the mesh
//! of a whole chunk.

use vstd::prelude::*;
use bevy::color::Color;
use crate::block::Face;
use crate::chunk::{Chunk, MAX_CHUNK_SIZE};
use crate::color::white;
use crate::mesh::{lemma_merge_empty, lemma_merged_wf, MeshData, MeshView, Vertex};
use crate::vector::IVec3;
use crate::visibility::{
    face_visible, lemma_visibility_mask_bits, mask_contains, mask_has, spec_neighbour_block,
    visibility_mask, visible_face_mask,
};
use crate::world::World;

verus! {

/// The quad of one face of the block at `position`: the four corners of the
/// face around the block, four copies of the face's normal and of `color`,
/// and the face's two triangles, indexed from zero.
pub open spec fn face_mesh(position: IVec3, face: Face, color: Color) -> MeshView {
    MeshView {
        vertices: Seq::new(4, |i: int| Vertex { block: position, corner: face.spec_corners()[i] }),
        normals: Seq::new(4, |i: int| face.spec_as_ivec3()),
        colors: Seq::new(4, |i: int| color),
        indices: face.spec_winding(),
    }
}

/// The quads of the faces of `mask` among the first `n` faces of the
/// canonical order, merged in that order.
pub open spec fn block_mesh_upto(position: IVec3, color: Color, mask: u8, n: nat) -> MeshView
    decreases n,
{
    if n == 0 || n > 6 {
        MeshView::empty()
    } else {
        let rest = block_mesh_upto(position, color, mask, (n - 1) as nat);
        let face = Face::spec_all()[n - 1];
        if mask_has(mask, face) {
            rest.merged(face_mesh(position, face, color))
        } else {
            rest
        }
    }
}

/// The mesh of one block: the quads of the faces whose bit is set in `mask`.
pub open spec fn block_mesh(position: IVec3, color: Color, mask: u8) -> MeshView {
    block_mesh_upto(position, color, mask, 6)
}

/// How many of the first `n` faces of the canonical order have their bit set
/// in `mask`.
pub open spec fn face_count_upto(mask: u8, n: nat) -> nat
    decreases n,
{
    if n == 0 || n > 6 {
        0
    } else {
        face_count_upto(mask, (n - 1) as nat) + if mask_has(mask, Face::spec_all()[n - 1]) {
            1nat
        } else {
            0nat
        }
    }
}

/// The number of faces whose bit is set in `mask`.
pub open spec fn face_count(mask: u8) -> nat {
    face_count_upto(mask, 6)
}

/// The quad of a face is a well-formed buffer of 4 vertices and 6 indices.
proof fn lemma_face_mesh(position: IVec3, face: Face, color: Color)
    ensures
        face_mesh(position, face, color).wf(),
        face_mesh(position, face, color).vertices.len() == 4,
        face_mesh(position, face, color).indices.len() == 6,
{
}

/// The mesh of a block is well-formed and holds 4 vertices and 6 indices for
/// each face of the mask.
proof fn lemma_block_mesh_upto(position: IVec3, color: Color, mask: u8, n: nat)
    requires
        n <= 6,
    ensures
        block_mesh_upto(position, color, mask, n).wf(),
        block_mesh_upto(position, color, mask, n).vertices.len() == 4 * face_count_upto(mask, n),
        block_mesh_upto(position, color, mask, n).indices.len() == 6 * face_count_upto(mask, n),
        face_count_upto(mask, n) <= n,
    decreases n,
{
    if n > 0 {
        lemma_block_mesh_upto(position, color, mask, (n - 1) as nat);
        let rest = block_mesh_upto(position, color, mask, (n - 1) as nat);
        let face = Face::spec_all()[n - 1];
        lemma_face_mesh(position, face, color);
        lemma_merged_wf(rest, face_mesh(position, face, color));
    }
}

/// Emits the quad of one face of the block at `position`.
pub fn get_block_face_mesh_data(position: IVec3, face: Face, color: Color) -> (mesh: MeshData)
    ensures
        mesh@ == face_mesh(position, face, color),
        mesh@.wf(),
{
    let offsets = face.corners();
    let corners = [
        Vertex { block: position, corner: offsets[0] },
        Vertex { block: position, corner: offsets[1] },
        Vertex { block: position, corner: offsets[2] },
        Vertex { block: position, corner: offsets[3] },
    ];
    let mesh = MeshData::quad(corners, face.as_ivec3(), color, face.winding());
    proof {
        assert(mesh@.vertices =~= face_mesh(position, face, color).vertices);
        assert(mesh@ =~= face_mesh(position, face, color));
    }
    mesh
}

/// Emits the quads of the faces of `mask` for the block at `position`.
pub fn mesh_block_faces(position: IVec3, color: Color, mask: u8) -> (mesh: MeshData)
    ensures
        mesh@ == block_mesh(position, color, mask),
        mesh@.wf(),
        mesh@.vertices.len() == 4 * face_count(mask),
        mesh@.indices.len() == 6 * face_count(mask),
        face_count(mask) <= 6,
{
    let faces = Face::all();
    let mut mesh = MeshData::new();
    let mut i: usize = 0;
    while i < 6
        invariant
            i <= 6,
            faces@ == Face::spec_all(),
            mesh@ == block_mesh_upto(position, color, mask, i as nat),
        decreases 6 - i,
    {
        let face = faces[i];
        proof {
            lemma_block_mesh_upto(position, color, mask, i as nat);
            lemma_face_mesh(position, face, color);
        }
        if mask_contains(mask, face) {
            mesh.merge(get_block_face_mesh_data(position, face, color));
        }
        i += 1;
    }
    proof {
        lemma_block_mesh_upto(position, color, mask, 6);
    }
    mesh
}

/// The mesh of the block at `position` of `chunk`, drawn in `color`: the
/// quads of its visible faces, in canonical order.
pub fn generate_voxel_mesh<const S: usize>(
    position: IVec3,
    color: Color,
    chunk: &Chunk<S>,
    world: &World<S>,
) -> (mesh: MeshData)
    requires
        chunk.wf(),
        world.wf(),
    ensures
        mesh@ == block_mesh(position, color, visibility_mask(chunk, world, position)),
        mesh@.wf(),
        mesh@.vertices.len() == 4 * face_count(visibility_mask(chunk, world, position)),
        mesh@.indices.len() == 6 * face_count(visibility_mask(chunk, world, position)),
{
    let mask = visible_face_mask(position, chunk, world);
    mesh_block_faces(position, color, mask)
}

/// Place of the cell `(x, y, z)` in the order in which a chunk of edge `size`
/// is meshed: `x` outermost, `z` innermost.
pub open spec fn cell_index(size: int, x: int, y: int, z: int) -> int {
    (x * size + y) * size + z
}

/// The cell at place `n` of the meshing order of a chunk of edge `size`.
pub open spec fn cell_coords(size: int, n: int) -> (int, int, int) {
    (n / size / size, n / size % size, n % size)
}

/// [`cell_coords`] inverts [`cell_index`] on the cells of a chunk, and the
/// places of a chunk's cells lie below `size`^3.
proof fn lemma_cell_order(size: int, x: int, y: int, z: int)
    requires
        0 <= x < size,
        0 <= y < size,
        0 <= z < size,
    ensures
        cell_coords(size, cell_index(size, x, y, z)) == (x, y, z),
        0 <= cell_index(size, x, y, z) < size * size * size,
        cell_index(size, x, y, z) + 1 == if z + 1 < size {
            cell_index(size, x, y, z + 1)
        } else if y + 1 < size {
            cell_index(size, x, y + 1, 0)
        } else {
            cell_index(size, x + 1, 0, 0)
        },
        cell_index(size, size, 0, 0) == size * size * size,
{
    let row = x * size + y;
    let n = row * size + z;
    vstd::arithmetic::div_mod::lemma_fundamental_div_mod_converse(n, size, row, z);
    vstd::arithmetic::div_mod::lemma_fundamental_div_mod_converse(row, size, x, y);
    assert(0 <= row < size * size) by (nonlinear_arith)
        requires
            row == x * size + y,
            0 <= x < size,
            0 <= y < size,
    ;
    assert(0 <= n < size * size * size) by (nonlinear_arith)
        requires
            n == row * size + z,
            0 <= row < size * size,
            0 <= z < size,
    ;
    assert((x * size + y) * size + size == (x * size + (y + 1)) * size) by (nonlinear_arith);
    assert((x * size + (size - 1)) * size + size == ((x + 1) * size + 0) * size) by (nonlinear_arith);
    assert((size * size + 0) * size + 0 == size * size * size) by (nonlinear_arith);
}

/// What the cell `(x, y, z)` of `chunk` adds to the chunk's mesh: nothing for
/// a transparent cell, else the quads of the block's visible faces in the
/// block's colour, or in `fallback` where the block has none.
pub open spec fn cell_mesh<const S: usize>(
    chunk: &Chunk<S>,
    world: &World<S>,
    fallback: Color,
    x: int,
    y: int,
    z: int,
) -> MeshView {
    match chunk.block_at(x, y, z) {
        Some(block) => if block.transparent {
            MeshView::empty()
        } else {
            let position = IVec3 { x: x as i32, y: y as i32, z: z as i32 };
            block_mesh(
                position,
                block.spec_color_or(fallback),
                visibility_mask(chunk, world, position),
            )
        },
        None => MeshView::empty(),
    }
}

/// The merged contributions of the first `n` cells of the meshing order.
pub open spec fn chunk_mesh_upto<const S: usize>(
    chunk: &Chunk<S>,
    world: &World<S>,
    fallback: Color,
    n: nat,
) -> MeshView
    decreases n,
{
    if n == 0 {
        MeshView::empty()
    } else {
        let (x, y, z) = cell_coords(S as int, n - 1);
        chunk_mesh_upto(chunk, world, fallback, (n - 1) as nat).merged(
            cell_mesh(chunk, world, fallback, x, y, z),
        )
    }
}

/// The mesh of a chunk: the contributions of all its cells, merged in
/// meshing order.
pub open spec fn chunk_mesh<const S: usize>(chunk: &Chunk<S>, world: &World<S>, fallback: Color) -> MeshView {
    chunk_mesh_upto(chunk, world, fallback, (S * S * S) as nat)
}

/// The number of faces the cell `(x, y, z)` of `chunk` shows: the visible
/// faces of its block, none for a transparent cell.
pub open spec fn cell_face_count<const S: usize>(
    chunk: &Chunk<S>,
    world: &World<S>,
    x: int,
    y: int,
    z: int,
) -> nat {
    match chunk.block_at(x, y, z) {
        Some(block) => if block.transparent {
            0
        } else {
            face_count(visibility_mask(chunk, world, IVec3 { x: x as i32, y: y as i32, z: z as i32 }))
        },
        None => 0,
    }
}

/// The number of faces the first `n` cells of the meshing order show.
pub open spec fn chunk_face_count_upto<const S: usize>(chunk: &Chunk<S>, world: &World<S>, n: nat) -> nat
    decreases n,
{
    if n == 0 {
        0
    } else {
        let (x, y, z) = cell_coords(S as int, n - 1);
        chunk_face_count_upto(chunk, world, (n - 1) as nat) + cell_face_count(chunk, world, x, y, z)
    }
}

/// The number of faces in the mesh of a chunk: the visible faces of all its
/// blocks that are not transparent.
pub open spec fn chunk_face_count<const S: usize>(chunk: &Chunk<S>, world: &World<S>) -> nat {
    chunk_face_count_upto(chunk, world, (S * S * S) as nat)
}

/// A cell adds a well-formed fragment of 4 vertices and 6 indices for each
/// face it shows, of which there are at most 6.
proof fn lemma_cell_mesh<const S: usize>(
    chunk: &Chunk<S>,
    world: &World<S>,
    fallback: Color,
    x: int,
    y: int,
    z: int,
)
    ensures
        cell_mesh(chunk, world, fallback, x, y, z).wf(),
        cell_mesh(chunk, world, fallback, x, y, z).vertices.len() == 4 * cell_face_count(chunk, world, x, y, z),
        cell_mesh(chunk, world, fallback, x, y, z).indices.len() == 6 * cell_face_count(chunk, world, x, y, z),
        cell_face_count(chunk, world, x, y, z) <= 6,
{
    match chunk.block_at(x, y, z) {
        Some(block) => {
            let position = IVec3 { x: x as i32, y: y as i32, z: z as i32 };
            lemma_block_mesh_upto(
                position,
                block.spec_color_or(fallback),
                visibility_mask(chunk, world, position),
                6,
            );
        },
        None => {},
    }
}

/// The largest supported chunk still has a mesh that 32-bit indices can
/// address: 24 vertices for each of its cells.
proof fn lemma_mesh_capacity(size: int)
    requires
        0 < size <= MAX_CHUNK_SIZE,
    ensures
        24 * (size * size * size) <= u32::MAX,
{
    assert(size * size * size <= 563 * 563 * 563) by (nonlinear_arith)
        requires
            0 < size <= 563,
    ;
}

/// The mesh of the first `n` cells of a chunk of supported size is
/// well-formed and holds 4 vertices and 6 indices for each face these cells
/// show, of which there are at most 6 for each cell.
proof fn lemma_chunk_mesh_upto<const S: usize>(
    chunk: &Chunk<S>,
    world: &World<S>,
    fallback: Color,
    n: nat,
)
    requires
        Chunk::<S>::size_supported(),
        n <= S * S * S,
    ensures
        chunk_mesh_upto(chunk, world, fallback, n).wf(),
        chunk_mesh_upto(chunk, world, fallback, n).vertices.len() == 4 * chunk_face_count_upto(chunk, world, n),
        chunk_mesh_upto(chunk, world, fallback, n).indices.len() == 6 * chunk_face_count_upto(chunk, world, n),
        chunk_face_count_upto(chunk, world, n) <= 6 * n,
    decreases n,
{
    if n > 0 {
        lemma_mesh_capacity(S as int);
        lemma_chunk_mesh_upto(chunk, world, fallback, (n - 1) as nat);
        let (x, y, z) = cell_coords(S as int, n - 1);
        lemma_cell_mesh(chunk, world, fallback, x, y, z);
        lemma_merged_wf(
            chunk_mesh_upto(chunk, world, fallback, (n - 1) as nat),
            cell_mesh(chunk, world, fallback, x, y, z),
        );
    }
}

/// Builds the mesh of `chunk`: for every block that is not transparent, the
/// quads of the faces that border open space, in the block's colour, or in
/// `fallback` where it has none. Neighbours beyond the chunk's boundary are
/// read from `world`.
pub fn build_chunk_mesh<const S: usize>(chunk: &Chunk<S>, world: &World<S>, fallback: Color) -> (mesh: MeshData)
    requires
        chunk.wf(),
        world.wf(),
    ensures
        mesh@ == chunk_mesh(chunk, world, fallback),
        mesh@.wf(),
        mesh@.vertices.len() == 4 * chunk_face_count(chunk, world),
        mesh@.indices.len() == 6 * chunk_face_count(chunk, world),
{
    proof {
        chunk.lemma_domain();
        lemma_mesh_capacity(S as int);
        lemma_cell_order(S as int, 0, 0, 0);
    }
    let ghost total: int = S * S * S;
    let ghost mut n: nat = 0;
    let mut mesh = MeshData::new();
    let mut x: usize = 0;
    while x < S
        invariant
            chunk.wf(),
            world.wf(),
            Chunk::<S>::size_supported(),
            total == S * S * S,
            24 * total <= u32::MAX,
            x <= S,
            n == cell_index(S as int, x as int, 0, 0),
            x < S ==> n < total,
            x == S ==> n == total,
            mesh@ == chunk_mesh_upto(chunk, world, fallback, n),
        decreases S - x,
    {
        let mut y: usize = 0;
        while y < S
            invariant
                chunk.wf(),
                world.wf(),
                Chunk::<S>::size_supported(),
                total == S * S * S,
                24 * total <= u32::MAX,
                x < S,
                y <= S,
                y < S ==> n == cell_index(S as int, x as int, y as int, 0),
                y == S ==> n == cell_index(S as int, x as int + 1, 0, 0),
                n <= total,
                mesh@ == chunk_mesh_upto(chunk, world, fallback, n),
            decreases S - y,
        {
            let mut z: usize = 0;
            while z < S
                invariant
                    chunk.wf(),
                    world.wf(),
                    Chunk::<S>::size_supported(),
                    total == S * S * S,
                    24 * total <= u32::MAX,
                    x < S,
                    y < S,
                    z <= S,
                    z < S ==> n == cell_index(S as int, x as int, y as int, z as int),
                    z == S && y + 1 < S ==> n == cell_index(S as int, x as int, y as int + 1, 0),
                    z == S && y + 1 == S ==> n == cell_index(S as int, x as int + 1, 0, 0),
                    n <= total,
                    mesh@ == chunk_mesh_upto(chunk, world, fallback, n),
                decreases S - z,
            {
                proof {
                    lemma_cell_order(S as int, x as int, y as int, z as int);
                    lemma_chunk_mesh_upto(chunk, world, fallback, n);
                    lemma_cell_mesh(chunk, world, fallback, x as int, y as int, z as int);
                    lemma_merged_wf(
                        chunk_mesh_upto(chunk, world, fallback, n),
                        cell_mesh(chunk, world, fallback, x as int, y as int, z as int),
                    );
                }
                let position = IVec3::new(x as i32, y as i32, z as i32);
                match chunk.get_block(position) {
                    Some(block) => {
                        if !block.transparent {
                            let color = block.color_or(fallback);
                            mesh.merge(generate_voxel_mesh(position, color, chunk, world));
                        } else {
                            assert(mesh@.merged(MeshView::empty()) =~= mesh@);
                        }
                    },
                    None => {},
                }
                proof {
                    n = n + 1;
                }
                z += 1;
            }
            y += 1;
        }
        proof {
            if x + 1 == S {
                lemma_cell_order(S as int, x as int, 0, 0);
            } else {
                lemma_cell_order(S as int, x as int + 1, 0, 0);
            }
        }
        x += 1;
    }
    proof {
        lemma_chunk_mesh_upto(chunk, world, fallback, n);
    }
    mesh
}

/// Marks a chunk whose mesh has to be built, or built anew.
#[derive(Clone, Copy, Debug, PartialEq, Eq, Structural)]
pub struct UpdateMesh;

/// One step of a chunk's mesh life cycle. A marked chunk gets its mesh
/// built, and the marker is used up; a chunk without a marker is left alone.
/// Blocks without a colour of their own are drawn in white.
pub fn update_chunk_mesh<const S: usize>(
    marker: Option<UpdateMesh>,
    chunk: &Chunk<S>,
    world: &World<S>,
) -> (mesh: Option<MeshData>)
    requires
        chunk.wf(),
        world.wf(),
    ensures
        marker is None ==> mesh is None,
        marker is Some ==> mesh is Some && mesh->0@.wf() && exists|fallback: Color|
            mesh->0@ == #[trigger] chunk_mesh(chunk, world, fallback),
{
    match marker {
        Some(_) => {
            let fallback = white();
            Some(build_chunk_mesh(chunk, world, fallback))
        },
        None => None,
    }
}

/// A block whose six neighbours are all present and opaque has the
/// visibility mask 0 and adds neither a vertex nor an index to a mesh.
pub proof fn lemma_enclosed_block_adds_nothing<const S: usize>(
    chunk: &Chunk<S>,
    world: &World<S>,
    position: IVec3,
    color: Color,
    acc: MeshView,
)
    requires
        forall|face: Face|
            (#[trigger] spec_neighbour_block(chunk, world, position, face)) is Some
                && !spec_neighbour_block(chunk, world, position, face)->0.transparent,
    ensures
        visibility_mask(chunk, world, position) == 0,
        block_mesh(position, color, visibility_mask(chunk, world, position)) == MeshView::empty(),
        acc.merged(block_mesh(position, color, visibility_mask(chunk, world, position))) == acc,
{
    let mask = visibility_mask(chunk, world, position);
    lemma_visibility_mask_bits(chunk, world, position);
    assert(mask == 0) by {
        assert(!mask_has(mask, Face::Front) && !mask_has(mask, Face::Back));
        assert(!mask_has(mask, Face::Left) && !mask_has(mask, Face::Right));
        assert(!mask_has(mask, Face::Bottom) && !mask_has(mask, Face::Top));
        assert(mask == 0) by (bit_vector)
            requires
                mask < 64,
                mask & 1 == 0,
                mask & 2 == 0,
                mask & 4 == 0,
                mask & 8 == 0,
                mask & 16 == 0,
                mask & 32 == 0,
        ;
    }
    lemma_mask_faces(0);
    reveal_with_fuel(block_mesh_upto, 7);
    lemma_merge_empty(acc);
}

/// A block whose six neighbours are all absent or transparent has all six
/// bits set in its visibility mask and adds 24 vertices and 36 indices to a
/// mesh. Each added index, less the number of vertices the mesh held before,
/// names one of the block's own 24 vertices.
pub proof fn lemma_exposed_block_adds_six_faces<const S: usize>(
    chunk: &Chunk<S>,
    world: &World<S>,
    position: IVec3,
    color: Color,
    acc: MeshView,
)
    requires
        forall|face: Face| #[trigger] face_visible(chunk, world, position, face),
        acc.wf(),
        acc.vertices.len() + 24 <= u32::MAX,
    ensures
        visibility_mask(chunk, world, position) == 63,
        block_mesh(position, color, 63).vertices.len() == 24,
        block_mesh(position, color, 63).indices.len() == 36,
        block_mesh(position, color, 63).wf(),
        acc.merged(block_mesh(position, color, 63)).vertices.len() == acc.vertices.len() + 24,
        acc.merged(block_mesh(position, color, 63)).indices.len() == acc.indices.len() + 36,
        forall|k: int|
            0 <= k < 36 ==> 0 <= (#[trigger] acc.merged(block_mesh(position, color, 63)).indices[acc.indices.len()
                + k]) - acc.vertices.len() < 24,
{
    let mask = visibility_mask(chunk, world, position);
    lemma_visibility_mask_bits(chunk, world, position);
    assert(mask == 63) by {
        assert(mask_has(mask, Face::Front) && mask_has(mask, Face::Back));
        assert(mask_has(mask, Face::Left) && mask_has(mask, Face::Right));
        assert(mask_has(mask, Face::Bottom) && mask_has(mask, Face::Top));
        assert(mask == 63) by (bit_vector)
            requires
                mask < 64,
                mask & 1 != 0,
                mask & 2 != 0,
                mask & 4 != 0,
                mask & 8 != 0,
                mask & 16 != 0,
                mask & 32 != 0,
        ;
    }
    lemma_mask_faces(63);
    lemma_block_mesh_upto(position, color, 63, 6);
    let block = block_mesh(position, color, 63);
    lemma_merged_wf(acc, block);
    assert forall|k: int| 0 <= k < 36 implies 0 <= (#[trigger] acc.merged(block).indices[acc.indices.len()
        + k]) - acc.vertices.len() < 24 by {
        assert(block.indices[k] < 24);
    }
}

/// The number of faces in the empty and in the full mask.
proof fn lemma_mask_faces(mask: u8)
    requires
        mask == 0 || mask == 63,
    ensures
        mask == 0 ==> face_count(mask) == 0 && forall|face: Face| !#[trigger] mask_has(mask, face),
        mask == 63 ==> face_count(mask) == 6 && forall|face: Face| #[trigger] mask_has(mask, face),
{
    reveal_with_fuel(face_count_upto, 7);
    assert((mask == 0 ==> mask & 1 == 0 && mask & 2 == 0 && mask & 4 == 0 && mask & 8 == 0 && mask & 16
        == 0 && mask & 32 == 0) && (mask == 63 ==> mask & 1 != 0 && mask & 2 != 0 && mask & 4 != 0
        && mask & 8 != 0 && mask & 16 != 0 && mask & 32 != 0)) by (bit_vector);
    assert forall|face: Face| (mask == 0 ==> !#[trigger] mask_has(mask, face)) && (mask == 63
        ==> mask_has(mask, face)) by {
        match face {
            Face::Front => {},
            Face::Back => {},
            Face::Left => {},
            Face::Right => {},
            Face::Bottom => {},
            Face::Top => {},
        }
    }
}

/// As long as every cell is transparent, the mesh stays empty.
proof fn lemma_transparent_cells_add_nothing<const S: usize>(
    chunk: &Chunk<S>,
    world: &World<S>,
    fallback: Color,
    n: nat,
)
    requires
        forall|x: int, y: int, z: int|
            (#[trigger] chunk.block_at(x, y, z)) is Some ==> chunk.block_at(x, y, z)->0.transparent,
    ensures
        chunk_mesh_upto(chunk, world, fallback, n) == MeshView::empty(),
        chunk_face_count_upto(chunk, world, n) == 0,
    decreases n,
{
    if n > 0 {
        lemma_transparent_cells_add_nothing(chunk, world, fallback, (n - 1) as nat);
        let (x, y, z) = cell_coords(S as int, n - 1);
        assert(chunk.block_at(x, y, z) is Some ==> chunk.block_at(x, y, z)->0.transparent);
        lemma_merge_empty(MeshView::empty());
    }
}

/// A chunk of nothing but transparent blocks has an empty mesh, whatever
/// surrounds it.
pub proof fn lemma_transparent_chunk_mesh_is_empty<const S: usize>(
    chunk: &Chunk<S>,
    world: &World<S>,
    fallback: Color,
)
    requires
        forall|x: int, y: int, z: int|
            (#[trigger] chunk.block_at(x, y, z)) is Some ==> chunk.block_at(x, y, z)->0.transparent,
    ensures
        chunk_mesh(chunk, world, fallback) == MeshView::empty(),
        chunk_face_count(chunk, world) == 0,
{
    lemma_transparent_cells_add_nothing(chunk, world, fallback, (S * S * S) as nat);
}

} // verus!
