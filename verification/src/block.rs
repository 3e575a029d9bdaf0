//! Blocks, the six faces of a cube and their fixed geometry.

use vstd::prelude::*;
use bevy::color::Color;
use crate::vector::IVec3;

verus! {

/// The atomic unit of the world: see-through or solid, with an optional
/// flat colour.
#[derive(Clone, Copy, Debug, PartialEq)]
pub struct Block {
    pub transparent: bool,
    pub color: Option<Color>,
}

impl Default for Block {
    fn default() -> (block: Block)
        ensures
            block == (Block { transparent: false, color: None }),
    {
        Block { transparent: false, color: None }
    }
}

impl Block {
    /// Empty space: transparent and colourless.
    pub fn air() -> (block: Block)
        ensures
            block == (Block { transparent: true, color: None }),
    {
        Block { transparent: true, color: None }
    }

    /// An opaque block of the given colour.
    pub fn solid(color: Color) -> (block: Block)
        ensures
            block == (Block { transparent: false, color: Some(color) }),
    {
        Block { transparent: false, color: Some(color) }
    }

    /// The colour a face of this block is drawn in.
    pub open spec fn spec_color_or(self, fallback: Color) -> Color {
        match self.color {
            Some(color) => color,
            None => fallback,
        }
    }

    /// The block's own colour, or `fallback` where it has none.
    pub fn color_or(&self, fallback: Color) -> (color: Color)
        ensures
            color == self.spec_color_or(fallback),
    {
        match self.color {
            Some(color) => color,
            None => fallback,
        }
    }
}

/// One of the six axis-aligned sides of a cube.
#[derive(Clone, Copy, Debug, PartialEq, Eq, Structural)]
pub enum Face {
    /// Towards negative Z.
    Front,
    /// Towards positive Z.
    Back,
    /// Towards negative X.
    Left,
    /// Towards positive X.
    Right,
    /// Towards negative Y.
    Bottom,
    /// Towards positive Y.
    Top,
}

impl Face {
    /// The faces in canonical order; a face's place in it is its bit in a
    /// visibility mask.
    pub open spec fn spec_all() -> Seq<Face> {
        seq![Face::Front, Face::Back, Face::Left, Face::Right, Face::Bottom, Face::Top]
    }

    pub fn all() -> (faces: [Face; 6])
        ensures
            faces@ == Face::spec_all(),
    {
        let faces = [Face::Front, Face::Back, Face::Left, Face::Right, Face::Bottom, Face::Top];
        assert(faces@ =~= Face::spec_all());
        faces
    }

    pub open spec fn spec_opposite(self) -> Face {
        match self {
            Face::Front => Face::Back,
            Face::Back => Face::Front,
            Face::Left => Face::Right,
            Face::Right => Face::Left,
            Face::Bottom => Face::Top,
            Face::Top => Face::Bottom,
        }
    }

    /// The face on the other side of the cube: it points the other way, and
    /// its own opposite is this face again.
    pub fn opposite(&self) -> (face: Face)
        ensures
            face == self.spec_opposite(),
            face.spec_opposite() == *self,
            face != *self,
            face.spec_as_ivec3().x == -self.spec_as_ivec3().x,
            face.spec_as_ivec3().y == -self.spec_as_ivec3().y,
            face.spec_as_ivec3().z == -self.spec_as_ivec3().z,
    {
        match self {
            Face::Front => Face::Back,
            Face::Back => Face::Front,
            Face::Left => Face::Right,
            Face::Right => Face::Left,
            Face::Bottom => Face::Top,
            Face::Top => Face::Bottom,
        }
    }

    pub open spec fn spec_as_ivec3(self) -> IVec3 {
        match self {
            Face::Front => IVec3 { x: 0, y: 0, z: -1i32 },
            Face::Back => IVec3 { x: 0, y: 0, z: 1 },
            Face::Left => IVec3 { x: -1i32, y: 0, z: 0 },
            Face::Right => IVec3 { x: 1, y: 0, z: 0 },
            Face::Bottom => IVec3 { x: 0, y: -1i32, z: 0 },
            Face::Top => IVec3 { x: 0, y: 1, z: 0 },
        }
    }

    /// The unit vector the face points along: the offset to the neighbouring
    /// block on that side, and the face's outward normal.
    pub fn as_ivec3(&self) -> (direction: IVec3)
        ensures
            direction == self.spec_as_ivec3(),
    {
        match self {
            Face::Front => IVec3 { x: 0, y: 0, z: -1 },
            Face::Back => IVec3 { x: 0, y: 0, z: 1 },
            Face::Left => IVec3 { x: -1, y: 0, z: 0 },
            Face::Right => IVec3 { x: 1, y: 0, z: 0 },
            Face::Bottom => IVec3 { x: 0, y: -1, z: 0 },
            Face::Top => IVec3 { x: 0, y: 1, z: 0 },
        }
    }

    pub open spec fn spec_bit(self) -> u8 {
        match self {
            Face::Front => 1,
            Face::Back => 2,
            Face::Left => 4,
            Face::Right => 8,
            Face::Bottom => 16,
            Face::Top => 32,
        }
    }

    /// The face's bit in a visibility mask: bit `i` for the face at place `i`
    /// of the canonical order.
    pub fn bit(&self) -> (bit: u8)
        ensures
            bit == self.spec_bit(),
    {
        match self {
            Face::Front => 1,
            Face::Back => 2,
            Face::Left => 4,
            Face::Right => 8,
            Face::Bottom => 16,
            Face::Top => 32,
        }
    }

    /// The four corners of the face on the cube centred at the origin, in
    /// half units: a component of 1 stands for +0.5, one of -1 for -0.5.
    pub open spec fn spec_corners(self) -> Seq<IVec3> {
        match self {
            Face::Front => seq![
                IVec3 { x: -1i32, y: -1i32, z: -1i32 },
                IVec3 { x: -1i32, y: 1, z: -1i32 },
                IVec3 { x: 1, y: 1, z: -1i32 },
                IVec3 { x: 1, y: -1i32, z: -1i32 },
            ],
            Face::Back => seq![
                IVec3 { x: -1i32, y: -1i32, z: 1 },
                IVec3 { x: -1i32, y: 1, z: 1 },
                IVec3 { x: 1, y: 1, z: 1 },
                IVec3 { x: 1, y: -1i32, z: 1 },
            ],
            Face::Right => seq![
                IVec3 { x: 1, y: -1i32, z: -1i32 },
                IVec3 { x: 1, y: -1i32, z: 1 },
                IVec3 { x: 1, y: 1, z: 1 },
                IVec3 { x: 1, y: 1, z: -1i32 },
            ],
            Face::Left => seq![
                IVec3 { x: -1i32, y: -1i32, z: -1i32 },
                IVec3 { x: -1i32, y: -1i32, z: 1 },
                IVec3 { x: -1i32, y: 1, z: 1 },
                IVec3 { x: -1i32, y: 1, z: -1i32 },
            ],
            Face::Top => seq![
                IVec3 { x: -1i32, y: 1, z: -1i32 },
                IVec3 { x: 1, y: 1, z: -1i32 },
                IVec3 { x: 1, y: 1, z: 1 },
                IVec3 { x: -1i32, y: 1, z: 1 },
            ],
            Face::Bottom => seq![
                IVec3 { x: -1i32, y: -1i32, z: -1i32 },
                IVec3 { x: 1, y: -1i32, z: -1i32 },
                IVec3 { x: 1, y: -1i32, z: 1 },
                IVec3 { x: -1i32, y: -1i32, z: 1 },
            ],
        }
    }

    pub fn corners(&self) -> (corners: [IVec3; 4])
        ensures
            corners@ == self.spec_corners(),
    {
        let corners = match self {
            Face::Front => [
                IVec3 { x: -1, y: -1, z: -1 },
                IVec3 { x: -1, y: 1, z: -1 },
                IVec3 { x: 1, y: 1, z: -1 },
                IVec3 { x: 1, y: -1, z: -1 },
            ],
            Face::Back => [
                IVec3 { x: -1, y: -1, z: 1 },
                IVec3 { x: -1, y: 1, z: 1 },
                IVec3 { x: 1, y: 1, z: 1 },
                IVec3 { x: 1, y: -1, z: 1 },
            ],
            Face::Right => [
                IVec3 { x: 1, y: -1, z: -1 },
                IVec3 { x: 1, y: -1, z: 1 },
                IVec3 { x: 1, y: 1, z: 1 },
                IVec3 { x: 1, y: 1, z: -1 },
            ],
            Face::Left => [
                IVec3 { x: -1, y: -1, z: -1 },
                IVec3 { x: -1, y: -1, z: 1 },
                IVec3 { x: -1, y: 1, z: 1 },
                IVec3 { x: -1, y: 1, z: -1 },
            ],
            Face::Top => [
                IVec3 { x: -1, y: 1, z: -1 },
                IVec3 { x: 1, y: 1, z: -1 },
                IVec3 { x: 1, y: 1, z: 1 },
                IVec3 { x: -1, y: 1, z: 1 },
            ],
            Face::Bottom => [
                IVec3 { x: -1, y: -1, z: -1 },
                IVec3 { x: 1, y: -1, z: -1 },
                IVec3 { x: 1, y: -1, z: 1 },
                IVec3 { x: -1, y: -1, z: 1 },
            ],
        };
        assert(corners@ =~= self.spec_corners());
        corners
    }

    /// The two triangles of the face as indices into its four corners.
    pub open spec fn spec_winding(self) -> Seq<u32> {
        match self {
            Face::Front | Face::Left | Face::Bottom => seq![0u32, 1u32, 2u32, 2u32, 3u32, 0u32],
            Face::Back | Face::Right | Face::Top => seq![0u32, 3u32, 2u32, 2u32, 1u32, 0u32],
        }
    }

    pub fn winding(&self) -> (winding: [u32; 6])
        ensures
            winding@ == self.spec_winding(),
    {
        let winding: [u32; 6] = match self {
            Face::Front | Face::Left | Face::Bottom => [0, 1, 2, 2, 3, 0],
            Face::Back | Face::Right | Face::Top => [0, 3, 2, 2, 1, 0],
        };
        assert(winding@ =~= self.spec_winding());
        winding
    }
}

/// The cross product `(b - a) x (c - a)`: by the right-hand rule it points to
/// the side from which the triangle `a`, `b`, `c` is seen counter-clockwise.
pub open spec fn triangle_normal(a: IVec3, b: IVec3, c: IVec3) -> (int, int, int) {
    let (ux, uy, uz) = (b.x - a.x, b.y - a.y, b.z - a.z);
    let (wx, wy, wz) = (c.x - a.x, c.y - a.y, c.z - a.z);
    (uy * wz - uz * wy, uz * wx - ux * wz, ux * wy - uy * wx)
}

/// Every corner of a face lies on the side of the cube the face points to,
/// and both triangles of every face are wound counter-clockwise as seen from
/// outside the cube: their right-hand normal points along the face's own
/// direction. The two winding orders exist to make this hold for all faces.
pub proof fn lemma_faces_wind_outward(face: Face, triangle: int)
    requires
        triangle == 0 || triangle == 1,
    ensures
        forall|i: int|
            0 <= i < 4 ==> {
                let corner = #[trigger] face.spec_corners()[i];
                let normal = face.spec_as_ivec3();
                corner.x * normal.x + corner.y * normal.y + corner.z * normal.z == 1
            },
        ({
            let corners = face.spec_corners();
            let winding = face.spec_winding();
            let normal = face.spec_as_ivec3();
            triangle_normal(
                corners[winding[3 * triangle] as int],
                corners[winding[3 * triangle + 1] as int],
                corners[winding[3 * triangle + 2] as int],
            ) == (4 * normal.x, 4 * normal.y, 4 * normal.z)
        }),
{
    let corners = face.spec_corners();
    let winding = face.spec_winding();
    let normal = face.spec_as_ivec3();
    assert forall|i: int| 0 <= i < 4 implies {
        let corner = #[trigger] corners[i];
        corner.x * normal.x + corner.y * normal.y + corner.z * normal.z == 1
    } by {
        lemma_unit_product(corners[i].x as int, normal.x as int);
        lemma_unit_product(corners[i].y as int, normal.y as int);
        lemma_unit_product(corners[i].z as int, normal.z as int);
    }
    let a = corners[winding[3 * triangle] as int];
    let b = corners[winding[3 * triangle + 1] as int];
    let c = corners[winding[3 * triangle + 2] as int];
    let (ux, uy, uz) = (b.x - a.x, b.y - a.y, b.z - a.z);
    let (wx, wy, wz) = (c.x - a.x, c.y - a.y, c.z - a.z);
    lemma_edge_product(ux, wy);
    lemma_edge_product(ux, wz);
    lemma_edge_product(uy, wx);
    lemma_edge_product(uy, wz);
    lemma_edge_product(uz, wx);
    lemma_edge_product(uz, wy);
}

/// The product of a number with -1, 0 or 1.
proof fn lemma_unit_product(c: int, n: int)
    by (nonlinear_arith)
    requires
        n == -1 || n == 0 || n == 1,
    ensures
        c * n == (if n == 0 {
            0
        } else if n == 1 {
            c
        } else {
            -c
        }),
{
}

/// The product of a number with -2, 0 or 2.
proof fn lemma_edge_product(u: int, w: int)
    by (nonlinear_arith)
    requires
        u == -2 || u == 0 || u == 2,
    ensures
        u * w == (if u == 0 {
            0
        } else if u == 2 {
            2 * w
        } else {
            -2 * w
        }),
{
}

} // verus!
