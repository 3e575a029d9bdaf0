//! Voxel chunk meshing: dense chunks of blocks, a world index that resolves
//! global block coordinates across chunk boundaries, the face-visibility test
//! and the assembly of the exposed faces into one indexed mesh per chunk.
//!
//! Every function is verified against a contract stated over mathematical
//! models: integer coordinates as `int`, chunk contents as a `Map`, mesh
//! buffers as `Seq`s.

pub mod block;
pub mod chunk;
pub mod color;
pub mod mesh;
pub mod meshing;
pub mod terrain;
pub mod vector;
pub mod visibility;
pub mod world;

pub use block::{Block, Face};
pub use chunk::{Chunk, MAX_CHUNK_SIZE};
pub use mesh::{MeshData, MeshView, Vertex};
pub use vector::IVec3;
pub use world::World;
