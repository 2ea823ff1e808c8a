//! Verified integer core of a voxel ray tracer: the deterministic generator,
//! tile scheduling, frame and texture addressing, bitmap encoding, mesh index
//! handling and the scene description with its validity rules.

pub mod daynight;
pub mod rng;
pub mod tiles;
pub mod image;
pub mod bmp;
pub mod texture;
pub mod scene;
pub mod mesh;
pub mod render;
