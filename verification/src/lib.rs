//! A chunked voxel world: block storage, dirty tracking for re-meshing,
//! greedy surface meshing and the block queries behind swept collision.

pub mod block;
pub mod chunk;
pub mod collision;
pub mod coords;
pub mod dirty;
pub mod faces;
pub mod mesh;
pub mod samples;
pub mod stale;
pub mod store;
pub mod sweep;
pub mod systems;
