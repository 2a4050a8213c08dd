//! Voxel world core: block catalog, region addressing, region store with
//! activation around an observer, terrain column fill, surface meshing with
//! ambient occlusion, exact grid raycasting and block interaction.

pub mod block;
pub mod coords;
pub mod chunk;
pub mod mesh;
pub mod raycast;
pub mod world;
pub mod interaction;
pub mod server;
