//! Scene management and draw batching for a small real-time renderer:
//! object storage grouped by material and mesh identity over weakly
//! observed resource pools, camera and frustum arithmetic with the
//! semantic parameters re-derived from the projection matrix, bounding
//! spheres from vertex extents, and a collision-checked uniform-name
//! cache.  Scalars are exact rationals or 32.32 fixed point; the
//! device-facing shell converts and issues the planned commands.

pub mod buffer;
pub mod camera;
pub mod fixed;
pub mod handle;
pub mod hash;
pub mod material;
pub mod mesh;
pub mod program;
pub mod rational;
pub mod scene;
pub mod texture;
pub mod trig;
