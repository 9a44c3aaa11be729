//! Converts a scene graph of renderable objects (meshes and terrains) into a
//! render-ready set of draw batches: per-object geometry instances that share
//! the same geometry buffer and material are grouped into a single batch, and
//! the batches are ordered to minimize pipeline-state switches.

pub mod math;
pub mod material;
pub mod scene;
pub mod events;
pub mod batch;
pub mod laws;
