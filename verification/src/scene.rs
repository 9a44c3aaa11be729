//! The scene graph consumed by batch generation: a flat pool of nodes,
//! each a mesh, a terrain, or something else (skipped). A handle is the
//! node's index in the pool. Geometry buffers and mask textures appear as
//! stable numeric identities; bones are handles into the same pool.

use vstd::prelude::*;
use crate::math::Mat4;
use crate::material::MaterialHandle;

verus! {

/// The most bones one surface may reference: the fixed capacity of an
/// instance's skinning array. A surface exceeding it violates the caller's
/// contract, so a well-formed graph never holds one.
pub const BONE_MATRICES_COUNT: usize = 64;

/// The rendering strategy a batch is drawn with.
#[derive(Clone, Copy, PartialEq, Eq, Structural, Debug)]
pub enum RenderPath {
    Deferred,
    Forward,
}

/// A mesh's geometry+material sub-unit.
pub struct Surface {
    /// Identity of the shared geometry buffer this surface draws.
    pub data: u64,
    /// Stable identifier of the geometry buffer identity: the mesh batching key.
    pub batch_id: u64,
    /// Shared handle to the surface's material; its identity is the
    /// material id used as the mesh batch sort key.
    pub material: MaterialHandle,
    /// Handles of the bones influencing this surface, in declared order.
    pub bones: Vec<usize>,
}

/// A mesh node's renderable content.
pub struct MeshData {
    pub surfaces: Vec<Surface>,
    pub render_path: RenderPath,
    pub decal_layer_index: u8,
    pub depth_offset_factor: i64,
}

/// One terrain layer: a base material, the name of its mask sampler
/// property, and one precomputed mask texture per chunk.
pub struct TerrainLayer {
    pub material: MaterialHandle,
    pub mask_property_name: Vec<u8>,
    /// Mask texture identities, one per chunk of the terrain.
    pub chunk_masks: Vec<u64>,
}

/// One terrain chunk: the identity of its geometry data.
pub struct TerrainChunk {
    pub data: u64,
}

/// A terrain node's renderable content.
pub struct TerrainData {
    pub layers: Vec<TerrainLayer>,
    pub chunks: Vec<TerrainChunk>,
    pub decal_layer_index: u8,
    pub depth_offset_factor: i64,
}

/// What a node renders as.
pub enum NodeKind {
    Mesh(MeshData),
    Terrain(TerrainData),
    Other,
}

/// One scene-graph node. Every node carries its global transform and its
/// inverse bind-pose transform, so any node can serve as a bone.
pub struct Node {
    pub global_transform: Mat4,
    pub inv_bind_pose_transform: Mat4,
    pub kind: NodeKind,
}

/// The scene graph: a pool of nodes, iterated in index order.
pub struct Graph {
    pub nodes: Vec<Node>,
}

impl Surface {
    /// Bone lists fit the skinning capacity and point into the node pool.
    pub open spec fn wf(&self, node_count: int) -> bool {
        &&& self.bones@.len() <= BONE_MATRICES_COUNT
        &&& forall|k: int| 0 <= k < self.bones@.len() ==> (#[trigger] self.bones@[k]) < node_count
    }
}

impl MeshData {
    pub open spec fn wf(&self, node_count: int) -> bool {
        forall|s: int| 0 <= s < self.surfaces@.len() ==> (#[trigger] self.surfaces@[s]).wf(node_count)
    }
}

impl TerrainData {
    /// Every layer carries exactly one mask texture per chunk.
    pub open spec fn wf(&self) -> bool {
        forall|l: int| 0 <= l < self.layers@.len()
            ==> (#[trigger] self.layers@[l]).chunk_masks@.len() == self.chunks@.len()
    }
}

impl Node {
    pub open spec fn wf(&self, node_count: int) -> bool {
        &&& self.global_transform.wf()
        &&& self.inv_bind_pose_transform.wf()
        &&& match self.kind {
            NodeKind::Mesh(m) => m.wf(node_count),
            NodeKind::Terrain(t) => t.wf(),
            NodeKind::Other => true,
        }
    }
}

impl Graph {
    /// A well-formed graph: every node's transforms are full 4x4 matrices,
    /// bone handles resolve, bone lists fit the skinning capacity, and
    /// terrain layers carry one mask per chunk.
    pub open spec fn wf(&self) -> bool {
        forall|i: int| 0 <= i < self.nodes@.len()
            ==> (#[trigger] self.nodes@[i]).wf(self.nodes@.len() as int)
    }
}

} // verus!
