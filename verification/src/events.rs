//! The mathematical model of one regeneration pass.
//!
//! Walking the graph in index order yields a sequence of *batch events*, one
//! per renderable occurrence: each mesh surface yields one, and each terrain
//! (layer, chunk) pair whose mask property assignment succeeds yields one.
//! Each failing pair yields exactly one error instead. An event carries the
//! batch key it files under, the batch metadata it establishes or refreshes,
//! and the instance it appends. The storage's contract states the final
//! batch set as a grouping of this sequence by key.

use vstd::prelude::*;
use crate::math::{mat_identity, mat_mul_spec};
use crate::material::{PropertyValue, MaterialError, set_prop_spec};
use crate::scene::{Graph, NodeKind, MeshData, TerrainData, Surface, RenderPath};

verus! {

/// What the key hash of two 64-bit identities is. Names the result of
/// `fxhash::FxHasher64` fed both words; the hash is a function of the two
/// words alone.
pub uninterp spec fn fx_hash_pair(a: u64, b: u64) -> u64;

/// The model of one surface instance: its owner node, world transform,
/// skinning matrices in declared bone order, and depth bias.
pub struct InstanceModel {
    pub owner: int,
    pub world_transform: Seq<i64>,
    pub bone_matrices: Seq<Seq<i64>>,
    pub depth_offset: i64,
}

/// One renderable occurrence met during traversal: the batch key it files
/// under, the metadata it establishes (on batch creation) or refreshes (on
/// every visit), and the instance it appends.
pub struct BatchEvent {
    /// The batch key: the surface's batch id for meshes, a hash of the fresh
    /// material identity and the chunk's geometry identity for terrains.
    pub key: u64,
    /// Identity of the geometry buffer the batch draws.
    pub data: u64,
    /// Identity of the material handle stored in the batch.
    pub material_id: u64,
    /// Contents of the material stored in the batch.
    pub material: Seq<(Seq<u8>, PropertyValue)>,
    /// The batch ordering key: material id for meshes, layer index for terrains.
    pub sort_index: u64,
    pub is_skinned: bool,
    pub render_path: RenderPath,
    pub decal_layer_index: u8,
    pub instance: InstanceModel,
}

/// One logged failure: a terrain (layer, chunk) pair whose mask property
/// could not be assigned, with the reason.
#[derive(Clone, Copy, PartialEq, Eq, Structural, Debug)]
pub struct BatchError {
    /// Handle of the terrain node.
    pub node: usize,
    pub layer: usize,
    pub chunk: usize,
    pub reason: MaterialError,
}

/// The skinning matrix a bone contributes: its global transform times its
/// inverse bind-pose transform.
pub open spec fn skinning_matrix(g: Graph, bone: int) -> Seq<i64> {
    mat_mul_spec(g.nodes@[bone].global_transform@, g.nodes@[bone].inv_bind_pose_transform@)
}

/// The instance a mesh surface contributes: the identity transform for
/// skinned surfaces (placement travels in the bone matrices), the mesh's
/// global transform otherwise.
pub open spec fn mesh_instance(g: Graph, ni: int, m: MeshData, s: Surface) -> InstanceModel {
    InstanceModel {
        owner: ni,
        world_transform: if s.bones@.len() > 0 {
            mat_identity()
        } else {
            g.nodes@[ni].global_transform@
        },
        bone_matrices: Seq::new(s.bones@.len(), |k: int| skinning_matrix(g, s.bones@[k] as int)),
        depth_offset: m.depth_offset_factor,
    }
}

/// The event surface `si` of the mesh at node `ni` contributes. Its key is
/// the surface's batch id; sort index and stored material come from the
/// surface's material handle.
pub open spec fn mesh_surface_event(g: Graph, ni: int, m: MeshData, si: int) -> BatchEvent {
    let s = m.surfaces@[si];
    BatchEvent {
        key: s.batch_id,
        data: s.data,
        material_id: s.material.id,
        material: s.material.value@,
        sort_index: s.material.id,
        is_skinned: s.bones@.len() > 0,
        render_path: m.render_path,
        decal_layer_index: m.decal_layer_index,
        instance: mesh_instance(g, ni, m, s),
    }
}

/// What cloning layer `li`'s material and assigning chunk `ci`'s mask
/// texture to its mask property yields: the masked clone, or the error.
pub open spec fn masked_material(t: TerrainData, li: int, ci: int) -> Result<
    Seq<(Seq<u8>, PropertyValue)>,
    MaterialError,
> {
    set_prop_spec(
        t.layers@[li].material.value@,
        t.layers@[li].mask_property_name@,
        PropertyValue::Sampler(Some(t.layers@[li].chunk_masks@[ci])),
    )
}

/// Whether the (layer, chunk) pair produces an instance rather than an error.
pub open spec fn pair_ok(t: TerrainData, li: int, ci: int) -> bool {
    masked_material(t, li, ci) is Ok
}

/// The identity of the material handle freshly created for a (layer, chunk)
/// pair this pass, modelled as a hash of the coordinates that created it:
/// distinct pairs get distinct identities up to hash collisions.
pub open spec fn fresh_material_id(ni: int, li: int, ci: int) -> u64 {
    fx_hash_pair(fx_hash_pair(ni as u64, li as u64), ci as u64)
}

/// The event a successful terrain (layer, chunk) pair contributes: keyed by
/// the fresh material identity hashed with the chunk's geometry identity,
/// sorted by layer index, always drawn deferred and unskinned.
pub open spec fn terrain_event(g: Graph, ni: int, t: TerrainData, li: int, ci: int) -> BatchEvent {
    BatchEvent {
        key: fx_hash_pair(fresh_material_id(ni, li, ci), t.chunks@[ci].data),
        data: t.chunks@[ci].data,
        material_id: fresh_material_id(ni, li, ci),
        material: masked_material(t, li, ci)->Ok_0,
        sort_index: li as u64,
        is_skinned: false,
        render_path: RenderPath::Deferred,
        decal_layer_index: t.decal_layer_index,
        instance: InstanceModel {
            owner: ni,
            world_transform: g.nodes@[ni].global_transform@,
            bone_matrices: Seq::empty(),
            depth_offset: t.depth_offset_factor,
        },
    }
}

/// The error a failing terrain (layer, chunk) pair logs.
pub open spec fn pair_error(ni: int, t: TerrainData, li: int, ci: int) -> BatchError {
    BatchError {
        node: ni as usize,
        layer: li as usize,
        chunk: ci as usize,
        reason: masked_material(t, li, ci)->Err_0,
    }
}

/// Events of the first `ci` chunks of layer `li`.
pub open spec fn chunk_events_prefix(g: Graph, ni: int, t: TerrainData, li: int, ci: int) -> Seq<
    BatchEvent,
>
    decreases ci,
{
    if ci <= 0 {
        Seq::empty()
    } else {
        chunk_events_prefix(g, ni, t, li, ci - 1) + if pair_ok(t, li, ci - 1) {
            seq![terrain_event(g, ni, t, li, ci - 1)]
        } else {
            Seq::empty()
        }
    }
}

/// Errors of the first `ci` chunks of layer `li`.
pub open spec fn chunk_errors_prefix(ni: int, t: TerrainData, li: int, ci: int) -> Seq<BatchError>
    decreases ci,
{
    if ci <= 0 {
        Seq::empty()
    } else {
        chunk_errors_prefix(ni, t, li, ci - 1) + if pair_ok(t, li, ci - 1) {
            Seq::empty()
        } else {
            seq![pair_error(ni, t, li, ci - 1)]
        }
    }
}

/// Events of the first `li` layers of a terrain node.
pub open spec fn layer_events_prefix(g: Graph, ni: int, t: TerrainData, li: int) -> Seq<BatchEvent>
    decreases li,
{
    if li <= 0 {
        Seq::empty()
    } else {
        layer_events_prefix(g, ni, t, li - 1)
            + chunk_events_prefix(g, ni, t, li - 1, t.chunks@.len() as int)
    }
}

/// Errors of the first `li` layers of a terrain node.
pub open spec fn layer_errors_prefix(ni: int, t: TerrainData, li: int) -> Seq<BatchError>
    decreases li,
{
    if li <= 0 {
        Seq::empty()
    } else {
        layer_errors_prefix(ni, t, li - 1)
            + chunk_errors_prefix(ni, t, li - 1, t.chunks@.len() as int)
    }
}

/// Events of the first `si` surfaces of the mesh at node `ni`.
pub open spec fn mesh_events_prefix(g: Graph, ni: int, m: MeshData, si: int) -> Seq<BatchEvent> {
    Seq::new(si as nat, |j: int| mesh_surface_event(g, ni, m, j))
}

/// All events the node at index `ni` contributes, in traversal order.
pub open spec fn node_events(g: Graph, ni: int) -> Seq<BatchEvent> {
    match g.nodes@[ni].kind {
        NodeKind::Mesh(m) => mesh_events_prefix(g, ni, m, m.surfaces@.len() as int),
        NodeKind::Terrain(t) => layer_events_prefix(g, ni, t, t.layers@.len() as int),
        NodeKind::Other => Seq::empty(),
    }
}

/// All errors the node at index `ni` logs.
pub open spec fn node_errors(g: Graph, ni: int) -> Seq<BatchError> {
    match g.nodes@[ni].kind {
        NodeKind::Mesh(_) => Seq::empty(),
        NodeKind::Terrain(t) => layer_errors_prefix(ni, t, t.layers@.len() as int),
        NodeKind::Other => Seq::empty(),
    }
}

/// Events of the first `n` nodes, in traversal order.
pub open spec fn events_prefix(g: Graph, n: int) -> Seq<BatchEvent>
    decreases n,
{
    if n <= 0 {
        Seq::empty()
    } else {
        events_prefix(g, n - 1) + node_events(g, n - 1)
    }
}

/// Errors of the first `n` nodes, in traversal order.
pub open spec fn errors_prefix(g: Graph, n: int) -> Seq<BatchError>
    decreases n,
{
    if n <= 0 {
        Seq::empty()
    } else {
        errors_prefix(g, n - 1) + node_errors(g, n - 1)
    }
}

/// All events one pass over the graph produces.
pub open spec fn graph_events(g: Graph) -> Seq<BatchEvent> {
    events_prefix(g, g.nodes@.len() as int)
}

/// All errors one pass over the graph logs.
pub open spec fn graph_errors(g: Graph) -> Seq<BatchError> {
    errors_prefix(g, g.nodes@.len() as int)
}

} // verus!
