//! Batch storage: rebuilding the frame's draw batches from the scene graph.
//!
//! `generate_batches` clears last frame's batches (recycling their instance
//! buffers through a pool), walks every node once, groups each renderable
//! occurrence into the batch with its key (creating the batch on first
//! sight, refreshing material and sort key on every sight), then shrinks the
//! instance buffers and sorts the batches by sort key.

use vstd::prelude::*;
use std::collections::HashMap;
use std::hash::Hasher;
use crate::math::Mat4;
use crate::material::MaterialHandle;
use crate::scene::{Graph, NodeKind, RenderPath};
use crate::events::{
    BatchEvent, BatchError, InstanceModel, fx_hash_pair, graph_events, graph_errors,
    events_prefix, errors_prefix, node_events, node_errors, mesh_events_prefix,
    mesh_surface_event, mesh_instance, skinning_matrix, layer_events_prefix,
    layer_errors_prefix, chunk_events_prefix, chunk_errors_prefix, terrain_event, pair_error,
    pair_ok, masked_material, fresh_material_id,
};
use crate::material::PropertyValue;

verus! {

/// One renderable occurrence of a geometry/material pair within a batch.
pub struct SurfaceInstance {
    /// Handle of the scene-graph node this instance came from.
    pub owner: usize,
    /// World-space placement; the identity for skinned instances.
    pub world_transform: Mat4,
    /// Skinning matrices, one per bone in declared order; empty when not skinned.
    pub bone_matrices: Vec<Mat4>,
    /// Depth bias applied at draw time.
    pub depth_offset: i64,
}

impl View for SurfaceInstance {
    type V = InstanceModel;

    open spec fn view(&self) -> InstanceModel {
        InstanceModel {
            owner: self.owner as int,
            world_transform: self.world_transform@,
            bone_matrices: self.bone_matrices@.map_values(|m: Mat4| m@),
            depth_offset: self.depth_offset,
        }
    }
}

/// A group of instances sharing one geometry buffer and one material,
/// drawn together.
pub struct Batch {
    /// The identity key this batch files under; unique within one pass.
    pub key: u64,
    /// Identity of the geometry buffer this batch draws.
    pub data: u64,
    /// Instances in traversal order.
    pub instances: Vec<SurfaceInstance>,
    /// Shared handle to the batch's material.
    pub material: MaterialHandle,
    /// Whether instances carry bone matrices.
    pub is_skinned: bool,
    /// The rendering strategy the batch is drawn with.
    pub render_path: RenderPath,
    /// Which decal layer may affect this batch.
    pub decal_layer_index: u8,
    /// Ordering key: material id for meshes, layer index for terrains.
    pub sort_index: u64,
}

/// The events filed under a batch's key.
pub open spec fn events_for(evs: Seq<BatchEvent>, key: u64) -> Seq<BatchEvent> {
    evs.filter(|e: BatchEvent| e.key == key)
}

/// What a batch holds once the events `evs` have been filed: exactly the
/// instances of the events under its key, in traversal order; creation-time
/// metadata from the first such event; material and sort key refreshed from
/// the last.
pub open spec fn batch_ok(b: Batch, evs: Seq<BatchEvent>) -> bool {
    let f = events_for(evs, b.key);
    &&& f.len() >= 1
    &&& b.instances@.map_values(|si: SurfaceInstance| si@)
        == f.map_values(|e: BatchEvent| e.instance)
    &&& b.data == f[0].data
    &&& b.is_skinned == f[0].is_skinned
    &&& b.render_path == f[0].render_path
    &&& b.decal_layer_index == f[0].decal_layer_index
    &&& b.sort_index == f.last().sort_index
    &&& b.material.id == f.last().material_id
    &&& b.material.value@ == f.last().material
}

/// Owns the frame's batches, the transient key index, and the pool of
/// reusable instance buffers.
pub struct BatchStorage {
    /// Free list of emptied, capacity-retaining instance buffers.
    pub buffers: Vec<Vec<SurfaceInstance>>,
    /// Transient map from batch key to its position in `batches`; valid only
    /// during one generation pass.
    pub batch_map: HashMap<u64, usize>,
    /// The current frame's batches, sorted ascending by sort index.
    pub batches: Vec<Batch>,
    /// One entry per terrain (layer, chunk) pair skipped this pass.
    pub error_log: Vec<BatchError>,
}

/// What `generate_batches` leaves behind, stated over the event model of the
/// graph: batch keys are unique and cover exactly the event keys, each batch
/// groups exactly the events under its key, batches are sorted ascending by
/// sort index, and the error log lists exactly the failing terrain pairs in
/// traversal order.
pub open spec fn regenerated(s: BatchStorage, g: Graph) -> bool {
    let evs = graph_events(g);
    &&& forall|i: int, j: int|
        0 <= i < j < s.batches@.len()
            ==> (#[trigger] s.batches@[i]).key != (#[trigger] s.batches@[j]).key
    &&& forall|k: int|
        0 <= k < evs.len() ==> exists|i: int|
            0 <= i < s.batches@.len() && (#[trigger] s.batches@[i]).key == (#[trigger] evs[k]).key
    &&& forall|i: int| 0 <= i < s.batches@.len() ==> batch_ok(#[trigger] s.batches@[i], evs)
    &&& forall|i: int, j: int|
        0 <= i < j < s.batches@.len()
            ==> (#[trigger] s.batches@[i]).sort_index <= (#[trigger] s.batches@[j]).sort_index
    &&& s.error_log@ == graph_errors(g)
}

/// Relies on `fxhash::FxHasher64`: hashing two 64-bit words mixes fixed-width
/// words with constant multipliers from a zero seed, so the result is a
/// function of the two words alone, on every machine.
#[verifier::external_body]
fn fx_pair(a: u64, b: u64) -> (r: u64)
    ensures
        r == fx_hash_pair(a, b),
{
    let mut hasher = fxhash::FxHasher64::default();
    hasher.write_u64(a);
    hasher.write_u64(b);
    hasher.finish()
}

/// Relies on `Vec::shrink_to_fit`: it may release excess capacity but never
/// changes the contents.
#[verifier::external_body]
fn shrink_instances(v: &mut Vec<SurfaceInstance>)
    ensures
        final(v)@ == old(v)@,
{
    v.shrink_to_fit();
}

impl BatchStorage {
    /// Empty storage: no batches, no pooled buffers, no errors.
    pub fn new() -> (s: BatchStorage)
        ensures
            s.batches@.len() == 0,
            s.error_log@.len() == 0,
    {
        BatchStorage {
            buffers: Vec::new(),
            batch_map: HashMap::new(),
            batches: Vec::new(),
            error_log: Vec::new(),
        }
    }

    /// The mid-pass invariant: the key index is a bijection between the keys
    /// and the positions of the batches built so far, every event filed so
    /// far has its key in the index, and every batch groups exactly the
    /// events filed under its key.
    spec fn inv(&self, evs: Seq<BatchEvent>) -> bool {
        &&& forall|i: int|
            0 <= i < self.batches@.len() ==> {
                &&& self.batch_map@.contains_key((#[trigger] self.batches@[i]).key)
                &&& self.batch_map@[self.batches@[i].key] == i
            }
        &&& forall|k: u64|
            self.batch_map@.contains_key(k) ==> {
                &&& (#[trigger] self.batch_map@[k]) < self.batches@.len()
                &&& self.batches@[self.batch_map@[k] as int].key == k
            }
        &&& forall|k: int|
            0 <= k < evs.len() ==> self.batch_map@.contains_key((#[trigger] evs[k]).key)
        &&& forall|i: int| 0 <= i < self.batches@.len() ==> batch_ok(#[trigger] self.batches@[i], evs)
    }

    /// Files one event: finds or creates the batch under `key`, refreshes
    /// its material and sort key, and appends the instance.
    fn record(
        &mut self,
        key: u64,
        data: u64,
        material: MaterialHandle,
        sort_index: u64,
        is_skinned: bool,
        render_path: RenderPath,
        decal_layer_index: u8,
        instance: SurfaceInstance,
        Ghost(evs): Ghost<Seq<BatchEvent>>,
    )
        requires
            old(self).inv(evs),
        ensures
            final(self).inv(
                evs.push(
                    BatchEvent {
                        key,
                        data,
                        material_id: material.id,
                        material: material.value@,
                        sort_index,
                        is_skinned,
                        render_path,
                        decal_layer_index,
                        instance: instance@,
                    },
                ),
            ),
            final(self).error_log == old(self).error_log,
    {
        broadcast use vstd::std_specs::hash::group_hash_axioms;

        let ghost ev = BatchEvent {
            key,
            data,
            material_id: material.id,
            material: material.value@,
            sort_index,
            is_skinned,
            render_path,
            decal_layer_index,
            instance: instance@,
        };
        let ghost evs2 = evs.push(ev);
        proof {
            lemma_filter_push(evs, ev, |e: BatchEvent| e.key == key);
            assert forall|k2: u64| k2 != key implies events_for(evs2, k2) == events_for(evs, k2) by {
                lemma_filter_push(evs, ev, |e: BatchEvent| e.key == k2);
            }
        }
        let existing = match self.batch_map.get(&key) {
            Some(idx) => Some(*idx),
            None => None,
        };
        match existing {
            Some(idx) => {
                let ghost f = events_for(evs, key);
                let b = &mut self.batches[idx];
                b.sort_index = sort_index;
                b.material = material;
                b.instances.push(instance);
                proof {
                    let bnew = self.batches@[idx as int];
                    assert(bnew.instances@.map_values(|si: SurfaceInstance| si@)
                        =~= f.map_values(|e: BatchEvent| e.instance).push(instance@));
                    assert(events_for(evs2, key).map_values(|e: BatchEvent| e.instance)
                        =~= f.map_values(|e: BatchEvent| e.instance).push(ev.instance));
                    assert(events_for(evs2, key)[0] == f[0]);
                    assert(events_for(evs2, key).last() == ev);
                    assert(batch_ok(bnew, evs2));
                    assert forall|i: int|
                        0 <= i < self.batches@.len() implies batch_ok(
                        #[trigger] self.batches@[i],
                        evs2,
                    ) by {
                        if i != idx {
                            assert(self.batches@[i] == old(self).batches@[i]);
                            assert(self.batches@[i].key != key);
                            assert(events_for(evs2, self.batches@[i].key)
                                == events_for(evs, self.batches@[i].key));
                        }
                    }
                }
            },
            None => {
                proof {
                    assert forall|k: int|
                        0 <= k < evs.len() implies (#[trigger] evs[k]).key != key by {
                        assert(self.batch_map@.contains_key(evs[k].key));
                    }
                    lemma_filter_all_false(evs, |e: BatchEvent| e.key == key);
                    assert(events_for(evs2, key) =~= seq![ev]);
                }
                let mut instances = match self.buffers.pop() {
                    Some(buf) => buf,
                    None => Vec::new(),
                };
                instances.clear();
                let mut b = Batch {
                    key,
                    data,
                    instances,
                    material,
                    is_skinned,
                    render_path,
                    decal_layer_index,
                    sort_index,
                };
                b.instances.push(instance);
                let idx = self.batches.len();
                self.batch_map.insert(key, idx);
                self.batches.push(b);
                proof {
                    let bnew = self.batches@[idx as int];
                    assert(bnew.instances@.map_values(|si: SurfaceInstance| si@)
                        =~= seq![ev].map_values(|e: BatchEvent| e.instance));
                    assert(batch_ok(bnew, evs2));
                    assert forall|i: int|
                        0 <= i < self.batches@.len() implies batch_ok(
                        #[trigger] self.batches@[i],
                        evs2,
                    ) by {
                        if i != idx {
                            assert(self.batches@[i] == old(self).batches@[i]);
                            assert(old(self).batch_map@.contains_key(self.batches@[i].key));
                            assert(self.batches@[i].key != key);
                            assert(events_for(evs2, self.batches@[i].key)
                                == events_for(evs, self.batches@[i].key));
                        }
                    }
                }
            },
        }
    }
}

impl BatchStorage {
    /// Rebuilds `batches` in place from the graph: clears last frame's
    /// batches into the buffer pool, walks every node once filing each
    /// renderable occurrence under its batch key, logs one error per failing
    /// terrain (layer, chunk) pair, then shrinks instance storage to fit and
    /// sorts the batches ascending by sort index.
    pub fn generate_batches(&mut self, graph: &Graph)
        requires
            graph.wf(),
        ensures
            regenerated(*final(self), *graph),
    {
        broadcast use vstd::std_specs::hash::group_hash_axioms;

        // Step 1: reclaim every instance buffer into the pool, clear the
        // batch list and the key index.
        while self.batches.len() > 0
            decreases self.batches@.len(),
        {
            let mut batch = self.batches.pop().unwrap();
            batch.instances.clear();
            self.buffers.push(batch.instances);
        }
        self.batch_map.clear();
        self.error_log.clear();

        // Steps 2-4: walk every node once, filing each renderable occurrence.
        let n = graph.nodes.len();
        let mut ni: usize = 0;
        while ni < n
            invariant
                graph.wf(),
                n == graph.nodes@.len(),
                ni <= n,
                self.inv(events_prefix(*graph, ni as int)),
                self.error_log@ == errors_prefix(*graph, ni as int),
            decreases n - ni,
        {
            let ghost g = *graph;
            let ghost evs_n = events_prefix(g, ni as int);
            match &graph.nodes[ni].kind {
                NodeKind::Mesh(mesh) => {
                    let ghost m = *mesh;
                    let sc = mesh.surfaces.len();
                    let mut si: usize = 0;
                    while si < sc
                        invariant
                            g == *graph,
                            graph.wf(),
                            ni < graph.nodes@.len(),
                            graph.nodes@[ni as int].kind == NodeKind::Mesh(m),
                            m == *mesh,
                            sc == m.surfaces@.len(),
                            si <= sc,
                            evs_n == events_prefix(g, ni as int),
                            self.inv(evs_n + mesh_events_prefix(g, ni as int, m, si as int)),
                            self.error_log@ == errors_prefix(g, ni as int),
                        decreases sc - si,
                    {
                        let ghost evs_cur = evs_n + mesh_events_prefix(g, ni as int, m, si as int);
                        let surface = &mesh.surfaces[si];
                        let ghost s = m.surfaces@[si as int];
                        proof {
                            assert(graph.nodes@[ni as int].wf(graph.nodes@.len() as int));
                            assert(s.wf(graph.nodes@.len() as int));
                        }
                        let is_skinned = surface.bones.len() > 0;
                        let world = if is_skinned {
                            Mat4::identity()
                        } else {
                            graph.nodes[ni].global_transform.duplicate()
                        };
                        let bc = surface.bones.len();
                        let mut bone_matrices: Vec<Mat4> = Vec::new();
                        let mut bi: usize = 0;
                        while bi < bc
                            invariant
                                g == *graph,
                                graph.wf(),
                                ni < graph.nodes@.len(),
                                graph.nodes@[ni as int].kind == NodeKind::Mesh(m),
                                si < m.surfaces@.len(),
                                s == m.surfaces@[si as int],
                                s == *surface,
                                s.wf(graph.nodes@.len() as int),
                                bc == s.bones@.len(),
                                bi <= bc,
                                bone_matrices@.map_values(|mm: Mat4| mm@) == Seq::new(
                                    bi as nat,
                                    |k: int| skinning_matrix(g, s.bones@[k] as int),
                                ),
                            decreases bc - bi,
                        {
                            let ghost before = bone_matrices@.map_values(|mm: Mat4| mm@);
                            let bh = surface.bones[bi];
                            proof {
                                assert(s.bones@[bi as int] < graph.nodes@.len());
                                assert(graph.nodes@[bh as int].wf(graph.nodes@.len() as int));
                            }
                            let bn = &graph.nodes[bh];
                            let sm = crate::math::mat_mul(
                                &bn.global_transform,
                                &bn.inv_bind_pose_transform,
                            );
                            bone_matrices.push(sm);
                            proof {
                                assert(bone_matrices@.map_values(|mm: Mat4| mm@) =~= before.push(
                                    skinning_matrix(g, s.bones@[bi as int] as int),
                                ));
                                assert(bone_matrices@.map_values(|mm: Mat4| mm@) =~= Seq::new(
                                    (bi + 1) as nat,
                                    |k: int| skinning_matrix(g, s.bones@[k] as int),
                                ));
                            }
                            bi += 1;
                        }
                        let material = surface.material.duplicate();
                        let sort_index = material.id;
                        let instance = SurfaceInstance {
                            owner: ni,
                            world_transform: world,
                            bone_matrices,
                            depth_offset: mesh.depth_offset_factor,
                        };
                        let ghost ev = BatchEvent {
                            key: s.batch_id,
                            data: s.data,
                            material_id: material.id,
                            material: material.value@,
                            sort_index,
                            is_skinned,
                            render_path: m.render_path,
                            decal_layer_index: m.decal_layer_index,
                            instance: instance@,
                        };
                        proof {
                            assert(instance@.bone_matrices =~= mesh_instance(g, ni as int, m, s)
                                .bone_matrices);
                            assert(instance@ == mesh_instance(g, ni as int, m, s));
                            assert(ev == mesh_surface_event(g, ni as int, m, si as int));
                        }
                        self.record(
                            surface.batch_id,
                            surface.data,
                            material,
                            sort_index,
                            is_skinned,
                            mesh.render_path,
                            mesh.decal_layer_index,
                            instance,
                            Ghost(evs_cur),
                        );
                        proof {
                            assert(mesh_events_prefix(g, ni as int, m, si + 1)
                                =~= mesh_events_prefix(g, ni as int, m, si as int).push(
                                mesh_surface_event(g, ni as int, m, si as int),
                            ));
                            assert(evs_cur.push(ev) =~= evs_n + mesh_events_prefix(
                                g,
                                ni as int,
                                m,
                                si + 1,
                            ));
                        }
                        si += 1;
                    }
                    proof {
                        assert(node_events(g, ni as int) == mesh_events_prefix(
                            g,
                            ni as int,
                            m,
                            m.surfaces@.len() as int,
                        ));
                        assert(events_prefix(g, ni + 1) == evs_n + node_events(g, ni as int));
                        assert(node_errors(g, ni as int) =~= Seq::<BatchError>::empty());
                        assert(errors_prefix(g, ni + 1) =~= errors_prefix(g, ni as int));
                    }
                },
                NodeKind::Terrain(terrain) => {
                    let ghost t = *terrain;
                    let lc = terrain.layers.len();
                    let cc = terrain.chunks.len();
                    let mut li: usize = 0;
                    while li < lc
                        invariant
                            g == *graph,
                            graph.wf(),
                            ni < graph.nodes@.len(),
                            graph.nodes@[ni as int].kind == NodeKind::Terrain(t),
                            t == *terrain,
                            lc == t.layers@.len(),
                            cc == t.chunks@.len(),
                            li <= lc,
                            evs_n == events_prefix(g, ni as int),
                            self.inv(evs_n + layer_events_prefix(g, ni as int, t, li as int)),
                            self.error_log@ == errors_prefix(g, ni as int) + layer_errors_prefix(
                                ni as int,
                                t,
                                li as int,
                            ),
                        decreases lc - li,
                    {
                        let ghost levs = layer_events_prefix(g, ni as int, t, li as int);
                        let ghost lerrs = layer_errors_prefix(ni as int, t, li as int);
                        let layer = &terrain.layers[li];
                        let mut ci: usize = 0;
                        while ci < cc
                            invariant
                                g == *graph,
                                graph.wf(),
                                ni < graph.nodes@.len(),
                                graph.nodes@[ni as int].kind == NodeKind::Terrain(t),
                                t == *terrain,
                                lc == t.layers@.len(),
                                cc == t.chunks@.len(),
                                li < lc,
                                ci <= cc,
                                *layer == t.layers@[li as int],
                                evs_n == events_prefix(g, ni as int),
                                levs == layer_events_prefix(g, ni as int, t, li as int),
                                lerrs == layer_errors_prefix(ni as int, t, li as int),
                                self.inv(
                                    evs_n + levs + chunk_events_prefix(
                                        g,
                                        ni as int,
                                        t,
                                        li as int,
                                        ci as int,
                                    ),
                                ),
                                self.error_log@ == errors_prefix(g, ni as int) + lerrs
                                    + chunk_errors_prefix(ni as int, t, li as int, ci as int),
                            decreases cc - ci,
                        {
                            let ghost evs_cur = evs_n + levs + chunk_events_prefix(
                                g,
                                ni as int,
                                t,
                                li as int,
                                ci as int,
                            );
                            proof {
                                assert(graph.nodes@[ni as int].wf(graph.nodes@.len() as int));
                                assert(t.layers@[li as int].chunk_masks@.len() == cc);
                            }
                            let chunk = &terrain.chunks[ci];
                            let mut mat = layer.material.value.duplicate();
                            let mask = layer.chunk_masks[ci];
                            match mat.set_property(
                                &layer.mask_property_name,
                                PropertyValue::Sampler(Some(mask)),
                            ) {
                                Ok(_) => {
                                    proof {
                                        assert(pair_ok(t, li as int, ci as int));
                                        assert(mat@ == masked_material(
                                            t,
                                            li as int,
                                            ci as int,
                                        )->Ok_0);
                                    }
                                    let mat_id = fx_pair(
                                        fx_pair(ni as u64, li as u64),
                                        ci as u64,
                                    );
                                    let key = fx_pair(mat_id, chunk.data);
                                    let material = MaterialHandle { id: mat_id, value: mat };
                                    let world = graph.nodes[ni].global_transform.duplicate();
                                    let instance = SurfaceInstance {
                                        owner: ni,
                                        world_transform: world,
                                        bone_matrices: Vec::new(),
                                        depth_offset: terrain.depth_offset_factor,
                                    };
                                    let ghost ev = BatchEvent {
                                        key,
                                        data: chunk.data,
                                        material_id: material.id,
                                        material: material.value@,
                                        sort_index: li as u64,
                                        is_skinned: false,
                                        render_path: RenderPath::Deferred,
                                        decal_layer_index: terrain.decal_layer_index,
                                        instance: instance@,
                                    };
                                    proof {
                                        assert(mat_id == fresh_material_id(
                                            ni as int,
                                            li as int,
                                            ci as int,
                                        ));
                                        assert(instance@.bone_matrices
                                            =~= Seq::<Seq<i64>>::empty());
                                        assert(instance@ == terrain_event(
                                            g,
                                            ni as int,
                                            t,
                                            li as int,
                                            ci as int,
                                        ).instance);
                                        assert(ev == terrain_event(
                                            g,
                                            ni as int,
                                            t,
                                            li as int,
                                            ci as int,
                                        ));
                                    }
                                    self.record(
                                        key,
                                        chunk.data,
                                        material,
                                        li as u64,
                                        false,
                                        RenderPath::Deferred,
                                        terrain.decal_layer_index,
                                        instance,
                                        Ghost(evs_cur),
                                    );
                                    proof {
                                        assert(chunk_events_prefix(
                                            g,
                                            ni as int,
                                            t,
                                            li as int,
                                            ci + 1,
                                        ) =~= chunk_events_prefix(
                                            g,
                                            ni as int,
                                            t,
                                            li as int,
                                            ci as int,
                                        ).push(terrain_event(g, ni as int, t, li as int, ci as int)));
                                        assert(evs_cur.push(ev) =~= evs_n + levs
                                            + chunk_events_prefix(
                                            g,
                                            ni as int,
                                            t,
                                            li as int,
                                            ci + 1,
                                        ));
                                        assert(chunk_errors_prefix(
                                            ni as int,
                                            t,
                                            li as int,
                                            ci + 1,
                                        ) =~= chunk_errors_prefix(ni as int, t, li as int, ci as int));
                                    }
                                },
                                Err(reason) => {
                                    proof {
                                        assert(!pair_ok(t, li as int, ci as int));
                                        assert(reason == masked_material(
                                            t,
                                            li as int,
                                            ci as int,
                                        )->Err_0);
                                    }
                                    self.error_log.push(
                                        BatchError { node: ni, layer: li, chunk: ci, reason },
                                    );
                                    proof {
                                        assert(BatchError { node: ni, layer: li, chunk: ci, reason }
                                            == pair_error(ni as int, t, li as int, ci as int));
                                        assert(chunk_errors_prefix(
                                            ni as int,
                                            t,
                                            li as int,
                                            ci + 1,
                                        ) =~= chunk_errors_prefix(
                                            ni as int,
                                            t,
                                            li as int,
                                            ci as int,
                                        ).push(pair_error(ni as int, t, li as int, ci as int)));
                                        assert(self.error_log@ =~= errors_prefix(g, ni as int)
                                            + lerrs + chunk_errors_prefix(
                                            ni as int,
                                            t,
                                            li as int,
                                            ci + 1,
                                        ));
                                        assert(chunk_events_prefix(
                                            g,
                                            ni as int,
                                            t,
                                            li as int,
                                            ci + 1,
                                        ) =~= chunk_events_prefix(
                                            g,
                                            ni as int,
                                            t,
                                            li as int,
                                            ci as int,
                                        ));
                                    }
                                },
                            }
                            ci += 1;
                        }
                        proof {
                            assert(layer_events_prefix(g, ni as int, t, li + 1) == levs
                                + chunk_events_prefix(g, ni as int, t, li as int, cc as int));
                            assert(evs_n + levs + chunk_events_prefix(
                                g,
                                ni as int,
                                t,
                                li as int,
                                cc as int,
                            ) =~= evs_n + layer_events_prefix(g, ni as int, t, li + 1));
                            assert(layer_errors_prefix(ni as int, t, li + 1) == lerrs
                                + chunk_errors_prefix(ni as int, t, li as int, cc as int));
                            assert(errors_prefix(g, ni as int) + lerrs + chunk_errors_prefix(
                                ni as int,
                                t,
                                li as int,
                                cc as int,
                            ) =~= errors_prefix(g, ni as int) + layer_errors_prefix(
                                ni as int,
                                t,
                                li + 1,
                            ));
                        }
                        li += 1;
                    }
                    proof {
                        assert(node_events(g, ni as int) == layer_events_prefix(
                            g,
                            ni as int,
                            t,
                            t.layers@.len() as int,
                        ));
                        assert(node_errors(g, ni as int) == layer_errors_prefix(
                            ni as int,
                            t,
                            t.layers@.len() as int,
                        ));
                        assert(events_prefix(g, ni + 1) == evs_n + node_events(g, ni as int));
                        assert(errors_prefix(g, ni + 1) =~= self.error_log@);
                    }
                },
                NodeKind::Other => {
                    proof {
                        assert(node_events(g, ni as int) =~= Seq::<BatchEvent>::empty());
                        assert(node_errors(g, ni as int) =~= Seq::<BatchError>::empty());
                        assert(evs_n + node_events(g, ni as int) =~= evs_n);
                        assert(events_prefix(g, ni + 1) == evs_n + node_events(g, ni as int));
                        assert(errors_prefix(g, ni + 1) =~= errors_prefix(g, ni as int));
                    }
                },
            }
            ni += 1;
        }
        let ghost evs = graph_events(*graph);
        proof {
            assert(self.inv(evs));
        }

        // Step 5: shrink every batch's instance storage to fit, then sort
        // ascending by sort index.
        let bn = self.batches.len();
        let mut i: usize = 0;
        while i < bn
            invariant
                bn == self.batches@.len(),
                i <= bn,
                self.inv(evs),
                self.error_log@ == graph_errors(*graph),
            decreases bn - i,
        {
            let ghost before = self.batches@;
            let b = &mut self.batches[i];
            shrink_instances(&mut b.instances);
            proof {
                assert forall|j: int|
                    0 <= j < self.batches@.len() implies batch_ok(
                    #[trigger] self.batches@[j],
                    evs,
                ) by {
                    if j == i {
                        assert(self.batches@[j].instances@ == before[j].instances@);
                        assert(batch_ok(before[j], evs));
                    } else {
                        assert(self.batches@[j] == before[j]);
                    }
                }
            }
            i += 1;
        }
        let ghost pre = self.batches@;
        sort_batches(&mut self.batches);
        proof {
            broadcast use vstd::seq_lib::group_to_multiset_ensures;

            let post = self.batches@;
            assert forall|p: int, q: int| 0 <= p < q < pre.len() implies (
            #[trigger] pre[p]).key != (#[trigger] pre[q]).key by {
                assert(self.batch_map@[pre[p].key] == p);
                assert(self.batch_map@[pre[q].key] == q);
            }
            assert(pre.no_duplicates());
            pre.lemma_multiset_has_no_duplicates();
            assert forall|x: Batch| post.to_multiset().contains(x) implies post.to_multiset().count(
                x,
            ) == 1 by {
                assert(pre.to_multiset().contains(x));
            }
            post.lemma_multiset_has_no_duplicates_conv();
            assert forall|i2: int|
                0 <= i2 < post.len() implies batch_ok(#[trigger] post[i2], evs) by {
                assert(post.contains(post[i2]));
                assert(post.to_multiset().count(post[i2]) > 0);
                assert(pre.to_multiset().count(post[i2]) > 0);
                assert(pre.contains(post[i2]));
                let p = choose|p: int| 0 <= p < pre.len() && pre[p] == post[i2];
                assert(batch_ok(pre[p], evs));
            }
            assert forall|i2: int, j2: int|
                0 <= i2 < j2 < post.len() implies (#[trigger] post[i2]).key != (
            #[trigger] post[j2]).key by {
                assert(post[i2] != post[j2]);
                if post[i2].key == post[j2].key {
                    assert(post.contains(post[i2]) && post.contains(post[j2]));
                    assert(pre.to_multiset().count(post[i2]) > 0 && pre.to_multiset().count(
                        post[j2],
                    ) > 0);
                    assert(pre.contains(post[i2]) && pre.contains(post[j2]));
                    let p = choose|p: int| 0 <= p < pre.len() && pre[p] == post[i2];
                    let q = choose|q: int| 0 <= q < pre.len() && pre[q] == post[j2];
                    assert(p != q);
                    assert(pre[p].key != pre[q].key);
                }
            }
            assert forall|k: int| 0 <= k < evs.len() implies exists|i2: int|
                0 <= i2 < post.len() && (#[trigger] post[i2]).key == (#[trigger] evs[k]).key by {
                let key = evs[k].key;
                assert(self.batch_map@.contains_key(key));
                let p = self.batch_map@[key] as int;
                assert(pre[p].key == key);
                assert(pre.contains(pre[p]));
                assert(pre.to_multiset().count(pre[p]) > 0);
                assert(post.to_multiset().count(pre[p]) > 0);
                assert(post.contains(pre[p]));
                let i2 = choose|i2: int| 0 <= i2 < post.len() && post[i2] == pre[p];
                assert(post[i2].key == key);
            }
        }
    }
}

impl Default for BatchStorage {
    /// Same as `BatchStorage::new`: empty storage.
    fn default() -> (s: BatchStorage)
        ensures
            s.batches@.len() == 0,
            s.error_log@.len() == 0,
    {
        BatchStorage::new()
    }
}

/// Sorts batches ascending by sort index; the result is a permutation of the
/// input.
fn sort_batches(v: &mut Vec<Batch>)
    ensures
        final(v)@.to_multiset() == old(v)@.to_multiset(),
        final(v)@.len() == old(v)@.len(),
        forall|p: int, q: int|
            0 <= p < q < final(v)@.len()
                ==> (#[trigger] final(v)@[p]).sort_index <= (#[trigger] final(v)@[q]).sort_index,
{
    broadcast use vstd::seq_lib::group_to_multiset_ensures;
    broadcast use vstd::multiset::group_multiset_axioms;

    let ghost orig = v@;
    if v.len() <= 1 {
        return ;
    }
    let mut i: usize = 1;
    while i < v.len()
        invariant
            1 <= i <= orig.len(),
            v@.len() == orig.len(),
            v@.to_multiset() == orig.to_multiset(),
            forall|p: int, q: int|
                0 <= p < q < i ==> (#[trigger] v@[p]).sort_index <= (#[trigger] v@[q]).sort_index,
        decreases orig.len() - i,
    {
        let ghost entry = v@;
        let x = v.remove(i);
        let ghost removed = v@;
        proof {
            assert(x == entry[i as int]);
            assert(removed == entry.remove(i as int));
            vstd::seq_lib::to_multiset_remove(entry, i as int);
            assert(removed.to_multiset() == entry.to_multiset().remove(x));
            assert forall|p: int, q: int|
                0 <= p < q < i implies (#[trigger] removed[p]).sort_index
                <= (#[trigger] removed[q]).sort_index by {
                assert(removed[p] == entry[p]);
                assert(removed[q] == entry[q]);
            }
        }
        let mut j: usize = i;
        while j > 0 && v[j - 1].sort_index > x.sort_index
            invariant
                j <= i,
                i < orig.len(),
                v@ == removed,
                removed.len() == orig.len() - 1,
                forall|q: int| j <= q < i ==> (#[trigger] v@[q]).sort_index > x.sort_index,
            decreases j,
        {
            j -= 1;
        }
        v.insert(j, x);
        proof {
            vstd::seq_lib::to_multiset_insert(removed, j as int, x);
            vstd::seq_lib::to_multiset_contains(entry, x);
            assert(entry.to_multiset().count(x) > 0) by {
                assert(entry[i as int] == x);
                assert(entry.contains(x));
            }
            assert(v@.to_multiset() =~= entry.to_multiset());
            assert forall|p: int, q: int|
                0 <= p < q < i + 1 implies (#[trigger] v@[p]).sort_index
                <= (#[trigger] v@[q]).sort_index by {
                if q < j {
                    assert(v@[p] == removed[p] && v@[q] == removed[q]);
                } else if q == j {
                    assert(v@[q] == x);
                    assert(v@[p] == removed[p]);
                    assert(removed[j - 1].sort_index <= x.sort_index);
                    assert(removed[p].sort_index <= removed[j - 1].sort_index);
                } else {
                    assert(v@[q] == removed[q - 1]);
                    if p < j {
                        assert(v@[p] == removed[p]);
                    } else if p == j {
                        assert(v@[p] == x);
                        if q - 1 < i {
                            assert(removed[q - 1].sort_index > x.sort_index);
                        }
                    } else {
                        assert(v@[p] == removed[p - 1]);
                    }
                }
            }
        }
        i += 1;
    }
}

/// Filtering past a pushed element keeps the filtered prefix and appends the
/// element exactly when it matches.
pub proof fn lemma_filter_push<A>(s: Seq<A>, x: A, pred: spec_fn(A) -> bool)
    ensures
        s.push(x).filter(pred) == if pred(x) {
            s.filter(pred).push(x)
        } else {
            s.filter(pred)
        },
{
    reveal(Seq::filter);
    assert(s.push(x).drop_last() =~= s);
    assert(s.push(x).last() == x);
}

/// A sequence none of whose elements match filters to the empty sequence.
proof fn lemma_filter_all_false<A>(s: Seq<A>, pred: spec_fn(A) -> bool)
    requires
        forall|i: int| 0 <= i < s.len() ==> !pred(#[trigger] s[i]),
    ensures
        s.filter(pred).len() == 0,
    decreases s.len(),
{
    reveal(Seq::filter);
    if s.len() > 0 {
        assert(forall|i: int| 0 <= i < s.drop_last().len() ==> !pred(#[trigger] s.drop_last()[i]));
        lemma_filter_all_false(s.drop_last(), pred);
    }
}

/// Every element of a filtered sequence occurs in the original.
pub proof fn lemma_filter_subset<A>(s: Seq<A>, pred: spec_fn(A) -> bool, i: int)
    requires
        0 <= i < s.filter(pred).len(),
    ensures
        exists|j: int| 0 <= j < s.len() && s[j] == s.filter(pred)[i],
    decreases s.len(),
{
    reveal(Seq::filter);
    if s.len() > 0 {
        let sub = s.drop_last().filter(pred);
        if i < sub.len() {
            lemma_filter_subset(s.drop_last(), pred, i);
            let j = choose|j: int| 0 <= j < s.drop_last().len() && s.drop_last()[j] == sub[i];
            assert(s[j] == s.filter(pred)[i]);
        } else {
            assert(s[s.len() - 1] == s.filter(pred)[i]);
        }
    }
}

} // verus!
