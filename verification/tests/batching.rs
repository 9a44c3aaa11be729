use render_batch::batch::BatchStorage;
use render_batch::material::{Material, MaterialError, MaterialHandle, MaterialProperty, PropertyValue};
use render_batch::math::Mat4;
use render_batch::scene::{
    Graph, MeshData, Node, NodeKind, RenderPath, Surface, TerrainChunk, TerrainData, TerrainLayer,
};

fn diag(d: i64) -> Mat4 {
    let mut entries = vec![0i64; 16];
    entries[0] = d;
    entries[5] = d;
    entries[10] = d;
    entries[15] = d;
    Mat4 { entries }
}

fn node(global: i64, inv_bind: i64, kind: NodeKind) -> Node {
    Node {
        global_transform: diag(global),
        inv_bind_pose_transform: diag(inv_bind),
        kind,
    }
}

fn sampler_material(name: &str, id: u64) -> MaterialHandle {
    MaterialHandle {
        id,
        value: Material {
            properties: vec![MaterialProperty {
                name: name.as_bytes().to_vec(),
                value: PropertyValue::Sampler(None),
            }],
        },
    }
}

fn surface(batch_id: u64, material_id: u64, data: u64) -> Surface {
    Surface {
        data,
        batch_id,
        material: sampler_material("diffuse", material_id),
        bones: Vec::new(),
    }
}

fn mesh_node(surfaces: Vec<Surface>) -> Node {
    node(
        4,
        1,
        NodeKind::Mesh(MeshData {
            surfaces,
            render_path: RenderPath::Forward,
            decal_layer_index: 3,
            depth_offset_factor: 9,
        }),
    )
}

#[test]
fn shared_batch_id_yields_one_batch_with_two_instances() {
    let graph = Graph {
        nodes: vec![mesh_node(vec![surface(7, 42, 100), surface(7, 42, 100)])],
    };
    let mut storage = BatchStorage::new();
    storage.generate_batches(&graph);
    assert_eq!(storage.batches.len(), 1);
    let batch = &storage.batches[0];
    assert_eq!(batch.instances.len(), 2);
    assert_eq!(batch.sort_index, 42);
    assert_eq!(batch.key, 7);
    assert_eq!(batch.data, 100);
    assert!(!batch.is_skinned);
    assert_eq!(batch.render_path, RenderPath::Forward);
    assert_eq!(batch.decal_layer_index, 3);
    assert!(storage.error_log.is_empty());
}

#[test]
fn batches_sorted_ascending_by_sort_index() {
    let graph = Graph {
        nodes: vec![mesh_node(vec![
            surface(1, 30, 10),
            surface(2, 10, 11),
            surface(3, 20, 12),
        ])],
    };
    let mut storage = BatchStorage::new();
    storage.generate_batches(&graph);
    assert_eq!(storage.batches.len(), 3);
    let sorted: Vec<u64> = storage.batches.iter().map(|b| b.sort_index).collect();
    assert_eq!(sorted, vec![10, 20, 30]);
}

#[test]
fn material_refresh_on_reuse_takes_last_visit() {
    // Two surfaces share a geometry batch id but carry different materials:
    // the batch keeps the last-seen material id as its sort key.
    let graph = Graph {
        nodes: vec![mesh_node(vec![surface(7, 5, 100), surface(7, 9, 100)])],
    };
    let mut storage = BatchStorage::new();
    storage.generate_batches(&graph);
    assert_eq!(storage.batches.len(), 1);
    assert_eq!(storage.batches[0].sort_index, 9);
    assert_eq!(storage.batches[0].material.id, 9);
    assert_eq!(storage.batches[0].instances.len(), 2);
}

#[test]
fn skinned_surface_gets_identity_world_and_bone_products() {
    let mut skinned = surface(1, 10, 50);
    skinned.bones = vec![1, 2];
    let graph = Graph {
        nodes: vec![
            mesh_node(vec![skinned]),
            node(2, 3, NodeKind::Other),
            node(5, 7, NodeKind::Other),
        ],
    };
    let mut storage = BatchStorage::new();
    storage.generate_batches(&graph);
    assert_eq!(storage.batches.len(), 1);
    let batch = &storage.batches[0];
    assert!(batch.is_skinned);
    assert_eq!(batch.instances.len(), 1);
    let inst = &batch.instances[0];
    assert_eq!(inst.world_transform.entries, diag(1).entries);
    assert_eq!(inst.bone_matrices.len(), 2);
    assert_eq!(inst.bone_matrices[0].entries, diag(6).entries);
    assert_eq!(inst.bone_matrices[1].entries, diag(35).entries);
    assert_eq!(inst.owner, 0);
    assert_eq!(inst.depth_offset, 9);
}

#[test]
fn static_surface_gets_mesh_global_transform() {
    let graph = Graph {
        nodes: vec![mesh_node(vec![surface(1, 10, 50)])],
    };
    let mut storage = BatchStorage::new();
    storage.generate_batches(&graph);
    let inst = &storage.batches[0].instances[0];
    assert_eq!(inst.world_transform.entries, diag(4).entries);
    assert!(inst.bone_matrices.is_empty());
}

fn terrain_node(layers: Vec<TerrainLayer>, chunks: Vec<TerrainChunk>) -> Node {
    node(
        8,
        1,
        NodeKind::Terrain(TerrainData {
            layers,
            chunks,
            decal_layer_index: 2,
            depth_offset_factor: 4,
        }),
    )
}

fn layer(material_name: &str, mask_name: &str, masks: Vec<u64>) -> TerrainLayer {
    TerrainLayer {
        material: sampler_material(material_name, 77),
        mask_property_name: mask_name.as_bytes().to_vec(),
        chunk_masks: masks,
    }
}

#[test]
fn terrain_produces_one_batch_per_layer_chunk_pair() {
    let graph = Graph {
        nodes: vec![terrain_node(
            vec![layer("mask", "mask", vec![900, 901]), layer("mask", "mask", vec![902, 903])],
            vec![TerrainChunk { data: 500 }, TerrainChunk { data: 501 }],
        )],
    };
    let mut storage = BatchStorage::new();
    storage.generate_batches(&graph);
    assert_eq!(storage.batches.len(), 4);
    assert!(storage.error_log.is_empty());
    let sorted: Vec<u64> = storage.batches.iter().map(|b| b.sort_index).collect();
    assert_eq!(sorted, vec![0, 0, 1, 1]);
    for batch in &storage.batches {
        assert_eq!(batch.instances.len(), 1);
        assert_eq!(batch.render_path, RenderPath::Deferred);
        assert!(!batch.is_skinned);
        assert_eq!(batch.decal_layer_index, 2);
        let inst = &batch.instances[0];
        assert_eq!(inst.world_transform.entries, diag(8).entries);
        assert_eq!(inst.depth_offset, 4);
        assert!(inst.bone_matrices.is_empty());
    }
    // The batch for (layer 0, chunk 0) holds the masked clone: its mask
    // sampler was set to that chunk's mask texture.
    let masks: Vec<PropertyValue> = storage
        .batches
        .iter()
        .map(|b| b.material.value.properties[0].value)
        .collect();
    assert!(masks.contains(&PropertyValue::Sampler(Some(900))));
    assert!(masks.contains(&PropertyValue::Sampler(Some(901))));
    assert!(masks.contains(&PropertyValue::Sampler(Some(902))));
    assert!(masks.contains(&PropertyValue::Sampler(Some(903))));
}

#[test]
fn terrain_failure_is_isolated_to_its_layer() {
    // Layer 0 has the mask property; layer 1 names a property its material
    // does not have. Every (layer 1, chunk) pair logs exactly one error and
    // produces nothing; layer 0 still produces its instances.
    let graph = Graph {
        nodes: vec![terrain_node(
            vec![layer("mask", "mask", vec![900, 901]), layer("mask", "missing", vec![902, 903])],
            vec![TerrainChunk { data: 500 }, TerrainChunk { data: 501 }],
        )],
    };
    let mut storage = BatchStorage::new();
    storage.generate_batches(&graph);
    assert_eq!(storage.batches.len(), 2);
    assert_eq!(storage.error_log.len(), 2);
    for batch in &storage.batches {
        assert_eq!(batch.sort_index, 0);
        assert_eq!(batch.instances.len(), 1);
    }
    assert_eq!(storage.error_log[0].node, 0);
    assert_eq!(storage.error_log[0].layer, 1);
    assert_eq!(storage.error_log[0].chunk, 0);
    assert_eq!(storage.error_log[0].reason, MaterialError::NoSuchProperty);
    assert_eq!(storage.error_log[1].layer, 1);
    assert_eq!(storage.error_log[1].chunk, 1);
}

#[test]
fn terrain_type_mismatch_is_reported() {
    // The layer's mask property exists but holds a scalar: assigning a
    // sampler to it is a type mismatch.
    let bad_layer = TerrainLayer {
        material: MaterialHandle {
            id: 1,
            value: Material {
                properties: vec![MaterialProperty {
                    name: b"mask".to_vec(),
                    value: PropertyValue::Scalar(0),
                }],
            },
        },
        mask_property_name: b"mask".to_vec(),
        chunk_masks: vec![900],
    };
    let graph = Graph {
        nodes: vec![terrain_node(vec![bad_layer], vec![TerrainChunk { data: 500 }])],
    };
    let mut storage = BatchStorage::new();
    storage.generate_batches(&graph);
    assert!(storage.batches.is_empty());
    assert_eq!(storage.error_log.len(), 1);
    assert_eq!(storage.error_log[0].reason, MaterialError::TypeMismatch);
}

#[test]
fn terrain_layers_get_distinct_keys() {
    // Two layers over one chunk share the geometry identity; only the fresh
    // material identities tell their keys apart, through the key hash.
    let graph = Graph {
        nodes: vec![terrain_node(
            vec![layer("mask", "mask", vec![900]), layer("mask", "mask", vec![901])],
            vec![TerrainChunk { data: 500 }],
        )],
    };
    let mut storage = BatchStorage::new();
    storage.generate_batches(&graph);
    assert_eq!(storage.batches.len(), 2);
    assert_ne!(storage.batches[0].key, storage.batches[1].key);
    let sorted: Vec<u64> = storage.batches.iter().map(|b| b.sort_index).collect();
    assert_eq!(sorted, vec![0, 1]);
}

#[test]
fn mixed_graph_skips_other_nodes() {
    let graph = Graph {
        nodes: vec![
            node(1, 1, NodeKind::Other),
            mesh_node(vec![surface(1, 10, 50)]),
            node(1, 1, NodeKind::Other),
        ],
    };
    let mut storage = BatchStorage::new();
    storage.generate_batches(&graph);
    assert_eq!(storage.batches.len(), 1);
    assert_eq!(storage.batches[0].instances[0].owner, 1);
}

#[test]
fn empty_graph_yields_no_batches() {
    let graph = Graph { nodes: Vec::new() };
    let mut storage = BatchStorage::new();
    storage.generate_batches(&graph);
    assert!(storage.batches.is_empty());
    assert!(storage.error_log.is_empty());
}

#[test]
fn regenerating_twice_keeps_the_shape() {
    let graph = Graph {
        nodes: vec![
            mesh_node(vec![surface(1, 30, 10), surface(2, 10, 11), surface(2, 10, 11)]),
            terrain_node(
                vec![layer("mask", "mask", vec![900])],
                vec![TerrainChunk { data: 500 }],
            ),
        ],
    };
    let mut storage = BatchStorage::new();
    storage.generate_batches(&graph);
    let shape1: Vec<(u64, usize)> = storage
        .batches
        .iter()
        .map(|b| (b.sort_index, b.instances.len()))
        .collect();
    storage.generate_batches(&graph);
    let shape2: Vec<(u64, usize)> = storage
        .batches
        .iter()
        .map(|b| (b.sort_index, b.instances.len()))
        .collect();
    assert_eq!(shape1, shape2);
    assert_eq!(storage.batches.len(), 3);
}

#[test]
fn buffer_capacity_is_carried_over() {
    // First pass: batches of sizes [2, 1, 1]. Second pass: one batch grows
    // to 3, the others keep their sizes. No unchanged batch's instance
    // storage may have been reallocated from empty: each ends with capacity
    // at least its previous size.
    let graph1 = Graph {
        nodes: vec![mesh_node(vec![
            surface(1, 10, 50),
            surface(1, 10, 50),
            surface(2, 20, 51),
            surface(3, 30, 52),
        ])],
    };
    let graph2 = Graph {
        nodes: vec![mesh_node(vec![
            surface(1, 10, 50),
            surface(1, 10, 50),
            surface(1, 10, 50),
            surface(2, 20, 51),
            surface(3, 30, 52),
        ])],
    };
    let mut storage = BatchStorage::new();
    storage.generate_batches(&graph1);
    let sizes1: Vec<(u64, usize)> = storage
        .batches
        .iter()
        .map(|b| (b.key, b.instances.len()))
        .collect();
    assert_eq!(storage.batches.iter().map(|b| b.instances.len()).sum::<usize>(), 4);
    storage.generate_batches(&graph2);
    for batch in &storage.batches {
        if batch.key != 1 {
            let previous = sizes1.iter().find(|(k, _)| *k == batch.key).unwrap().1;
            assert_eq!(batch.instances.len(), previous);
            assert!(batch.instances.capacity() >= previous);
        } else {
            assert_eq!(batch.instances.len(), 3);
        }
    }
}

#[test]
fn sixty_four_bones_are_accepted() {
    let mut skinned = surface(1, 10, 50);
    skinned.bones = vec![1; 64];
    let graph = Graph {
        nodes: vec![mesh_node(vec![skinned]), node(2, 3, NodeKind::Other)],
    };
    let mut storage = BatchStorage::new();
    storage.generate_batches(&graph);
    assert_eq!(storage.batches[0].instances[0].bone_matrices.len(), 64);
}

#[test]
fn error_log_is_cleared_each_pass() {
    let graph = Graph {
        nodes: vec![terrain_node(
            vec![layer("mask", "missing", vec![900])],
            vec![TerrainChunk { data: 500 }],
        )],
    };
    let mut storage = BatchStorage::new();
    storage.generate_batches(&graph);
    assert_eq!(storage.error_log.len(), 1);
    storage.generate_batches(&graph);
    assert_eq!(storage.error_log.len(), 1);
}

#[test]
fn every_surface_contributes_exactly_one_instance() {
    let graph = Graph {
        nodes: vec![
            mesh_node(vec![surface(1, 10, 50), surface(1, 10, 50), surface(2, 20, 51)]),
            mesh_node(vec![surface(1, 10, 50), surface(3, 5, 52)]),
        ],
    };
    let mut storage = BatchStorage::new();
    storage.generate_batches(&graph);
    let total: usize = storage.batches.iter().map(|b| b.instances.len()).sum();
    assert_eq!(total, 5);
    assert_eq!(storage.batches.len(), 3);
}
