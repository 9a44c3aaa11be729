//! The library's laws: properties of regeneration proved once and for all,
//! stated over the event model that `generate_batches`' contract uses.

use vstd::prelude::*;
use crate::scene::{Graph, MeshData, TerrainData};
use crate::batch::{
    Batch, BatchStorage, regenerated, batch_ok, events_for, lemma_filter_subset,
    lemma_filter_push,
};
use crate::events::BatchEvent;
use crate::events::{
    graph_events, mesh_surface_event, terrain_event, pair_error, pair_ok, chunk_events_prefix,
    chunk_errors_prefix,
};
use crate::math::{mat_identity, mat_mul_spec};

verus! {

/// Uniqueness: after regeneration no two batches share a key, so each
/// event's key — for a mesh surface, its geometry batch id — names exactly
/// one batch, and all surfaces sharing a geometry batch id end up in it.
pub proof fn lemma_unique_batch_per_key(s: BatchStorage, g: Graph, k: int)
    requires
        regenerated(s, g),
        0 <= k < graph_events(g).len(),
    ensures
        exists|i: int|
            0 <= i < s.batches@.len() && (#[trigger] s.batches@[i]).key == graph_events(g)[k].key,
        forall|i: int, j: int|
            0 <= i < s.batches@.len() && 0 <= j < s.batches@.len()
                && (#[trigger] s.batches@[i]).key == graph_events(g)[k].key
                && (#[trigger] s.batches@[j]).key == graph_events(g)[k].key ==> i == j,
{
    assert forall|i: int, j: int|
        0 <= i < s.batches@.len() && 0 <= j < s.batches@.len()
            && (#[trigger] s.batches@[i]).key == graph_events(g)[k].key
            && (#[trigger] s.batches@[j]).key == graph_events(g)[k].key implies i == j by {
        if i < j {
            assert(s.batches@[i].key != s.batches@[j].key);
        } else if j < i {
            assert(s.batches@[j].key != s.batches@[i].key);
        }
    }
}

/// A mesh surface's event files under the surface's geometry batch id, so
/// surfaces sharing a geometry buffer share a batch regardless of which
/// node references them.
pub proof fn lemma_mesh_key_is_batch_id(g: Graph, ni: int, m: MeshData, si: int)
    ensures
        mesh_surface_event(g, ni, m, si).key == m.surfaces@[si].batch_id,
{
}

/// Completeness: every event contributes exactly one instance, to the one
/// batch under its key — that batch's instances are exactly the instances
/// of the events under its key, in traversal order.
pub proof fn lemma_event_instances(s: BatchStorage, g: Graph, i: int)
    requires
        regenerated(s, g),
        0 <= i < s.batches@.len(),
    ensures
        s.batches@[i].instances@.map_values(|si: crate::batch::SurfaceInstance| si@)
            == events_for(graph_events(g), s.batches@[i].key).map_values(
            |e: crate::events::BatchEvent| e.instance,
        ),
        s.batches@[i].instances@.len() == events_for(graph_events(g), s.batches@[i].key).len(),
{
    assert(batch_ok(s.batches@[i], graph_events(g)));
    assert(s.batches@[i].instances@.map_values(|si: crate::batch::SurfaceInstance| si@).len()
        == s.batches@[i].instances@.len());
    assert(events_for(graph_events(g), s.batches@[i].key).map_values(
        |e: crate::events::BatchEvent| e.instance,
    ).len() == events_for(graph_events(g), s.batches@[i].key).len());
}

/// Completeness for terrain: across the first `ci` chunks of a layer, the
/// instance events and the logged errors add up to exactly one contribution
/// per (layer, chunk) pair — never both, never neither.
pub proof fn lemma_terrain_pair_accounting(g: Graph, ni: int, t: TerrainData, li: int, ci: int)
    requires
        0 <= ci,
    ensures
        chunk_events_prefix(g, ni, t, li, ci).len() + chunk_errors_prefix(ni, t, li, ci).len()
            == ci,
    decreases ci,
{
    if ci > 0 {
        lemma_terrain_pair_accounting(g, ni, t, li, ci - 1);
    }
}

/// Terrain failure isolation: a failing (layer, chunk) pair adds exactly one
/// error and no instance event; a succeeding pair adds exactly one instance
/// event and no error. Either way, the contributions of every other pair
/// stand unchanged.
pub proof fn lemma_terrain_pair_exclusive(g: Graph, ni: int, t: TerrainData, li: int, ci: int)
    requires
        0 <= ci,
    ensures
        pair_ok(t, li, ci) ==> {
            &&& chunk_events_prefix(g, ni, t, li, ci + 1) == chunk_events_prefix(
                g,
                ni,
                t,
                li,
                ci,
            ).push(terrain_event(g, ni, t, li, ci))
            &&& chunk_errors_prefix(ni, t, li, ci + 1) == chunk_errors_prefix(ni, t, li, ci)
        },
        !pair_ok(t, li, ci) ==> {
            &&& chunk_events_prefix(g, ni, t, li, ci + 1) == chunk_events_prefix(g, ni, t, li, ci)
            &&& chunk_errors_prefix(ni, t, li, ci + 1) == chunk_errors_prefix(
                ni,
                t,
                li,
                ci,
            ).push(pair_error(ni, t, li, ci))
        },
{
    if pair_ok(t, li, ci) {
        assert(chunk_events_prefix(g, ni, t, li, ci + 1) =~= chunk_events_prefix(
            g,
            ni,
            t,
            li,
            ci,
        ).push(terrain_event(g, ni, t, li, ci)));
        assert(chunk_errors_prefix(ni, t, li, ci + 1) =~= chunk_errors_prefix(ni, t, li, ci));
    } else {
        assert(chunk_events_prefix(g, ni, t, li, ci + 1) =~= chunk_events_prefix(g, ni, t, li, ci));
        assert(chunk_errors_prefix(ni, t, li, ci + 1) =~= chunk_errors_prefix(
            ni,
            t,
            li,
            ci,
        ).push(pair_error(ni, t, li, ci)));
    }
}

/// Instance correctness: a skinned surface's instance carries the identity
/// world transform and one skinning matrix per bone — the bone's global
/// transform times its inverse bind pose — in declared bone order; an
/// unskinned surface's instance carries the mesh's global transform and no
/// bone matrices.
pub proof fn lemma_instance_correctness(g: Graph, ni: int, m: MeshData, si: int)
    requires
        0 <= si < m.surfaces@.len(),
    ensures
        ({
            let s = m.surfaces@[si];
            let inst = mesh_surface_event(g, ni, m, si).instance;
            &&& inst.bone_matrices.len() == s.bones@.len()
            &&& forall|k: int|
                0 <= k < s.bones@.len() ==> inst.bone_matrices[k] == mat_mul_spec(
                    g.nodes@[#[trigger] s.bones@[k] as int].global_transform@,
                    g.nodes@[s.bones@[k] as int].inv_bind_pose_transform@,
                )
            &&& s.bones@.len() > 0 ==> inst.world_transform == mat_identity()
            &&& s.bones@.len() == 0 ==> inst.world_transform == g.nodes@[ni].global_transform@
        }),
{
}

/// Two batches of the same shape: same key, same instance count, same
/// sort index.
pub open spec fn shape_match(b1: crate::batch::Batch, b2: crate::batch::Batch) -> bool {
    &&& b1.key == b2.key
    &&& b1.instances@.len() == b2.instances@.len()
    &&& b1.sort_index == b2.sort_index
}

/// For one batch of `s1`, a batch of `s2` of the same shape: both group the
/// same events under the same key.
proof fn lemma_match_one(s1: BatchStorage, s2: BatchStorage, g: Graph, i: int)
    requires
        regenerated(s1, g),
        regenerated(s2, g),
        0 <= i < s1.batches@.len(),
    ensures
        has_shape_match(s2, s1.batches@[i]),
{
    let evs = graph_events(g);
    let b = s1.batches@[i];
    assert(batch_ok(b, evs));
    let f = events_for(evs, b.key);
    assert(f.len() >= 1);
    lemma_filter_subset(evs, |e: crate::events::BatchEvent| e.key == b.key, 0);
    let k = choose|k: int| 0 <= k < evs.len() && evs[k] == f[0];
    assert(f[0].key == b.key) by {
        broadcast use vstd::seq_lib::group_filter_ensures;

    }
    assert(evs[k].key == b.key);
    let j = choose|j: int|
        0 <= j < s2.batches@.len() && (#[trigger] s2.batches@[j]).key == evs[k].key;
    assert(batch_ok(s2.batches@[j], evs));
    assert(s2.batches@[j].instances@.map_values(|si: crate::batch::SurfaceInstance| si@).len()
        == f.map_values(|e: crate::events::BatchEvent| e.instance).len());
    assert(b.instances@.map_values(|si: crate::batch::SurfaceInstance| si@).len()
        == f.map_values(|e: crate::events::BatchEvent| e.instance).len());
    assert(shape_match(b, s2.batches@[j]));
    assert(has_shape_match(s2, b));
}

/// Idempotent shape: two regenerations on the same graph agree batch for
/// batch — equal batch counts, and for every batch of one a batch of the
/// other with the same key, the same instance count, and the same sort
/// index.
/// Some batch of `s2` has the same shape as `b`.
pub open spec fn has_shape_match(s2: BatchStorage, b: crate::batch::Batch) -> bool {
    exists|j: int| #![trigger s2.batches@[j]]
        0 <= j < s2.batches@.len() && shape_match(b, s2.batches@[j])
}

/// Every batch of `s1` has a batch of `s2` of the same shape.
pub open spec fn batches_shape_matched(s1: BatchStorage, s2: BatchStorage) -> bool {
    forall|i: int| #![trigger s1.batches@[i]]
        0 <= i < s1.batches@.len() ==> has_shape_match(s2, s1.batches@[i])
}

proof fn lemma_matching_batches(s1: BatchStorage, s2: BatchStorage, g: Graph)
    requires
        regenerated(s1, g),
        regenerated(s2, g),
    ensures
        batches_shape_matched(s1, s2),
{
    assert forall|i: int| #![trigger s1.batches@[i]]
        0 <= i < s1.batches@.len() implies has_shape_match(s2, s1.batches@[i]) by {
        lemma_match_one(s1, s2, g, i);
    }
}

/// Idempotent shape: two regenerations on the same graph agree batch for
/// batch — equal batch counts, and for every batch of one a batch of the
/// other with the same key, the same instance count, and the same sort
/// index.
#[verifier::rlimit(100)]
pub proof fn lemma_idempotent_shape(s1: BatchStorage, s2: BatchStorage, g: Graph)
    requires
        regenerated(s1, g),
        regenerated(s2, g),
    ensures
        s1.batches@.len() == s2.batches@.len(),
        batches_shape_matched(s1, s2),
        batches_shape_matched(s2, s1),
{
    lemma_matching_batches(s1, s2, g);
    lemma_matching_batches(s2, s1, g);
    let keys1 = s1.batches@.map_values(|b: crate::batch::Batch| b.key);
    let keys2 = s2.batches@.map_values(|b: crate::batch::Batch| b.key);
    assert(keys1.no_duplicates());
    assert(keys2.no_duplicates());
    keys1.unique_seq_to_set();
    keys2.unique_seq_to_set();
    assert(keys1.to_set() =~= keys2.to_set()) by {
        assert forall|k: u64| keys1.to_set().contains(k) implies keys2.to_set().contains(k) by {
            let i = choose|i: int| 0 <= i < keys1.len() && keys1[i] == k;
            assert(s1.batches@[i].key == k);
            assert(has_shape_match(s2, s1.batches@[i]));
            let j = choose|j: int| #![trigger s2.batches@[j]]
                0 <= j < s2.batches@.len() && shape_match(s1.batches@[i], s2.batches@[j]);
            assert(keys2[j] == k);
            assert(keys2.to_set().contains(keys2[j]));
        }
        assert forall|k: u64| keys2.to_set().contains(k) implies keys1.to_set().contains(k) by {
            let i = choose|i: int| 0 <= i < keys2.len() && keys2[i] == k;
            assert(s2.batches@[i].key == k);
            assert(has_shape_match(s1, s2.batches@[i]));
            let j = choose|j: int| #![trigger s1.batches@[j]]
                0 <= j < s1.batches@.len() && shape_match(s2.batches@[i], s1.batches@[j]);
            assert(keys1[j] == k);
            assert(keys1.to_set().contains(keys1[j]));
        }
    }
}

/// The total number of instances across a sequence of batches.
pub open spec fn total_instances(bs: Seq<Batch>) -> int
    decreases bs.len(),
{
    if bs.len() == 0 {
        0
    } else {
        total_instances(bs.drop_last()) + bs.last().instances@.len()
    }
}

/// The total number of events filed under the batches' keys.
spec fn total_filed(bs: Seq<Batch>, evs: Seq<BatchEvent>) -> int
    decreases bs.len(),
{
    if bs.len() == 0 {
        0
    } else {
        total_filed(bs.drop_last(), evs) + events_for(evs, bs.last().key).len()
    }
}

/// How many batches carry the key `k`.
spec fn key_count(bs: Seq<Batch>, k: u64) -> int
    decreases bs.len(),
{
    if bs.len() == 0 {
        0
    } else {
        key_count(bs.drop_last(), k) + if bs.last().key == k {
            1int
        } else {
            0int
        }
    }
}

proof fn lemma_total_filed_empty(bs: Seq<Batch>)
    ensures
        total_filed(bs, Seq::empty()) == 0,
    decreases bs.len(),
{
    broadcast use vstd::seq_lib::group_filter_ensures;

    if bs.len() > 0 {
        lemma_total_filed_empty(bs.drop_last());
        assert(events_for(Seq::empty(), bs.last().key).len() <= 0);
    }
}

proof fn lemma_total_filed_push(bs: Seq<Batch>, evs: Seq<BatchEvent>, e: BatchEvent)
    ensures
        total_filed(bs, evs.push(e)) == total_filed(bs, evs) + key_count(bs, e.key),
    decreases bs.len(),
{
    if bs.len() > 0 {
        lemma_total_filed_push(bs.drop_last(), evs, e);
        lemma_filter_push(evs, e, |x: BatchEvent| x.key == bs.last().key);
    }
}

proof fn lemma_key_count_zero(bs: Seq<Batch>, k: u64)
    requires
        forall|i: int| 0 <= i < bs.len() ==> (#[trigger] bs[i]).key != k,
    ensures
        key_count(bs, k) == 0,
    decreases bs.len(),
{
    if bs.len() > 0 {
        lemma_key_count_zero(bs.drop_last(), k);
    }
}

proof fn lemma_key_count_one(bs: Seq<Batch>, k: u64, w: int)
    requires
        forall|i: int, j: int|
            0 <= i < j < bs.len() ==> (#[trigger] bs[i]).key != (#[trigger] bs[j]).key,
        0 <= w < bs.len(),
        bs[w].key == k,
    ensures
        key_count(bs, k) == 1,
    decreases bs.len(),
{
    if w == bs.len() - 1 {
        assert forall|i: int| 0 <= i < bs.drop_last().len() implies (#[trigger] bs.drop_last()[i]).key
            != k by {
            assert(bs[i].key != bs[w].key);
        }
        lemma_key_count_zero(bs.drop_last(), k);
    } else {
        assert(bs.last().key != k) by {
            assert(bs[w].key != bs[bs.len() - 1].key);
        }
        assert(bs.drop_last()[w] == bs[w]);
        lemma_key_count_one(bs.drop_last(), k, w);
    }
}

proof fn lemma_total_vs_filed(bs: Seq<Batch>, evs: Seq<BatchEvent>)
    requires
        forall|i: int| 0 <= i < bs.len() ==> batch_ok(#[trigger] bs[i], evs),
    ensures
        total_instances(bs) == total_filed(bs, evs),
    decreases bs.len(),
{
    if bs.len() > 0 {
        assert forall|i: int| 0 <= i < bs.drop_last().len() implies batch_ok(
            #[trigger] bs.drop_last()[i],
            evs,
        ) by {
            assert(bs.drop_last()[i] == bs[i]);
        }
        lemma_total_vs_filed(bs.drop_last(), evs);
        let b = bs.last();
        assert(batch_ok(b, evs));
        assert(b.instances@.map_values(|si: crate::batch::SurfaceInstance| si@).len()
            == b.instances@.len());
        assert(events_for(evs, b.key).map_values(|e: BatchEvent| e.instance).len()
            == events_for(evs, b.key).len());
    }
}

proof fn lemma_filed_counts(bs: Seq<Batch>, evs: Seq<BatchEvent>)
    requires
        forall|i: int, j: int|
            0 <= i < j < bs.len() ==> (#[trigger] bs[i]).key != (#[trigger] bs[j]).key,
        forall|k: int|
            0 <= k < evs.len() ==> exists|i: int|
                0 <= i < bs.len() && (#[trigger] bs[i]).key == (#[trigger] evs[k]).key,
    ensures
        total_filed(bs, evs) == evs.len(),
    decreases evs.len(),
{
    if evs.len() == 0 {
        assert(evs =~= Seq::<BatchEvent>::empty());
        lemma_total_filed_empty(bs);
    } else {
        let evs2 = evs.drop_last();
        let e = evs.last();
        assert forall|k: int| 0 <= k < evs2.len() implies exists|i: int|
            0 <= i < bs.len() && (#[trigger] bs[i]).key == (#[trigger] evs2[k]).key by {
            assert(evs2[k] == evs[k]);
            let i = choose|i: int| 0 <= i < bs.len() && (#[trigger] bs[i]).key == evs[k].key;
            assert(bs[i].key == evs2[k].key);
        }
        lemma_filed_counts(bs, evs2);
        lemma_total_filed_push(bs, evs2, e);
        assert(evs2.push(e) =~= evs);
        let w = choose|i: int|
            0 <= i < bs.len() && (#[trigger] bs[i]).key == evs[evs.len() - 1].key;
        lemma_key_count_one(bs, e.key, w);
    }
}

/// Completeness: the batches' instances add up to exactly one instance per
/// event — every mesh surface and every successful terrain (layer, chunk)
/// pair contributes exactly one instance to exactly one batch.
pub proof fn lemma_total_completeness(s: BatchStorage, g: Graph)
    requires
        regenerated(s, g),
    ensures
        total_instances(s.batches@) == graph_events(g).len(),
{
    lemma_total_vs_filed(s.batches@, graph_events(g));
    lemma_filed_counts(s.batches@, graph_events(g));
}

} // verus!
