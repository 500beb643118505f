//! Runs a keyed graph against the hybrid cache: each node is either served
//! from cache or materialized and stored.
use crate::cache::{keeps_blobs, HybridCache, LocalCache, RemoteCache};
use crate::error::MemoBuildError;
use crate::hasher::blake3_hex;
use crate::graph::{deps_wf, BuildGraph, Node};
use vstd::prelude::*;

verus! {

/// `b` is `a` with only the run flags changed.
pub open spec fn same_but_flags(a: Node, b: Node) -> bool {
    &&& a.id == b.id
    &&& a.name == b.name
    &&& a.kind == b.kind
    &&& a.content == b.content
    &&& a.hash == b.hash
    &&& a.deps == b.deps
    &&& a.source_path == b.source_path
    &&& a.env == b.env
}

fn set_flags(graph: &mut BuildGraph, i: usize, dirty: bool, cache_hit: bool)
    requires
        i < old(graph).nodes@.len(),
    ensures
        final(graph).nodes@.len() == old(graph).nodes@.len(),
        same_but_flags(old(graph).nodes@[i as int], final(graph).nodes@[i as int]),
        final(graph).nodes@[i as int].dirty == dirty,
        final(graph).nodes@[i as int].cache_hit == cache_hit,
        forall|k: int|
            0 <= k < final(graph).nodes@.len() && k != i ==> #[trigger] final(graph).nodes@[k]
                == old(graph).nodes@[k],
{
    let mut node = graph.nodes.remove(i);
    node.dirty = dirty;
    node.cache_hit = cache_hit;
    graph.nodes.insert(i, node);
}

/// Node `i`'s key is held by no other node.
pub open spec fn unique_key(nodes: Seq<Node>, i: int) -> bool {
    forall|j: int| 0 <= j < nodes.len() && j != i ==> #[trigger] nodes[j].hash@ != nodes[i].hash@
}

/// Node `k` was materialized by `f` into some artifact `d`, which the local
/// tier holds under the node's key if no other node shares that key.
pub open spec fn materialized<F: Fn(&Node) -> Result<Vec<u8>, MemoBuildError>>(
    f: F,
    nodes: Seq<Node>,
    k: int,
    local: LocalCache,
) -> bool {
    exists|d: Vec<u8>|
        #[trigger] f.ensures((&nodes[k],), Ok::<Vec<u8>, MemoBuildError>(d)) && (unique_key(nodes, k)
            ==> local.data_of(nodes[k].hash@) == Some(d@))
}

proof fn lemma_materialized_frame<F: Fn(&Node) -> Result<Vec<u8>, MemoBuildError>>(
    f: F,
    nodes: Seq<Node>,
    k: int,
    a: LocalCache,
    b: LocalCache,
)
    requires
        materialized(f, nodes, k, a),
        unique_key(nodes, k) ==> b.data_of(nodes[k].hash@) == a.data_of(nodes[k].hash@),
    ensures
        materialized(f, nodes, k, b),
{
    let d = choose|d: Vec<u8>|
        #[trigger] f.ensures((&nodes[k],), Ok::<Vec<u8>, MemoBuildError>(d)) && (unique_key(nodes, k)
            ==> a.data_of(nodes[k].hash@) == Some(d@));
    assert(f.ensures((&nodes[k],), Ok::<Vec<u8>, MemoBuildError>(d)));
}

/// Every node's key has a blob in the local tier.
pub open spec fn all_cached(nodes: Seq<Node>, local: LocalCache) -> bool {
    forall|i: int| 0 <= i < nodes.len() ==> local.data_of((#[trigger] nodes[i]).hash@) is Some
}

/// An earlier node has the same key as node `i`.
pub open spec fn key_seen_before(nodes: Seq<Node>, i: int) -> bool {
    exists|j: int| 0 <= j < i && #[trigger] nodes[j].hash@ == nodes[i].hash@
}

/// The local tier holds, under node `i`'s key, a blob that hashes to that
/// key, if no other node shares the key.
pub open spec fn verified_blob(nodes: Seq<Node>, i: int, local: LocalCache) -> bool {
    unique_key(nodes, i) ==> local.data_of(nodes[i].hash@) is Some && blake3_hex(
        local.data_of(nodes[i].hash@)->0,
    ) == nodes[i].hash@
}

/// The materializer never fails.
pub open spec fn infallible<F: Fn(&Node) -> Result<Vec<u8>, MemoBuildError>>(f: F) -> bool {
    forall|n: &Node, res: Result<Vec<u8>, MemoBuildError>| #[trigger] f.ensures((n,), res) ==> res is Ok
}

/// Every report is a recovered sync error.
pub open spec fn all_sync(w: Seq<MemoBuildError>) -> bool {
    forall|j: int| 0 <= j < w.len() ==> (#[trigger] w[j] is SyncError) && w[j]->SyncError_recovered
}

/// What happens to node `i` once the cache probe of its key answered
/// `probe`. A blob marks the node as a clean cache hit. A miss materializes
/// the node, stores the artifact under the node's key and marks the node
/// clean; a failure of the remote write is reported in `Ok(Some(..))` as a
/// recovered sync error and does not stop the build. A probe error or a
/// materializer error is returned as is, and the node keeps its flags.
pub fn execute_step<R: RemoteCache, F: Fn(&Node) -> Result<Vec<u8>, MemoBuildError>>(
    graph: &mut BuildGraph,
    i: usize,
    cache: &mut HybridCache<R>,
    probe: Result<Option<Vec<u8>>, MemoBuildError>,
    materialize: &F,
) -> (r: Result<Option<MemoBuildError>, MemoBuildError>)
    requires
        i < old(graph).nodes@.len(),
        forall|n: &Node| materialize.requires((n,)),
    ensures
        final(graph).nodes@.len() == old(graph).nodes@.len(),
        forall|k: int|
            0 <= k < final(graph).nodes@.len() && k != i ==> #[trigger] final(graph).nodes@[k]
                == old(graph).nodes@[k],
        same_but_flags(old(graph).nodes@[i as int], final(graph).nodes@[i as int]),
        final(cache).local.root() == old(cache).local.root(),
        final(cache).remote is Some == old(cache).remote is Some,
        keeps_blobs(old(cache).local, final(cache).local),
        forall|k: Seq<char>|
            k != old(graph).nodes@[i as int].hash@ ==> #[trigger] final(cache).local.data_of(k)
                == old(cache).local.data_of(k),
        r is Ok && r->Ok_0 is Some ==> old(cache).remote is Some && r->Ok_0->0 is SyncError
            && r->Ok_0->0->SyncError_recovered,
        probe is Ok && probe->Ok_0 is Some ==> r == Ok::<Option<MemoBuildError>, MemoBuildError>(
            None,
        ) && final(graph).nodes@[i as int].cache_hit && !final(graph).nodes@[i as int].dirty
            && final(cache).local == old(cache).local,
        probe is Err ==> r is Err && r->Err_0 == probe->Err_0 && final(graph).nodes@[i as int]
            == old(graph).nodes@[i as int] && final(cache).local == old(cache).local,
        probe is Ok && probe->Ok_0 is None && r is Err ==> materialize.ensures(
            (&old(graph).nodes@[i as int],),
            Err::<Vec<u8>, MemoBuildError>(r->Err_0),
        ) && final(graph).nodes@[i as int] == old(graph).nodes@[i as int] && final(cache).local
            == old(cache).local,
        probe is Ok && probe->Ok_0 is None && r is Ok ==> !final(graph).nodes@[i as int].cache_hit
            && !final(graph).nodes@[i as int].dirty && exists|d: Vec<u8>|
            materialize.ensures((&old(graph).nodes@[i as int],), Ok::<Vec<u8>, MemoBuildError>(d))
                && final(cache).local.data_of(old(graph).nodes@[i as int].hash@) == Some(d@),
{
    match probe {
        Err(e) => Err(e),
        Ok(Some(_)) => {
            set_flags(graph, i, false, true);
            Ok(None)
        },
        Ok(None) => {
            let out = materialize(&graph.nodes[i]);
            match out {
                Ok(data) => {
                    let stored = cache.put_artifact(graph.nodes[i].hash.as_str(), data.as_slice());
                    set_flags(graph, i, false, false);
                    match stored {
                        Ok(()) => Ok(None),
                        Err(e) => Ok(Some(e)),
                    }
                },
                Err(e) => Err(e),
            }
        },
    }
}

/// Walks the nodes in topological order, probes the cache for each node's
/// key, and hands the answer to `execute_step`. The first probe error or
/// materializer error ends the run; the nodes not yet reached keep their
/// flags. On success, the failed remote writes are returned as recovered
/// sync errors.
pub fn execute_graph<R: RemoteCache, F: Fn(&Node) -> Result<Vec<u8>, MemoBuildError>>(
    graph: &mut BuildGraph,
    cache: &mut HybridCache<R>,
    materialize: F,
) -> (r: Result<Vec<MemoBuildError>, MemoBuildError>)
    requires
        deps_wf(old(graph).nodes@),
        forall|n: &Node| materialize.requires((n,)),
    ensures
        final(graph).nodes@.len() == old(graph).nodes@.len(),
        forall|i: int|
            0 <= i < final(graph).nodes@.len() ==> same_but_flags(
                old(graph).nodes@[i],
                #[trigger] final(graph).nodes@[i],
            ),
        keeps_blobs(old(cache).local, final(cache).local),
        final(cache).remote is Some == old(cache).remote is Some,
        all_cached(old(graph).nodes@, old(cache).local) ==> r is Ok && final(cache).local == old(cache).local && forall|i: int|
            0 <= i < final(graph).nodes@.len() ==> (#[trigger] final(graph).nodes@[i]).cache_hit,
        old(cache).remote is None && infallible(materialize) ==> r is Ok,
        r is Ok ==> all_sync(r->Ok_0@) && (old(cache).remote is None ==> r->Ok_0@.len() == 0),
        r is Ok ==> forall|i: int|
            0 <= i < final(graph).nodes@.len() ==> !(#[trigger] final(graph).nodes@[i]).dirty
                && final(cache).local.data_of(final(graph).nodes@[i].hash@) is Some,
        r is Ok ==> forall|i: int|
            0 <= i < final(graph).nodes@.len() && (old(cache).local.data_of(
                old(graph).nodes@[i].hash@,
            ) is Some || key_seen_before(old(graph).nodes@, i)) ==> (#[trigger] final(graph).nodes@[i]).cache_hit,
        r is Ok ==> forall|i: int|
            0 <= i < final(graph).nodes@.len() && (#[trigger] final(graph).nodes@[i]).cache_hit
                ==> old(cache).local.data_of(old(graph).nodes@[i].hash@) is Some
                || key_seen_before(old(graph).nodes@, i) || old(cache).remote is Some,
        r is Ok ==> forall|i: int|
            0 <= i < final(graph).nodes@.len() && (#[trigger] final(graph).nodes@[i]).cache_hit
                && !(old(cache).local.data_of(old(graph).nodes@[i].hash@) is Some)
                && !key_seen_before(old(graph).nodes@, i) ==> old(cache).remote is Some
                && verified_blob(old(graph).nodes@, i, final(cache).local),
        r is Ok ==> forall|i: int|
            0 <= i < final(graph).nodes@.len() && !(#[trigger] final(graph).nodes@[i]).cache_hit
                ==> materialized(materialize, old(graph).nodes@, i, final(cache).local),
        r is Err ==> exists|p: int|
            0 <= p < old(graph).nodes@.len() && (forall|k: int|
                p <= k < old(graph).nodes@.len() ==> #[trigger] final(graph).nodes@[k] == old(graph).nodes@[k]) && ((old(cache).remote is Some && r->Err_0 is CASIntegrityFailure)
                || materialize.ensures(
                (&old(graph).nodes@[p],),
                Err::<Vec<u8>, MemoBuildError>(r->Err_0),
            )),
{
    let ghost orig = graph.nodes@;
    let ghost local0 = cache.local;
    let ghost cached = all_cached(orig, local0);
    let ghost remote_some = cache.remote is Some;
    let order = graph.topological_order();
    let mut warnings: Vec<MemoBuildError> = Vec::new();
    let mut p: usize = 0;
    while p < order.len()
        invariant
            orig == old(graph).nodes@,
            local0 == old(cache).local,
            cached == all_cached(orig, local0),
            remote_some == (old(cache).remote is Some),
            remote_some == (cache.remote is Some),
            order@.len() == orig.len(),
            forall|k: int| 0 <= k < order@.len() ==> #[trigger] order@[k] == k,
            p <= order@.len(),
            graph.nodes@.len() == orig.len(),
            forall|k: int| 0 <= k < orig.len() ==> same_but_flags(orig[k], #[trigger] graph.nodes@[k]),
            forall|k: int| p <= k < orig.len() ==> #[trigger] graph.nodes@[k] == orig[k],
            keeps_blobs(local0, cache.local),
            cached ==> cache.local == local0,
            cached ==> forall|k: int| 0 <= k < p ==> (#[trigger] graph.nodes@[k]).cache_hit,
            all_sync(warnings@),
            !remote_some ==> warnings@.len() == 0,
            forall|k: int|
                0 <= k < p ==> !(#[trigger] graph.nodes@[k]).dirty && cache.local.data_of(
                    graph.nodes@[k].hash@,
                ) is Some,
            forall|key: Seq<char>|
                #[trigger] cache.local.data_of(key) is Some ==> local0.data_of(key) is Some || (
                exists|j: int| 0 <= j < p && #[trigger] orig[j].hash@ == key),
            forall|k: int|
                0 <= k < p && (#[trigger] graph.nodes@[k]).cache_hit && !(local0.data_of(
                    orig[k].hash@,
                ) is Some) && !key_seen_before(orig, k) ==> remote_some && verified_blob(
                    orig,
                    k,
                    cache.local,
                ),
            forall|k: int|
                0 <= k < p && (local0.data_of(orig[k].hash@) is Some || key_seen_before(orig, k))
                    ==> (#[trigger] graph.nodes@[k]).cache_hit,
            forall|k: int|
                0 <= k < p && (#[trigger] graph.nodes@[k]).cache_hit ==> local0.data_of(
                    orig[k].hash@,
                ) is Some || key_seen_before(orig, k) || remote_some,
            forall|k: int|
                0 <= k < p && !(#[trigger] graph.nodes@[k]).cache_hit ==> materialized(
                    materialize,
                    orig,
                    k,
                    cache.local,
                ),
            forall|n: &Node| materialize.requires((n,)),
        decreases order@.len() - p,
    {
        let id = order[p];
        let key = graph.nodes[id].hash.clone();
        let ghost before = cache.local;
        let ghost g_before = graph.nodes@;
        let probe = cache.get_artifact(key.as_str());
        let ghost mid = cache.local;
        let ghost probe_v = probe;
        proof {
            let h = orig[p as int].hash@;
            assert(g_before[p as int] == orig[p as int]);
            if local0.data_of(h) is Some {
                assert(before.data_of(h) is Some);
            }
            if key_seen_before(orig, p as int) {
                let j = choose|j: int| 0 <= j < p && #[trigger] orig[j].hash@ == orig[p as int].hash@;
                assert(g_before[j].hash@ == orig[j].hash@);
                assert(before.data_of(h) is Some);
            }
            if before.data_of(h) is Some {
                assert(local0.data_of(h) is Some || (exists|j: int|
                    0 <= j < p && #[trigger] orig[j].hash@ == h));
            }
        }
        let step = execute_step(graph, id, cache, probe, &materialize);
        match step {
            Err(e) => {
                proof {
                    assert forall|k: int| p <= k < orig.len() implies #[trigger] graph.nodes@[k]
                        == orig[k] by {
                        if k != p {
                            assert(graph.nodes@[k] == g_before[k]);
                        }
                    }
                    if !remote_some {
                        assert(probe_v is Ok);
                    }
                }
                return Err(e);
            },
            Ok(w) => {
                let ghost wprev = warnings@;
                match w {
                    Some(x) => {
                        warnings.push(x);
                    },
                    None => {},
                }
                assert(forall|j: int| 0 <= j < wprev.len() ==> warnings@[j] == wprev[j]);
            },
        }
        proof {
            let h = orig[p as int].hash@;
            assert forall|k: int| 0 <= k < p implies cache.local.data_of(
                (#[trigger] graph.nodes@[k]).hash@,
            ) is Some by {
                assert(graph.nodes@[k] == g_before[k]);
                assert(before.data_of(g_before[k].hash@) is Some);
            }
            assert forall|key: Seq<char>| #[trigger] cache.local.data_of(key) is Some implies local0.data_of(
                key,
            ) is Some || (exists|j: int| 0 <= j < p + 1 && #[trigger] orig[j].hash@ == key) by {
                if key == h {
                    assert(orig[p as int].hash@ == key);
                } else {
                    assert(mid.data_of(key) == before.data_of(key));
                    if exists|j: int| 0 <= j < p && #[trigger] orig[j].hash@ == key {
                        let j = choose|j: int| 0 <= j < p && #[trigger] orig[j].hash@ == key;
                        assert(orig[j].hash@ == key);
                    }
                }
            }
            assert forall|k: int|
                0 <= k <= p && (local0.data_of(orig[k].hash@) is Some || key_seen_before(orig, k))
                    implies (#[trigger] graph.nodes@[k]).cache_hit by {
                if k < p {
                    assert(graph.nodes@[k] == g_before[k]);
                }
            }
            assert forall|k: int|
                0 <= k <= p && (#[trigger] graph.nodes@[k]).cache_hit implies local0.data_of(
                orig[k].hash@,
            ) is Some || key_seen_before(orig, k) || remote_some by {
                if k < p {
                    assert(graph.nodes@[k] == g_before[k]);
                } else if !remote_some {
                    assert(probe_v is Ok && probe_v->Ok_0 is Some);
                    assert(before.data_of(h) is Some);
                    if !(local0.data_of(h) is Some) {
                        let j = choose|j: int| 0 <= j < p && #[trigger] orig[j].hash@ == h;
                        assert(key_seen_before(orig, p as int));
                    }
                }
            }
            assert forall|k: int|
                0 <= k <= p && (#[trigger] graph.nodes@[k]).cache_hit && !(local0.data_of(
                    orig[k].hash@,
                ) is Some) && !key_seen_before(orig, k) implies remote_some && verified_blob(
                orig,
                k,
                cache.local,
            ) by {
                if k < p {
                    assert(graph.nodes@[k] == g_before[k]);
                    if unique_key(orig, k) {
                        assert(orig[p as int].hash@ != orig[k].hash@);
                        assert(mid.data_of(orig[k].hash@) == before.data_of(orig[k].hash@));
                    }
                } else {
                    assert(probe_v is Ok && probe_v->Ok_0 is Some);
                    if before.data_of(h) is Some {
                        if !(local0.data_of(h) is Some) {
                            let j = choose|j: int| 0 <= j < p && #[trigger] orig[j].hash@ == h;
                            assert(key_seen_before(orig, p as int));
                        }
                    }
                    assert(before.data_of(h) is None);
                }
            }
            assert forall|k: int|
                0 <= k <= p && !(#[trigger] graph.nodes@[k]).cache_hit implies materialized(
                materialize,
                orig,
                k,
                cache.local,
            ) by {
                if k < p {
                    assert(graph.nodes@[k] == g_before[k]);
                    assert(!g_before[k].cache_hit);
                    if unique_key(orig, k) {
                        assert(orig[p as int].hash@ != orig[k].hash@);
                    }
                    lemma_materialized_frame(materialize, orig, k, before, cache.local);
                } else {
                    let d = choose|d: Vec<u8>|
                        materialize.ensures(
                            (&g_before[p as int],),
                            Ok::<Vec<u8>, MemoBuildError>(d),
                        ) && cache.local.data_of(g_before[p as int].hash@) == Some(d@);
                    assert(materialize.ensures((&orig[k],), Ok::<Vec<u8>, MemoBuildError>(d)));
                }
            }
        }
        p = p + 1;
    }
    Ok(warnings)
}

} // verus!
