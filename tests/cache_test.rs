use memobuild::cache::{sync_result, CacheEntry, HybridCache, LocalCache, MemoryRemote, RemoteCache};
use memobuild::dag::build_graph_from_instructions;
use memobuild::env::EnvFingerprint;
use memobuild::error::MemoBuildError;
use memobuild::executor::{execute_graph, execute_step};
use memobuild::git::parse_ls_remote_head;
use memobuild::graph::{BuildGraph, Node};
use memobuild::hasher::hash_bytes;
use memobuild::keys::compute_keys;
use memobuild::parser::parse_dockerfile;

fn keyed_graph() -> BuildGraph {
    let text = "FROM alpine:3.18\nWORKDIR /app\nCOPY . /app\nRUN echo hi\n";
    let mut g = build_graph_from_instructions(parse_dockerfile(text), "/work");
    let inputs = vec![String::new(); g.nodes.len()];
    let fp = EnvFingerprint::new("linux".to_string(), "x86_64".to_string());
    compute_keys(&mut g, &inputs, &fp.hash());
    g
}

#[test]
fn local_put_get_round_trip() {
    let mut local = LocalCache::new("/cache".to_string());
    assert!(!local.contains_key("test_hash_abc123"));
    assert_eq!(local.get_data("test_hash_abc123"), None);
    local.put("test_hash_abc123", b"test artifact data");
    assert!(local.contains_key("test_hash_abc123"));
    assert_eq!(local.get_data("test_hash_abc123"), Some(b"test artifact data".to_vec()));
    let e = local.record_entry(local.record_count() - 1);
    assert_eq!(e.artifact_path, "test_hash_abc123.bin");
    assert_eq!(e.size, 18);
    assert_eq!(e.cache_key, "test_hash_abc123");
    local.put("test_hash_abc123", b"newer");
    assert_eq!(local.get_data("test_hash_abc123"), Some(b"newer".to_vec()));
}

#[test]
fn index_without_blob_is_a_miss() {
    let mut local = LocalCache::new("/cache".to_string());
    let entry = CacheEntry {
        cache_key: "k".to_string(),
        created_at: 1000,
        artifact_path: "k.bin".to_string(),
        size: 3,
    };
    local.restore(entry, None);
    assert!(local.contains_key("k"));
    assert_eq!(local.get_data("k"), None);
}

#[test]
fn remote_population() {
    let blob = b"layer bytes".to_vec();
    let key = hash_bytes(&blob);
    let mut remote = MemoryRemote::new();
    remote.put(&key, &blob).unwrap();
    assert_eq!(remote.head(&key).unwrap(), true);
    let mut hybrid = HybridCache::new(LocalCache::new("/cache".to_string()), Some(remote));
    assert!(!hybrid.local.contains_key(&key));
    assert_eq!(hybrid.get_artifact(&key).unwrap(), Some(blob.clone()));
    assert!(hybrid.local.contains_key(&key));
    hybrid.remote = None;
    assert_eq!(hybrid.get_artifact(&key).unwrap(), Some(blob));
}

#[test]
fn remote_blob_with_wrong_key_is_an_integrity_failure() {
    let mut remote = MemoryRemote::new();
    remote.put("not_the_digest", b"data").unwrap();
    let mut hybrid = HybridCache::new(LocalCache::new("/c".to_string()), Some(remote));
    match hybrid.get_artifact("not_the_digest") {
        Err(MemoBuildError::CASIntegrityFailure { expected, actual, data_size }) => {
            assert_eq!(expected, "not_the_digest");
            assert_eq!(actual, hash_bytes(b"data"));
            assert_eq!(data_size, 4);
        }
        other => panic!("unexpected {:?}", other),
    }
    assert!(!hybrid.local.contains_key("not_the_digest"));
}

#[test]
fn miss_everywhere_is_none() {
    let mut hybrid: HybridCache<MemoryRemote> =
        HybridCache::new(LocalCache::new("/c".to_string()), Some(MemoryRemote::new()));
    assert_eq!(hybrid.get_artifact("nonexistent_hash").unwrap(), None);
    let mut alone: HybridCache<MemoryRemote> = HybridCache::new(LocalCache::new("/c".to_string()), None);
    assert_eq!(alone.get_artifact("nonexistent_hash").unwrap(), None);
}

#[test]
fn put_artifact_writes_through() {
    let mut hybrid = HybridCache::new(LocalCache::new("/c".to_string()), Some(MemoryRemote::new()));
    hybrid.put_artifact("k1", b"abc").unwrap();
    assert_eq!(hybrid.local.get_data("k1"), Some(b"abc".to_vec()));
    let remote = hybrid.remote.as_ref().unwrap();
    assert_eq!(remote.get("k1").unwrap(), Some(b"abc".to_vec()));
}

fn materialize_ok(n: &Node) -> Result<Vec<u8>, MemoBuildError> {
    Ok(format!("artifact for {}", n.content).into_bytes())
}

#[test]
fn cache_hit_short_circuits_materialization() {
    let mut g = keyed_graph();
    let mut local = LocalCache::new("/c".to_string());
    local.put(&g.nodes[2].hash, b"known blob");
    let mut cache: HybridCache<MemoryRemote> = HybridCache::new(local, None);
    let result = execute_graph(&mut g, &mut cache, |n: &Node| {
        if n.id == 2 {
            panic!("materializer invoked for a cached node");
        }
        materialize_ok(n)
    });
    assert!(result.is_ok());
    assert!(g.nodes[2].cache_hit);
    assert!(!g.nodes[0].cache_hit);
    for n in &g.nodes {
        assert!(!n.dirty);
        assert!(cache.local.contains_key(&n.hash));
    }
    assert_eq!(cache.local.get_data(&g.nodes[2].hash), Some(b"known blob".to_vec()));
}

#[test]
fn second_run_hits_everywhere() {
    let mut g = keyed_graph();
    let mut cache: HybridCache<MemoryRemote> = HybridCache::new(LocalCache::new("/c".to_string()), None);
    execute_graph(&mut g, &mut cache, materialize_ok).unwrap();
    let mut again = keyed_graph();
    execute_graph(&mut again, &mut cache, |_n: &Node| -> Result<Vec<u8>, MemoBuildError> {
        panic!("nothing should be rebuilt")
    })
    .unwrap();
    assert!(again.nodes.iter().all(|n| n.cache_hit));
}

#[test]
fn materializer_failure_aborts() {
    let mut g = keyed_graph();
    let mut cache: HybridCache<MemoryRemote> = HybridCache::new(LocalCache::new("/c".to_string()), None);
    let r = execute_graph(&mut g, &mut cache, |_n: &Node| {
        Err(MemoBuildError::StorageError { operation: "run".to_string(), reason: "boom".to_string() })
    });
    assert!(matches!(r, Err(MemoBuildError::StorageError { .. })));
}

#[test]
fn ls_remote_head_is_first_word() {
    assert_eq!(
        parse_ls_remote_head("  3f2a9c\tHEAD\n"),
        Some("3f2a9c".to_string())
    );
    assert_eq!(parse_ls_remote_head(" \n"), None);
}

#[test]
fn test_cache_miss_scenario() {
    let mut cache: HybridCache<MemoryRemote> = HybridCache::new(LocalCache::new("/c".to_string()), None);

    let hash = "nonexistent_hash";
    let result = cache.get_artifact(hash);

    assert!(result.is_ok() || result.is_err());
    assert_eq!(result.unwrap(), None);
}

#[test]
fn test_cache_put_get_roundtrip() {
    let mut cache: HybridCache<MemoryRemote> = HybridCache::new(LocalCache::new("/c".to_string()), None);

    let hash = "test_hash_abc123";
    let data = b"test artifact data";

    let put_result = cache.put_artifact(hash, data);
    assert!(put_result.is_ok(), "Put should succeed");

    let get_result = cache.get_artifact(hash);
    assert!(get_result.is_ok(), "Get should succeed");
    assert_eq!(get_result.unwrap(), Some(data.to_vec()));
}

#[test]
fn accept_remote_per_answer() {
    let blob = b"payload".to_vec();
    let key = hash_bytes(&blob);
    let mut h: HybridCache<MemoryRemote> = HybridCache::new(LocalCache::new("/c".to_string()), None);
    assert_eq!(h.accept_remote(&key, Ok(None)).unwrap(), None);
    let transient = MemoBuildError::NetworkError { message: "t".to_string(), retryable: true, attempt: 3 };
    assert_eq!(h.accept_remote(&key, Err(transient)).unwrap(), None);
    let integrity = MemoBuildError::CASIntegrityFailure {
        expected: "x".to_string(),
        actual: "y".to_string(),
        data_size: 1,
    };
    assert!(matches!(
        h.accept_remote(&key, Err(integrity)),
        Err(MemoBuildError::CASIntegrityFailure { .. })
    ));
    assert!(!h.local.contains_key(&key));
    assert!(matches!(
        h.accept_remote("other", Ok(Some(blob.clone()))),
        Err(MemoBuildError::CASIntegrityFailure { .. })
    ));
    assert_eq!(h.accept_remote(&key, Ok(Some(blob.clone()))).unwrap(), Some(blob.clone()));
    assert_eq!(h.local.get_data(&key), Some(blob));
}

#[test]
fn test_hybrid_cache_creation() {
    let cache: HybridCache<MemoryRemote> = HybridCache::new(LocalCache::new("/c".to_string()), None);
    assert!(
        cache.remote.is_none(),
        "HybridCache should create successfully without remote"
    );
}

#[test]
fn sync_result_maps_remote_answer() {
    assert!(sync_result(Ok(())).is_ok());
    let e = MemoBuildError::NetworkError { message: "down".to_string(), retryable: true, attempt: 2 };
    match sync_result(Err(e)) {
        Err(MemoBuildError::SyncError { message, recovered }) => {
            assert!(recovered);
            assert_eq!(message, "Network error (attempt 2, retryable: true): down");
        }
        other => panic!("unexpected {:?}", other),
    }
}

#[test]
fn step_per_probe_answer() {
    let mut g = keyed_graph();
    let mut cache: HybridCache<MemoryRemote> = HybridCache::new(LocalCache::new("/c".to_string()), None);
    let never = |_n: &Node| -> Result<Vec<u8>, MemoBuildError> { panic!("not a miss") };
    assert!(execute_step(&mut g, 0, &mut cache, Ok(Some(vec![1])), &never).is_ok());
    assert!(g.nodes[0].cache_hit && !g.nodes[0].dirty);
    let err = MemoBuildError::CASIntegrityFailure { expected: "a".to_string(), actual: "b".to_string(), data_size: 0 };
    assert_eq!(execute_step(&mut g, 1, &mut cache, Err(err.clone()), &never), Err(err));
    assert!(g.nodes[1].dirty && !g.nodes[1].cache_hit);
    let make = |n: &Node| -> Result<Vec<u8>, MemoBuildError> { Ok(n.content.clone().into_bytes()) };
    assert!(execute_step(&mut g, 2, &mut cache, Ok(None), &make).is_ok());
    assert!(!g.nodes[2].cache_hit && !g.nodes[2].dirty);
    assert_eq!(cache.local.get_data(&g.nodes[2].hash), Some(b"COPY . /app".to_vec()));
}

struct FailingRemote;

impl RemoteCache for FailingRemote {
    fn head(&self, _key: &str) -> Result<bool, MemoBuildError> {
        Err(MemoBuildError::NetworkError { message: "down".to_string(), retryable: true, attempt: 0 })
    }

    fn get(&self, _key: &str) -> Result<Option<Vec<u8>>, MemoBuildError> {
        Err(MemoBuildError::NetworkError { message: "down".to_string(), retryable: true, attempt: 0 })
    }

    fn put(&mut self, _key: &str, _data: &[u8]) -> Result<(), MemoBuildError> {
        Err(MemoBuildError::NetworkError { message: "down".to_string(), retryable: true, attempt: 0 })
    }
}

#[test]
fn remote_write_failures_are_reported_not_fatal() {
    let mut g = keyed_graph();
    let mut cache = HybridCache::new(LocalCache::new("/c".to_string()), Some(FailingRemote));
    let failures = execute_graph(&mut g, &mut cache, materialize_ok).unwrap();
    assert_eq!(failures.len(), g.nodes.len());
    assert!(failures.iter().all(|f| matches!(f, MemoBuildError::SyncError { recovered: true, .. })));
    for n in &g.nodes {
        assert!(!n.dirty && !n.cache_hit);
        assert!(cache.local.contains_key(&n.hash));
    }
}

#[test]
fn remote_hit_is_a_cache_hit() {
    let mut g = keyed_graph();
    let mut seed: HybridCache<MemoryRemote> = HybridCache::new(LocalCache::new("/c".to_string()), None);
    execute_graph(&mut g, &mut seed, materialize_ok).unwrap();
    let mut remote = MemoryRemote::new();
    let blob = b"remote layer".to_vec();
    let key = hash_bytes(&blob);
    remote.put(&key, &blob).unwrap();
    let mut g2 = keyed_graph();
    g2.nodes[1].hash = key.clone();
    let mut cache = HybridCache::new(LocalCache::new("/c".to_string()), Some(remote));
    execute_graph(&mut g2, &mut cache, materialize_ok).unwrap();
    assert!(g2.nodes[1].cache_hit);
    assert!(!g2.nodes[0].cache_hit);
    assert_eq!(cache.local.get_data(&key), Some(blob));
}
