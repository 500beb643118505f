use memobuild::dag::build_graph_from_instructions;
use memobuild::env::{toolchain_probes, tracked_vars, EnvFingerprint};
use memobuild::graph::{BuildGraph, NodeKind};
use memobuild::keys::compute_keys;
use memobuild::parser::parse_dockerfile;

const RECIPE: &str = "FROM alpine:3.18\nWORKDIR /app\nCOPY . /app\nRUN echo hi\n";

fn fingerprint(path: &str) -> EnvFingerprint {
    let mut fp = EnvFingerprint::new("linux".to_string(), "x86_64".to_string());
    fp.record_var("PATH".to_string(), Some(path.to_string()));
    fp.record_var("LANG".to_string(), None);
    fp.record_probe("rustc".to_string(), true, "rustc 1.80.0\n");
    fp.record_probe("go".to_string(), false, "");
    fp
}

fn keyed(recipe: &str, fp: &EnvFingerprint) -> BuildGraph {
    let mut g = build_graph_from_instructions(parse_dockerfile(recipe), "/work");
    let inputs: Vec<String> = g
        .nodes
        .iter()
        .map(|n| if n.source_path.is_some() { "treehash".to_string() } else { String::new() })
        .collect();
    compute_keys(&mut g, &inputs, &fp.hash());
    g
}

#[test]
fn linear_chain() {
    let g = build_graph_from_instructions(parse_dockerfile(RECIPE), "/work");
    assert_eq!(g.nodes.len(), 4);
    let deps: Vec<Vec<usize>> = g.nodes.iter().map(|n| n.deps.clone()).collect();
    assert_eq!(deps, vec![vec![], vec![0], vec![1], vec![2]]);
    assert_eq!(g.topological_order(), vec![0, 1, 2, 3]);
    assert!(BuildGraph::new().topological_order().is_empty());
}

#[test]
fn node_contents_and_sources() {
    let text = "FROM a\nCOPY . /app\nCOPY src /dst\nCOPY /abs /d\nENV K=V\nGIT u t\nCMD go\nLABEL x";
    let g = build_graph_from_instructions(parse_dockerfile(text), "/work");
    let contents: Vec<&str> = g.nodes.iter().map(|n| n.content.as_str()).collect();
    assert_eq!(
        contents,
        vec!["FROM a", "COPY . /app", "COPY src /dst", "COPY /abs /d", "ENV K=V", "GIT u t", "CMD go", "LABEL x"]
    );
    assert_eq!(g.nodes[1].source_path.as_deref(), Some("/work"));
    assert_eq!(g.nodes[2].source_path.as_deref(), Some("/work/src"));
    assert_eq!(g.nodes[3].source_path.as_deref(), Some("/abs"));
    assert_eq!(g.nodes[0].source_path, None);
    assert_eq!(g.nodes[2].kind, NodeKind::Copy { src: "src".to_string() });
    assert_eq!(g.nodes[4].kind, NodeKind::Env);
    assert_eq!(g.nodes[4].env.len(), 1);
    assert_eq!(g.nodes[0].env.len(), 0);
    assert_eq!(g.nodes[3].env.len(), 0);
    assert_eq!(g.nodes[7].env.len(), 1);
    assert!(g.nodes.iter().all(|n| n.hash.is_empty() && n.dirty && !n.cache_hit));
    let g2 = build_graph_from_instructions(parse_dockerfile("COPY x y"), "/root/");
    assert_eq!(g2.nodes[0].source_path.as_deref(), Some("/root/x"));
}

#[test]
fn keys_are_hex_digests() {
    let g = keyed(RECIPE, &fingerprint("/usr/bin"));
    for n in &g.nodes {
        assert_eq!(n.hash.len(), 64);
        assert!(n.hash.chars().all(|c| c.is_ascii_digit() || ('a'..='f').contains(&c)));
    }
}

#[test]
fn keys_are_deterministic() {
    let a = keyed(RECIPE, &fingerprint("/usr/bin"));
    let b = keyed(RECIPE, &fingerprint("/usr/bin"));
    for i in 0..a.nodes.len() {
        assert_eq!(a.nodes[i].hash, b.nodes[i].hash);
    }
}

#[test]
fn env_drift_invalidates_every_key() {
    let a = keyed(RECIPE, &fingerprint("/usr/bin"));
    let b = keyed(RECIPE, &fingerprint("/opt/bin:/usr/bin"));
    for i in 0..a.nodes.len() {
        assert_ne!(a.nodes[i].hash, b.nodes[i].hash);
    }
}

#[test]
fn parent_change_propagates() {
    let a = keyed("FROM a\nRUN x\nRUN y", &fingerprint("/p"));
    let b = keyed("FROM b\nRUN x\nRUN y", &fingerprint("/p"));
    for i in 0..3 {
        assert_ne!(a.nodes[i].hash, b.nodes[i].hash);
    }
}

#[test]
fn fingerprint_is_independent_of_collection_order() {
    let mut a = EnvFingerprint::new("linux".to_string(), "aarch64".to_string());
    a.record_var("PATH".to_string(), Some("/bin".to_string()));
    a.record_var("LANG".to_string(), Some("C".to_string()));
    a.record_probe("node".to_string(), true, "v20\n");
    a.record_probe("rustc".to_string(), true, " rustc 1.80 ");
    let mut b = EnvFingerprint::new("linux".to_string(), "aarch64".to_string());
    b.record_probe("rustc".to_string(), true, "rustc 1.80");
    b.record_var("LANG".to_string(), Some("C".to_string()));
    b.record_probe("node".to_string(), true, "v20");
    b.record_var("PATH".to_string(), Some("/bin".to_string()));
    assert_eq!(a.hash(), b.hash());
    let c = EnvFingerprint::new("linux".to_string(), "x86_64".to_string());
    assert_ne!(a.hash(), c.hash());
}

#[test]
fn fingerprint_lists() {
    assert_eq!(tracked_vars(), vec!["PATH", "RUST_VERSION", "NODE_ENV", "LANG", "LC_ALL"]);
    let probes = toolchain_probes();
    assert_eq!(probes.len(), 4);
    assert_eq!(probes[3], ("go".to_string(), "version".to_string()));
}

#[test]
fn env_overrides_accumulate() {
    let g = build_graph_from_instructions(parse_dockerfile("ENV A=1\nRUN x\nENV B=2\nENV A=3\nRUN y"), "/w");
    let sizes: Vec<usize> = g.nodes.iter().map(|n| n.env.len()).collect();
    assert_eq!(sizes, vec![1, 1, 2, 2, 2]);
    let (k, v) = g.nodes[4].env.entry(0);
    assert_eq!((k.as_str(), v.as_str()), ("A", "3"));
    let (k, v) = g.nodes[1].env.entry(0);
    assert_eq!((k.as_str(), v.as_str()), ("A", "1"));
}
