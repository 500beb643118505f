use memobuild::hasher::{hash_bytes, hash_text, tree_digest, IgnoreRules};

const EMPTY_DIGEST: &str = "af1349b9f5f9a1a6a0404dea36dcc9499bcb25c9adc112b7cc9a93cae41f3262";

fn listing(items: &[(&str, &str)]) -> Vec<(String, String)> {
    items.iter().map(|(p, h)| (p.to_string(), h.to_string())).collect()
}

#[test]
fn test_exact_match() {
    let rules = IgnoreRules::from_str("node_modules\n.git");
    assert!(rules.is_ignored("node_modules"));
    assert!(rules.is_ignored(".git"));
    assert!(!rules.is_ignored("src"));
}

#[test]
fn test_wildcard() {
    let rules = IgnoreRules::from_str("*.log");
    assert!(rules.is_ignored("build.log"));
    assert!(!rules.is_ignored("main.rs"));
}

#[test]
fn test_ignore_rules_basic() {
    let rules = IgnoreRules::from_str("node_modules\n.git\n*.log");

    assert!(rules.is_ignored("node_modules"));
    assert!(rules.is_ignored(".git"));
    assert!(rules.is_ignored("build.log"));
    assert!(!rules.is_ignored("src"));
}

#[test]
fn test_ignore_rules_wildcard() {
    let rules = IgnoreRules::from_str("*.tmp\ntest_*");

    assert!(rules.is_ignored("file.tmp"));
    assert!(rules.is_ignored("test_one"));
    assert!(rules.is_ignored("test_two.txt"));
    assert!(!rules.is_ignored("file.txt"));
}

#[test]
fn test_ignore_rules_empty() {
    let rules = IgnoreRules::from_str("");

    assert!(!rules.is_ignored("anything"));
    assert!(!rules.is_ignored("node_modules"));
}

#[test]
fn ignore_skips_comments_and_bad_patterns() {
    let rules = IgnoreRules::from_str("# *.rs\n  \n[\n  *.o  \n");
    assert!(!rules.is_ignored("main.rs"));
    assert!(rules.is_ignored("main.o"));
    assert!(!rules.is_ignored("["));
    assert!(!IgnoreRules::empty().is_ignored("x"));
}

#[test]
fn empty_tree_digest_is_the_empty_input_digest() {
    let d = tree_digest(&Vec::new(), &IgnoreRules::empty());
    assert_eq!(d, EMPTY_DIGEST);
    assert_eq!(hash_bytes(b""), EMPTY_DIGEST);
}

#[test]
fn file_digest_is_deterministic_and_content_sensitive() {
    let a = hash_bytes(b"consistent data");
    let b = hash_bytes(b"consistent data");
    assert_eq!(a, b);
    assert_eq!(a.len(), 64);
    assert!(a.chars().all(|c| c.is_ascii_digit() || ('a'..='f').contains(&c)));
    assert_ne!(hash_bytes(b"original"), hash_bytes(b"modified"));
}

#[test]
fn text_digest_hashes_utf8_bytes() {
    assert_eq!(hash_text("päth"), hash_bytes("päth".as_bytes()));
    assert_ne!(hash_text("abc"), "abc");
}

#[test]
fn tree_digest_is_order_independent() {
    let rules = IgnoreRules::empty();
    let a = listing(&[("b.txt", "h2"), ("a.txt", "h1"), ("dir/c", "h3")]);
    let b = listing(&[("dir/c", "h3"), ("a.txt", "h1"), ("b.txt", "h2")]);
    assert_eq!(tree_digest(&a, &rules), tree_digest(&b, &rules));
}

#[test]
fn tree_digest_feeds_sorted_path_and_hash() {
    let rules = IgnoreRules::empty();
    let a = listing(&[("b", "2"), ("a", "1")]);
    assert_eq!(tree_digest(&a, &rules), hash_text("a1b2"));
}

#[test]
fn tree_digest_ignores_matched_files() {
    let rules = IgnoreRules::from_str("*.log");
    let base = listing(&[("a.txt", "h1"), ("b.txt", "h2")]);
    let with_log = listing(&[("a.txt", "h1"), ("build.log", "hx"), ("b.txt", "h2")]);
    assert_eq!(tree_digest(&base, &rules), tree_digest(&with_log, &rules));
}

#[test]
fn tree_digest_detects_content_change() {
    let rules = IgnoreRules::empty();
    let a = listing(&[("a.txt", "h1"), ("b.txt", "h2")]);
    let b = listing(&[("a.txt", "h9"), ("b.txt", "h2")]);
    assert_ne!(tree_digest(&a, &rules), tree_digest(&b, &rules));
}
