//! The environment fingerprint: host OS and architecture, selected
//! environment variables and toolchain versions, hashed in canonical order.
use crate::hasher::{blake3_hex, bytes_of, entries_bytes, hash_bytes, is_hex_digest, map_bytes, push_bytes};
use crate::keys::{lemma_bytes_injective, lemma_middle_differs};
use crate::strmap::{lemma_sorted_unique, StrMap};
use crate::text::{chars_of, string_of, trim, trimmed};
use vstd::prelude::*;

verus! {

#[derive(Debug, Clone)]
pub struct EnvFingerprint {
    pub env_vars: StrMap,
    pub toolchain: StrMap,
    pub os: String,
    pub arch: String,
}

/// The bytes fed to the primitive: OS, architecture, then the variables and
/// the toolchain versions, each in key order.
pub open spec fn fingerprint_bytes(f: EnvFingerprint) -> Seq<u8> {
    bytes_of(f.os@) + bytes_of(f.arch@) + entries_bytes(f.env_vars@) + entries_bytes(f.toolchain@)
}

impl EnvFingerprint {
    pub open spec fn wf(&self) -> bool {
        self.env_vars.wf() && self.toolchain.wf()
    }

    /// A fingerprint of the given host with no variables and no toolchains.
    pub fn new(os: String, arch: String) -> (r: EnvFingerprint)
        ensures
            r.wf(),
            r.os@ == os@,
            r.arch@ == arch@,
            r.env_vars@.len() == 0,
            r.toolchain@.len() == 0,
    {
        EnvFingerprint { env_vars: StrMap::new(), toolchain: StrMap::new(), os, arch }
    }

    /// Records an environment variable; an unset variable contributes nothing.
    pub fn record_var(&mut self, name: String, value: Option<String>)
        requires
            old(self).wf(),
        ensures
            final(self).wf(),
            final(self).os == old(self).os,
            final(self).arch == old(self).arch,
            final(self).toolchain == old(self).toolchain,
            final(self).env_vars.map() == match value {
                Some(v) => old(self).env_vars.map().insert(name@, v@),
                None => old(self).env_vars.map(),
            },
    {
        match value {
            Some(v) => self.env_vars.insert(name, v),
            None => {},
        }
    }

    /// Records the outcome of a toolchain probe: the trimmed output of a
    /// successful probe is the tool's version; a failed probe contributes
    /// nothing.
    pub fn record_probe(&mut self, tool: String, success: bool, stdout: &str)
        requires
            old(self).wf(),
        ensures
            final(self).wf(),
            final(self).os == old(self).os,
            final(self).arch == old(self).arch,
            final(self).env_vars == old(self).env_vars,
            final(self).toolchain.map() == if success {
                old(self).toolchain.map().insert(tool@, trim(stdout@))
            } else {
                old(self).toolchain.map()
            },
    {
        if success {
            let t = trimmed(chars_of(stdout).as_slice());
            self.toolchain.insert(tool, string_of(t.as_slice()));
        }
    }

    /// The fingerprint's digest.
    pub fn hash(&self) -> (r: String)
        requires
            self.wf(),
        ensures
            r@ == blake3_hex(fingerprint_bytes(*self)),
            is_hex_digest(r@),
    {
        let mut b: Vec<u8> = Vec::new();
        push_bytes(&mut b, self.os.as_str());
        push_bytes(&mut b, self.arch.as_str());
        let mut vars = map_bytes(&self.env_vars);
        b.append(&mut vars);
        let mut tools = map_bytes(&self.toolchain);
        b.append(&mut tools);
        assert(b@ =~= fingerprint_bytes(*self));
        hash_bytes(b.as_slice())
    }
}

/// The environment variables that the fingerprint captures when present.
pub fn tracked_vars() -> (r: Vec<String>)
    ensures
        r@.map_values(|s: String| s@) == seq!["PATH"@, "RUST_VERSION"@, "NODE_ENV"@, "LANG"@, "LC_ALL"@],
{
    let mut r: Vec<String> = Vec::new();
    r.push(string_of(chars_of("PATH").as_slice()));
    r.push(string_of(chars_of("RUST_VERSION").as_slice()));
    r.push(string_of(chars_of("NODE_ENV").as_slice()));
    r.push(string_of(chars_of("LANG").as_slice()));
    r.push(string_of(chars_of("LC_ALL").as_slice()));
    assert(r@.map_values(|s: String| s@) =~= seq!["PATH"@, "RUST_VERSION"@, "NODE_ENV"@, "LANG"@, "LC_ALL"@]);
    r
}

/// The toolchain probes: a command and its single argument.
pub fn toolchain_probes() -> (r: Vec<(String, String)>)
    ensures
        r@.map_values(|p: (String, String)| (p.0@, p.1@)) == seq![
            ("rustc"@, "--version"@),
            ("node"@, "--version"@),
            ("python3"@, "--version"@),
            ("go"@, "version"@),
        ],
{
    let mut r: Vec<(String, String)> = Vec::new();
    r.push((string_of(chars_of("rustc").as_slice()), string_of(chars_of("--version").as_slice())));
    r.push((string_of(chars_of("node").as_slice()), string_of(chars_of("--version").as_slice())));
    r.push((string_of(chars_of("python3").as_slice()), string_of(chars_of("--version").as_slice())));
    r.push((string_of(chars_of("go").as_slice()), string_of(chars_of("version").as_slice())));
    assert(r@.map_values(|p: (String, String)| (p.0@, p.1@)) =~= seq![
        ("rustc"@, "--version"@),
        ("node"@, "--version"@),
        ("python3"@, "--version"@),
        ("go"@, "version"@),
    ]);
    r
}

proof fn lemma_entries_bytes_concat(a: Seq<(Seq<char>, Seq<char>)>, b: Seq<(Seq<char>, Seq<char>)>)
    ensures
        entries_bytes(a + b) == entries_bytes(a) + entries_bytes(b),
    decreases b.len(),
{
    if b.len() == 0 {
        assert(a + b =~= a);
        assert(entries_bytes(b) =~= Seq::<u8>::empty());
        assert(entries_bytes(a) + entries_bytes(b) =~= entries_bytes(a));
    } else {
        lemma_entries_bytes_concat(a, b.drop_last());
        assert((a + b).drop_last() =~= a + b.drop_last());
        assert((a + b).last() == b.last());
        assert(entries_bytes(a) + entries_bytes(b) =~= entries_bytes(a) + entries_bytes(
            b.drop_last(),
        ) + bytes_of(b.last().0) + bytes_of(b.last().1));
    }
}

/// Entries that differ only in the value of one key give different bytes.
proof fn lemma_entries_value_discriminates(
    pre: Seq<(Seq<char>, Seq<char>)>,
    k: Seq<char>,
    v1: Seq<char>,
    v2: Seq<char>,
    post: Seq<(Seq<char>, Seq<char>)>,
)
    requires
        v1 != v2,
    ensures
        entries_bytes(pre + seq![(k, v1)] + post) != entries_bytes(pre + seq![(k, v2)] + post),
{
    lemma_entries_bytes_concat(pre + seq![(k, v1)], post);
    lemma_entries_bytes_concat(pre + seq![(k, v2)], post);
    assert((pre + seq![(k, v1)]).drop_last() =~= pre);
    assert((pre + seq![(k, v2)]).drop_last() =~= pre);
    lemma_bytes_injective(v1, v2);
    lemma_middle_differs(
        entries_bytes(pre) + bytes_of(k),
        bytes_of(v1),
        bytes_of(v2),
        entries_bytes(post),
    );
}

/// A fingerprint that differs from another only in its OS, only in its
/// architecture, only in the value of one variable, or only in the version
/// of one toolchain feeds different bytes to the primitive.
pub proof fn lemma_fingerprint_preimage_discriminates(
    a: EnvFingerprint,
    b: EnvFingerprint,
    pre: Seq<(Seq<char>, Seq<char>)>,
    k: Seq<char>,
    post: Seq<(Seq<char>, Seq<char>)>,
)
    requires
        ({
            &&& a.os@ != b.os@
            &&& a.arch@ == b.arch@
            &&& a.env_vars@ == b.env_vars@
            &&& a.toolchain@ == b.toolchain@
        }) || ({
            &&& a.os@ == b.os@
            &&& a.arch@ != b.arch@
            &&& a.env_vars@ == b.env_vars@
            &&& a.toolchain@ == b.toolchain@
        }) || ({
            &&& a.os@ == b.os@
            &&& a.arch@ == b.arch@
            &&& a.toolchain@ == b.toolchain@
            &&& exists|v1: Seq<char>, v2: Seq<char>|
                v1 != v2 && a.env_vars@ == pre + seq![(k, v1)] + post && b.env_vars@ == pre
                    + seq![(k, v2)] + post
        }) || ({
            &&& a.os@ == b.os@
            &&& a.arch@ == b.arch@
            &&& a.env_vars@ == b.env_vars@
            &&& exists|v1: Seq<char>, v2: Seq<char>|
                v1 != v2 && a.toolchain@ == pre + seq![(k, v1)] + post && b.toolchain@ == pre
                    + seq![(k, v2)] + post
        }),
    ensures
        fingerprint_bytes(a) != fingerprint_bytes(b),
{
    let oa = bytes_of(a.os@);
    let ob = bytes_of(b.os@);
    let ra = bytes_of(a.arch@);
    let rb = bytes_of(b.arch@);
    let ea = entries_bytes(a.env_vars@);
    let eb = entries_bytes(b.env_vars@);
    let ta = entries_bytes(a.toolchain@);
    let tb = entries_bytes(b.toolchain@);
    if a.os@ != b.os@ {
        lemma_bytes_injective(a.os@, b.os@);
        lemma_middle_differs(Seq::empty(), oa, ob, ra + ea + ta);
        assert(fingerprint_bytes(a) =~= Seq::<u8>::empty() + oa + (ra + ea + ta));
        assert(fingerprint_bytes(b) =~= Seq::<u8>::empty() + ob + (ra + ea + ta));
    } else if a.arch@ != b.arch@ {
        lemma_bytes_injective(a.arch@, b.arch@);
        lemma_middle_differs(oa, ra, rb, ea + ta);
        assert(fingerprint_bytes(a) =~= oa + ra + (ea + ta));
        assert(fingerprint_bytes(b) =~= oa + rb + (ea + ta));
    } else if exists|v1: Seq<char>, v2: Seq<char>|
        v1 != v2 && a.env_vars@ == pre + seq![(k, v1)] + post && b.env_vars@ == pre + seq![
            (k, v2),
        ] + post {
        let (v1, v2) = choose|v1: Seq<char>, v2: Seq<char>|
            v1 != v2 && a.env_vars@ == pre + seq![(k, v1)] + post && b.env_vars@ == pre + seq![
                (k, v2),
            ] + post;
        lemma_entries_value_discriminates(pre, k, v1, v2, post);
        lemma_middle_differs(oa + ra, ea, eb, ta);
    } else {
        let (v1, v2) = choose|v1: Seq<char>, v2: Seq<char>|
            v1 != v2 && a.toolchain@ == pre + seq![(k, v1)] + post && b.toolchain@ == pre
                + seq![(k, v2)] + post;
        lemma_entries_value_discriminates(pre, k, v1, v2, post);
        lemma_middle_differs(oa + ra + ea, ta, tb, Seq::empty());
        assert(fingerprint_bytes(a) =~= oa + ra + ea + ta + Seq::<u8>::empty());
        assert(fingerprint_bytes(b) =~= oa + ra + ea + tb + Seq::<u8>::empty());
    }
}

/// The fingerprint depends on what the variables and toolchains map to, not
/// on the order in which they were collected.
pub proof fn lemma_fingerprint_order_independent(a: EnvFingerprint, b: EnvFingerprint)
    requires
        a.wf(),
        b.wf(),
        a.os@ == b.os@,
        a.arch@ == b.arch@,
        a.env_vars.map() == b.env_vars.map(),
        a.toolchain.map() == b.toolchain.map(),
    ensures
        blake3_hex(fingerprint_bytes(a)) == blake3_hex(fingerprint_bytes(b)),
{
    lemma_sorted_unique(a.env_vars@, b.env_vars@);
    lemma_sorted_unique(a.toolchain@, b.toolchain@);
}

} // verus!
