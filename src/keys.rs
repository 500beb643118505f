//! The key computer: derives each node's content address from its parents'
//! keys, its instruction, its input tree digest, its environment overrides
//! and the environment fingerprint.
use crate::graph::{deps_wf, BuildGraph, Node};
use crate::hasher::{blake3_hex, bytes_of, entries_bytes, hash_bytes, is_hex_digest, map_bytes, push_bytes};
use crate::strmap::lemma_sorted_unique;
use vstd::prelude::*;

verus! {

/// The bytes of the parents' keys, in the order the dependencies are listed.
pub open spec fn parents_bytes(nodes: Seq<Node>, deps: Seq<usize>) -> Seq<u8>
    decreases deps.len(),
{
    if deps.len() == 0 {
        Seq::empty()
    } else {
        let d = deps.last() as int;
        parents_bytes(nodes, deps.drop_last()) + if d < nodes.len() {
            bytes_of(nodes[d].hash@)
        } else {
            Seq::empty()
        }
    }
}

/// The bytes of the input digest that counts for a node: only nodes with a
/// source path have one.
pub open spec fn input_bytes(n: Node, input: Seq<char>) -> Seq<u8> {
    if n.source_path is Some {
        bytes_of(input)
    } else {
        Seq::empty()
    }
}

/// Preimage of the key of node `i`.
pub open spec fn key_preimage(nodes: Seq<Node>, i: int, input: Seq<char>, fp: Seq<char>) -> Seq<
    u8,
> {
    parents_bytes(nodes, nodes[i].deps@) + bytes_of(nodes[i].content@) + input_bytes(nodes[i], input)
        + entries_bytes(nodes[i].env@) + bytes_of(fp)
}

/// `b` is `a` with only the keys changed.
pub open spec fn same_but_hash(a: Node, b: Node) -> bool {
    &&& a.id == b.id
    &&& a.name == b.name
    &&& a.kind == b.kind
    &&& a.content == b.content
    &&& a.dirty == b.dirty
    &&& a.deps == b.deps
    &&& a.source_path == b.source_path
    &&& a.env == b.env
    &&& a.cache_hit == b.cache_hit
}

proof fn lemma_parents_frame(n1: Seq<Node>, n2: Seq<Node>, deps: Seq<usize>, bound: int)
    requires
        n1.len() == n2.len(),
        forall|j: int| 0 <= j < deps.len() ==> #[trigger] deps[j] < bound,
        forall|d: int| 0 <= d < bound && d < n1.len() ==> #[trigger] n1[d].hash@ == n2[d].hash@,
    ensures
        parents_bytes(n1, deps) == parents_bytes(n2, deps),
    decreases deps.len(),
{
    if deps.len() > 0 {
        lemma_parents_frame(n1, n2, deps.drop_last(), bound);
    }
}

/// Computes every node's key, in node order. `inputs[i]` is the tree digest
/// of node `i`'s source path (empty where the path does not exist); it is
/// used only for nodes that have a source path.
pub fn compute_keys(graph: &mut BuildGraph, inputs: &Vec<String>, fingerprint: &str)
    requires
        deps_wf(old(graph).nodes@),
        inputs@.len() == old(graph).nodes@.len(),
        forall|i: int| 0 <= i < old(graph).nodes@.len() ==> (#[trigger] old(graph).nodes@[i]).env.wf(),
    ensures
        final(graph).nodes@.len() == old(graph).nodes@.len(),
        forall|i: int|
            0 <= i < final(graph).nodes@.len() ==> same_but_hash(
                old(graph).nodes@[i],
                #[trigger] final(graph).nodes@[i],
            ),
        forall|i: int|
            0 <= i < final(graph).nodes@.len() ==> (#[trigger] final(graph).nodes@[i]).hash@
                == blake3_hex(key_preimage(final(graph).nodes@, i, inputs@[i]@, fingerprint@)),
        forall|i: int|
            0 <= i < final(graph).nodes@.len() ==> is_hex_digest(
                (#[trigger] final(graph).nodes@[i]).hash@,
            ),
{
    let ghost orig = graph.nodes@;
    let n = graph.nodes.len();
    let mut i: usize = 0;
    while i < n
        invariant
            n == orig.len(),
            graph.nodes@.len() == n,
            i <= n,
            deps_wf(orig),
            inputs@.len() == n,
            forall|k: int| 0 <= k < n ==> #[trigger] orig[k].env.wf(),
            forall|k: int| 0 <= k < n ==> same_but_hash(orig[k], #[trigger] graph.nodes@[k]),
            forall|k: int| i <= k < n ==> #[trigger] graph.nodes@[k] == orig[k],
            forall|k: int|
                0 <= k < i ==> (#[trigger] graph.nodes@[k]).hash@ == blake3_hex(
                    key_preimage(graph.nodes@, k, inputs@[k]@, fingerprint@),
                ),
            forall|k: int| 0 <= k < i ==> is_hex_digest((#[trigger] graph.nodes@[k]).hash@),
        decreases n - i,
    {
        let mut pre: Vec<u8> = Vec::new();
        let mut j: usize = 0;
        let ghost cur = graph.nodes@;
        while j < graph.nodes[i].deps.len()
            invariant
                cur == graph.nodes@,
                i < n,
                graph.nodes@.len() == n,
                j <= cur[i as int].deps@.len(),
                pre@ == parents_bytes(cur, cur[i as int].deps@.subrange(0, j as int)),
            decreases cur[i as int].deps@.len() - j,
        {
            let d = graph.nodes[i].deps[j];
            let ghost ds = cur[i as int].deps@.subrange(0, j + 1);
            assert(ds.drop_last() =~= cur[i as int].deps@.subrange(0, j as int));
            if d < graph.nodes.len() {
                push_bytes(&mut pre, graph.nodes[d].hash.as_str());
            }
            assert(pre@ =~= parents_bytes(cur, ds));
            j = j + 1;
        }
        assert(cur[i as int].deps@.subrange(0, j as int) =~= cur[i as int].deps@);
        push_bytes(&mut pre, graph.nodes[i].content.as_str());
        let has_source = graph.nodes[i].source_path.is_some();
        if has_source {
            push_bytes(&mut pre, inputs[i].as_str());
        }
        let mut envb = map_bytes(&graph.nodes[i].env);
        pre.append(&mut envb);
        push_bytes(&mut pre, fingerprint);
        assert(pre@ =~= key_preimage(cur, i as int, inputs@[i as int]@, fingerprint@));
        let h = hash_bytes(pre.as_slice());
        let mut node = graph.nodes.remove(i);
        node.hash = h;
        graph.nodes.insert(i, node);
        proof {
            let now = graph.nodes@;
            assert forall|k: int| 0 <= k <= i implies #[trigger] now[k].hash@ == blake3_hex(
                key_preimage(now, k, inputs@[k]@, fingerprint@),
            ) by {
                assert(forall|j: int|
                    0 <= j < now[k].deps@.len() ==> #[trigger] now[k].deps@[j] < k);
                assert(forall|j: int|
                    0 <= j < orig[k].deps@.len() ==> #[trigger] orig[k].deps@[j] < k);
                lemma_parents_frame(cur, now, now[k].deps@, k);
            }
        }
        i = i + 1;
    }
}

/// Two nodes whose content, input digest, environment overrides, parent keys
/// and fingerprint are identical receive identical keys.
pub proof fn lemma_key_deterministic(
    n1: Seq<Node>,
    i1: int,
    in1: Seq<char>,
    n2: Seq<Node>,
    i2: int,
    in2: Seq<char>,
    fp: Seq<char>,
)
    requires
        0 <= i1 < n1.len(),
        0 <= i2 < n2.len(),
        n1[i1].content@ == n2[i2].content@,
        input_bytes(n1[i1], in1) == input_bytes(n2[i2], in2),
        n1[i1].env.wf(),
        n2[i2].env.wf(),
        n1[i1].env.map() == n2[i2].env.map(),
        parents_bytes(n1, n1[i1].deps@) == parents_bytes(n2, n2[i2].deps@),
    ensures
        blake3_hex(key_preimage(n1, i1, in1, fp)) == blake3_hex(key_preimage(n2, i2, in2, fp)),
{
    lemma_sorted_unique(n1[i1].env@, n2[i2].env@);
}

pub proof fn lemma_middle_differs(a: Seq<u8>, x: Seq<u8>, y: Seq<u8>, b: Seq<u8>)
    requires
        x != y,
    ensures
        a + x + b != a + y + b,
{
    if x.len() == y.len() && a + x + b == a + y + b {
        assert forall|i: int| 0 <= i < x.len() implies x[i] == y[i] by {
            assert((a + x + b)[a.len() + i] == x[i]);
            assert((a + y + b)[a.len() + i] == y[i]);
        }
        assert(x =~= y);
    } else if x.len() != y.len() {
        assert((a + x + b).len() != (a + y + b).len());
    }
}

pub proof fn lemma_bytes_injective(s: Seq<char>, t: Seq<char>)
    requires
        s != t,
    ensures
        bytes_of(s) != bytes_of(t),
{
    vstd::utf8::encode_utf8_decode_utf8(s);
    vstd::utf8::encode_utf8_decode_utf8(t);
}

/// Changing only the content, or only the input digest of a node with a
/// source path, or only the fingerprint, changes the key preimage.
pub proof fn lemma_preimage_discriminates(
    n1: Seq<Node>,
    i1: int,
    in1: Seq<char>,
    fp1: Seq<char>,
    n2: Seq<Node>,
    i2: int,
    in2: Seq<char>,
    fp2: Seq<char>,
)
    requires
        0 <= i1 < n1.len(),
        0 <= i2 < n2.len(),
        parents_bytes(n1, n1[i1].deps@) == parents_bytes(n2, n2[i2].deps@),
        n1[i1].env@ == n2[i2].env@,
        n1[i1].source_path is Some == n2[i2].source_path is Some,
        (n1[i1].content@ != n2[i2].content@ && in1 == in2 && fp1 == fp2) || (n1[i1].content@
            == n2[i2].content@ && n1[i1].source_path is Some && in1 != in2 && fp1 == fp2) || (
        n1[i1].content@ == n2[i2].content@ && in1 == in2 && fp1 != fp2),
    ensures
        key_preimage(n1, i1, in1, fp1) != key_preimage(n2, i2, in2, fp2),
{
    let p = parents_bytes(n1, n1[i1].deps@);
    let e = entries_bytes(n1[i1].env@);
    let c1 = bytes_of(n1[i1].content@);
    let c2 = bytes_of(n2[i2].content@);
    let x1 = input_bytes(n1[i1], in1);
    let x2 = input_bytes(n2[i2], in2);
    let f1 = bytes_of(fp1);
    let f2 = bytes_of(fp2);
    assert(key_preimage(n1, i1, in1, fp1) == p + c1 + x1 + e + f1);
    assert(key_preimage(n2, i2, in2, fp2) == p + c2 + x2 + e + f2);
    if n1[i1].content@ != n2[i2].content@ {
        lemma_bytes_injective(n1[i1].content@, n2[i2].content@);
        lemma_middle_differs(p, c1, c2, x1 + e + f1);
        assert(p + c1 + x1 + e + f1 =~= p + c1 + (x1 + e + f1));
        assert(p + c2 + x2 + e + f2 =~= p + c2 + (x1 + e + f1));
    } else if in1 != in2 {
        lemma_bytes_injective(in1, in2);
        lemma_middle_differs(p + c1, x1, x2, e + f1);
        assert(p + c1 + x1 + e + f1 =~= p + c1 + x1 + (e + f1));
        assert(p + c2 + x2 + e + f2 =~= p + c1 + x2 + (e + f1));
    } else {
        lemma_bytes_injective(fp1, fp2);
        lemma_middle_differs(p + c1 + x1 + e, f1, f2, Seq::empty());
        assert(p + c1 + x1 + e + f1 =~= p + c1 + x1 + e + f1 + Seq::<u8>::empty());
        assert(p + c2 + x2 + e + f2 =~= p + c1 + x1 + e + f2 + Seq::<u8>::empty());
    }
}

} // verus!
