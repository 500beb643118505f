//! Turns an instruction list into a linear build graph.
use crate::graph::{deps_wf, BuildGraph, Node, NodeKind};
use crate::parser::{Instruction, InstructionView};
use crate::strmap::StrMap;
use crate::text::{append_str, chars_of, string_of};
use vstd::prelude::*;

verus! {

/// Canonical textual form of an instruction.
pub open spec fn content_of(i: InstructionView) -> Seq<char> {
    match i {
        InstructionView::From(a) => "FROM "@ + a,
        InstructionView::Workdir(a) => "WORKDIR "@ + a,
        InstructionView::Copy(a, b) => "COPY "@ + a + " "@ + b,
        InstructionView::Run(a) => "RUN "@ + a,
        InstructionView::Env(k, v) => "ENV "@ + k + "="@ + v,
        InstructionView::Cmd(a) => "CMD "@ + a,
        InstructionView::Git(a, b) => "GIT "@ + a + " "@ + b,
        InstructionView::Other(a) => a,
    }
}

/// Whether a node kind belongs to an instruction.
pub open spec fn kind_of(k: NodeKind, i: InstructionView) -> bool {
    match i {
        InstructionView::From(_) => k == NodeKind::From,
        InstructionView::Workdir(_) => k == NodeKind::Workdir,
        InstructionView::Copy(a, _) => k is Copy && k->src@ == a,
        InstructionView::Run(_) => k == NodeKind::Run,
        InstructionView::Env(_, _) => k == NodeKind::Env,
        _ => k == NodeKind::Other,
    }
}

/// `root / rel` as `PathBuf::join` forms it: an absolute `rel` replaces the root.
pub open spec fn join_path(root: Seq<char>, rel: Seq<char>) -> Seq<char> {
    if rel.len() > 0 && rel[0] == '/' {
        rel
    } else if root.len() == 0 || root.last() == '/' {
        root + rel
    } else {
        root + seq!['/'] + rel
    }
}

/// The path that a Copy node hashes: the whole root for `.`.
pub open spec fn source_of(i: InstructionView, root: Seq<char>) -> Option<Seq<char>> {
    match i {
        InstructionView::Copy(src, _) => if src == seq!['.'] {
            Some(root)
        } else {
            Some(join_path(root, src))
        },
        _ => None,
    }
}

/// A map of overrides after instruction `i` is applied to it.
pub open spec fn apply_env(m: Map<Seq<char>, Seq<char>>, i: InstructionView) -> Map<
    Seq<char>,
    Seq<char>,
> {
    match i {
        InstructionView::Env(k, v) => m.insert(k, v),
        _ => m,
    }
}

/// The environment overrides introduced by the first `n` instructions; a
/// later `ENV` of a key overrides an earlier one.
pub open spec fn env_after(ins: Seq<InstructionView>, n: int) -> Map<Seq<char>, Seq<char>>
    decreases n,
{
    if n <= 0 {
        Map::empty()
    } else {
        apply_env(env_after(ins, n - 1), ins[n - 1])
    }
}

pub open spec fn opt_str_view(o: Option<String>) -> Option<Seq<char>> {
    match o {
        Some(s) => Some(s@),
        None => None,
    }
}

/// Node `n` is the freshly built node `i` for instruction `ins` under `root`,
/// with the overrides `env` in force: not yet keyed, and dirty until a cache
/// probe says otherwise.
pub open spec fn built_node(
    n: Node,
    i: int,
    ins: InstructionView,
    root: Seq<char>,
    env: Map<Seq<char>, Seq<char>>,
) -> bool {
    &&& n.id == i
    &&& n.content@ == content_of(ins)
    &&& n.name@ == content_of(ins)
    &&& kind_of(n.kind, ins)
    &&& n.hash@ == Seq::<char>::empty()
    &&& n.dirty
    &&& !n.cache_hit
    &&& n.deps@ == (if i == 0 {
        Seq::<usize>::empty()
    } else {
        seq![(i - 1) as usize]
    })
    &&& opt_str_view(n.source_path) == source_of(ins, root)
    &&& n.env.wf()
    &&& n.env.map() == env
}

fn join_source(root: &str, src: &String) -> (r: String)
    ensures
        r@ == join_path(root@, src@),
{
    let rc = chars_of(root);
    let sc = chars_of(src.as_str());
    let mut out: Vec<char> = Vec::new();
    if sc.len() > 0 && sc[0] == '/' {
        return src.clone();
    }
    append_str(&mut out, root);
    if rc.len() > 0 && rc[rc.len() - 1] != '/' {
        out.push('/');
    }
    append_str(&mut out, src.as_str());
    proof {
        if rc@.len() > 0 && rc@.last() != '/' {
            assert(out@ =~= root@ + seq!['/'] + src@);
        } else {
            assert(out@ =~= root@ + src@);
        }
    }
    string_of(out.as_slice())
}

fn make_node(ins: &Instruction, i: usize, root: &str, prev: &StrMap) -> (n: Node)
    requires
        prev.wf(),
    ensures
        built_node(n, i as int, ins@, root@, apply_env(prev.map(), ins@)),
{
    let mut text: Vec<char> = Vec::new();
    let mut env = prev.copy();
    let mut source_path: Option<String> = None;
    let kind: NodeKind;
    match ins {
        Instruction::From(a) => {
            append_str(&mut text, "FROM ");
            append_str(&mut text, a.as_str());
            assert(text@ =~= content_of(ins@));
            kind = NodeKind::From;
        },
        Instruction::Workdir(a) => {
            append_str(&mut text, "WORKDIR ");
            append_str(&mut text, a.as_str());
            assert(text@ =~= content_of(ins@));
            kind = NodeKind::Workdir;
        },
        Instruction::Copy(a, b) => {
            append_str(&mut text, "COPY ");
            append_str(&mut text, a.as_str());
            append_str(&mut text, " ");
            append_str(&mut text, b.as_str());
            let dot: [char; 1] = ['.'];
            assert(dot@ =~= seq!['.']);
            let ac = chars_of(a.as_str());
            if crate::text::chars_eq(ac.as_slice(), &dot) {
                source_path = Some(string_of(chars_of(root).as_slice()));
            } else {
                source_path = Some(join_source(root, a));
            }
            assert(text@ =~= content_of(ins@));
            kind = NodeKind::Copy { src: a.clone() };
        },
        Instruction::Run(a) => {
            append_str(&mut text, "RUN ");
            append_str(&mut text, a.as_str());
            assert(text@ =~= content_of(ins@));
            kind = NodeKind::Run;
        },
        Instruction::Env(k, v) => {
            append_str(&mut text, "ENV ");
            append_str(&mut text, k.as_str());
            append_str(&mut text, "=");
            append_str(&mut text, v.as_str());
            env.insert(k.clone(), v.clone());
            assert(text@ =~= content_of(ins@));
            kind = NodeKind::Env;
        },
        Instruction::Cmd(a) => {
            append_str(&mut text, "CMD ");
            append_str(&mut text, a.as_str());
            assert(text@ =~= content_of(ins@));
            kind = NodeKind::Other;
        },
        Instruction::Git(a, b) => {
            append_str(&mut text, "GIT ");
            append_str(&mut text, a.as_str());
            append_str(&mut text, " ");
            append_str(&mut text, b.as_str());
            assert(text@ =~= content_of(ins@));
            kind = NodeKind::Other;
        },
        Instruction::Other(a) => {
            append_str(&mut text, a.as_str());
            assert(text@ =~= content_of(ins@));
            kind = NodeKind::Other;
        },
    }
    assert(env.map() =~= apply_env(prev.map(), ins@));
    let empty: Vec<char> = Vec::new();
    let mut deps: Vec<usize> = Vec::new();
    if i > 0 {
        deps.push(i - 1);
    }
    assert(deps@ =~= (if i == 0 {
        Seq::<usize>::empty()
    } else {
        seq![(i - 1) as usize]
    }));
    Node {
        id: i,
        name: string_of(text.as_slice()),
        kind,
        content: string_of(text.as_slice()),
        hash: string_of(empty.as_slice()),
        dirty: true,
        deps,
        source_path,
        env,
        cache_hit: false,
    }
}

/// Builds the linear graph of an instruction list: node `i` is made from
/// instruction `i`, depends on node `i - 1`, and carries the environment
/// overrides of instructions `0..=i`. Copy sources resolve against
/// `project_root`.
pub fn build_graph_from_instructions(instructions: Vec<Instruction>, project_root: &str) -> (r:
    BuildGraph)
    ensures
        r.nodes@.len() == instructions@.len(),
        forall|i: int|
            0 <= i < r.nodes@.len() ==> built_node(
                #[trigger] r.nodes@[i],
                i,
                instructions@[i]@,
                project_root@,
                env_after(instructions@.map_values(|x: Instruction| x@), i + 1),
            ),
        deps_wf(r.nodes@),
{
    let ghost views = instructions@.map_values(|x: Instruction| x@);
    let mut nodes: Vec<Node> = Vec::new();
    let mut cur = StrMap::new();
    proof {
        crate::strmap::lemma_empty_map(cur@);
    }
    let mut i: usize = 0;
    while i < instructions.len()
        invariant
            i <= instructions@.len(),
            nodes@.len() == i,
            forall|k: int|
                0 <= k < i ==> built_node(
                    #[trigger] nodes@[k],
                    k,
                    instructions@[k]@,
                    project_root@,
                    env_after(views, k + 1),
                ),
            views == instructions@.map_values(|x: Instruction| x@),
            cur.wf(),
            cur.map() == env_after(views, i as int),
        decreases instructions@.len() - i,
    {
        let n = make_node(&instructions[i], i, project_root, &cur);
        assert(views[i as int] == instructions@[i as int]@);
        cur = n.env.copy();
        nodes.push(n);
        i = i + 1;
    }
    BuildGraph { nodes }
}

} // verus!
