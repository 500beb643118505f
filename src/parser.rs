//! Line-oriented recipe parser: text in, typed instructions out.
use crate::text::{
    chars_eq, chars_of, line_end, line_end_from, skip_ws, skip_ws_from, string_of, sub_chars, trim,
    trimmed, word_end, word_end_from,
};
use vstd::prelude::*;

verus! {

/// One build instruction.
#[derive(Debug, Clone, PartialEq, Eq)]
pub enum Instruction {
    From(String),
    Workdir(String),
    Copy(String, String),
    Run(String),
    Env(String, String),
    Cmd(String),
    /// (url, target_dir)
    Git(String, String),
    Other(String),
}

/// Mathematical form of an [`Instruction`].
pub enum InstructionView {
    From(Seq<char>),
    Workdir(Seq<char>),
    Copy(Seq<char>, Seq<char>),
    Run(Seq<char>),
    Env(Seq<char>, Seq<char>),
    Cmd(Seq<char>),
    Git(Seq<char>, Seq<char>),
    Other(Seq<char>),
}

impl View for Instruction {
    type V = InstructionView;

    open spec fn view(&self) -> InstructionView {
        match self {
            Instruction::From(a) => InstructionView::From(a@),
            Instruction::Workdir(a) => InstructionView::Workdir(a@),
            Instruction::Copy(a, b) => InstructionView::Copy(a@, b@),
            Instruction::Run(a) => InstructionView::Run(a@),
            Instruction::Env(a, b) => InstructionView::Env(a@, b@),
            Instruction::Cmd(a) => InstructionView::Cmd(a@),
            Instruction::Git(a, b) => InstructionView::Git(a@, b@),
            Instruction::Other(a) => InstructionView::Other(a@),
        }
    }
}

/// What `str::to_uppercase` returns for a string.
pub uninterp spec fn upper_of(s: Seq<char>) -> Seq<char>;

/// Relies on `str::to_uppercase`: the Unicode upper-case mapping of the
/// characters, a function of them alone.
#[verifier::external_body]
fn uppercase(s: &[char]) -> (r: Vec<char>)
    ensures
        r@ == upper_of(s@),
{
    s.iter().collect::<String>().to_uppercase().chars().collect()
}

/// First index at or after `i` that holds a space or `=`.
pub open spec fn env_sep(s: Seq<char>, i: int) -> int
    decreases s.len() - i,
{
    if 0 <= i < s.len() && s[i] != ' ' && s[i] != '=' {
        env_sep(s, i + 1)
    } else {
        i
    }
}

/// The instruction that a trimmed, non-comment line `t` stands for, given the
/// upper-cased form `kw` of its first word.
pub open spec fn classify(t: Seq<char>, kw: Seq<char>) -> Option<InstructionView> {
    let e0: int = word_end(t, 0);
    let s1: int = skip_ws(t, e0);
    let e1: int = word_end(t, s1);
    let s2: int = skip_ws(t, e1);
    let e2: int = word_end(t, s2);
    let has1 = s1 < t.len();
    let has2 = s2 < t.len();
    let w1 = t.subrange(s1, e1);
    let w2 = t.subrange(s2, e2);
    let args = trim(t.subrange(e0, t.len() as int));
    let k: int = env_sep(args, 0);
    if kw == seq!['F', 'R', 'O', 'M'] {
        if has1 {
            Some(InstructionView::From(w1))
        } else {
            None
        }
    } else if kw == seq!['W', 'O', 'R', 'K', 'D', 'I', 'R'] {
        if has1 {
            Some(InstructionView::Workdir(w1))
        } else {
            None
        }
    } else if kw == seq!['C', 'O', 'P', 'Y'] {
        if has2 {
            Some(InstructionView::Copy(w1, w2))
        } else {
            None
        }
    } else if kw == seq!['R', 'U', 'N'] {
        Some(InstructionView::Run(args))
    } else if kw == seq!['E', 'N', 'V'] {
        if k < args.len() {
            Some(
                InstructionView::Env(
                    args.subrange(0, k),
                    args.subrange(k + 1, args.len() as int),
                ),
            )
        } else {
            None
        }
    } else if kw == seq!['C', 'M', 'D'] {
        Some(InstructionView::Cmd(args))
    } else if kw == seq!['G', 'I', 'T'] {
        if has2 {
            Some(InstructionView::Git(w1, w2))
        } else if has1 {
            Some(InstructionView::Git(w1, seq!['.']))
        } else {
            None
        }
    } else {
        Some(InstructionView::Other(t))
    }
}

/// The instruction of one raw line, if any: blank lines, comments and
/// malformed lines give none.
pub open spec fn line_instruction(line: Seq<char>) -> Option<InstructionView> {
    let t = trim(line);
    if t.len() == 0 || t[0] == '#' {
        None
    } else {
        classify(t, upper_of(t.subrange(0, word_end(t, 0))))
    }
}

pub open spec fn opt_view(o: Option<Instruction>) -> Option<InstructionView> {
    match o {
        Some(x) => Some(x@),
        None => None,
    }
}

pub open spec fn opt_seq(o: Option<InstructionView>) -> Seq<InstructionView> {
    match o {
        Some(x) => seq![x],
        None => Seq::empty(),
    }
}

/// Instructions of the lines that start at or after index `i` of `s`.
pub open spec fn parse_from(s: Seq<char>, i: int) -> Seq<InstructionView>
    decreases s.len() + 1 - i,
{
    if 0 <= i < s.len() {
        let e: int = line_end(s, i);
        if i <= e <= s.len() {
            opt_seq(line_instruction(s.subrange(i, e))) + parse_from(s, e + 1)
        } else {
            Seq::empty()
        }
    } else {
        Seq::empty()
    }
}

/// The instructions of a whole recipe, one per recognised line, in order.
pub open spec fn parse_spec(s: Seq<char>) -> Seq<InstructionView> {
    parse_from(s, 0)
}

fn env_sep_from(s: &[char], i: usize) -> (r: usize)
    requires
        i <= s@.len(),
    ensures
        r as int == env_sep(s@, i as int),
        i <= r <= s@.len(),
{
    let mut j: usize = i;
    while j < s.len() && s[j] != ' ' && s[j] != '='
        invariant
            i <= j <= s@.len(),
            env_sep(s@, i as int) == env_sep(s@, j as int),
        decreases s@.len() - j,
    {
        j = j + 1;
    }
    j
}

/// Builds the instruction of a trimmed, non-comment line from its characters
/// and the upper-cased form of its first word.
pub fn classify_line(t: &[char], kw: &[char]) -> (r: Option<Instruction>)
    ensures
        opt_view(r) == classify(t@, kw@),
{
    let e0: usize = word_end_from(t, 0);
    let s1: usize = skip_ws_from(t, e0);
    let e1: usize = word_end_from(t, s1);
    let s2: usize = skip_ws_from(t, e1);
    let e2: usize = word_end_from(t, s2);
    let has1: bool = s1 < t.len();
    let has2: bool = s2 < t.len();
    let rest = sub_chars(t, e0, t.len());
    let args = trimmed(rest.as_slice());
    let dot: [char; 1] = ['.'];
    assert(dot@ =~= seq!['.']);
    let kw_from: [char; 4] = ['F', 'R', 'O', 'M'];
    assert(kw_from@ =~= seq!['F', 'R', 'O', 'M']);
    let kw_workdir: [char; 7] = ['W', 'O', 'R', 'K', 'D', 'I', 'R'];
    assert(kw_workdir@ =~= seq!['W', 'O', 'R', 'K', 'D', 'I', 'R']);
    let kw_copy: [char; 4] = ['C', 'O', 'P', 'Y'];
    assert(kw_copy@ =~= seq!['C', 'O', 'P', 'Y']);
    let kw_run: [char; 3] = ['R', 'U', 'N'];
    assert(kw_run@ =~= seq!['R', 'U', 'N']);
    let kw_env: [char; 3] = ['E', 'N', 'V'];
    assert(kw_env@ =~= seq!['E', 'N', 'V']);
    let kw_cmd: [char; 3] = ['C', 'M', 'D'];
    assert(kw_cmd@ =~= seq!['C', 'M', 'D']);
    let kw_git: [char; 3] = ['G', 'I', 'T'];
    assert(kw_git@ =~= seq!['G', 'I', 'T']);
    if chars_eq(kw, &kw_from) {
        if has1 {
            Some(Instruction::From(string_of(sub_chars(t, s1, e1).as_slice())))
        } else {
            None
        }
    } else if chars_eq(kw, &kw_workdir) {
        if has1 {
            Some(Instruction::Workdir(string_of(sub_chars(t, s1, e1).as_slice())))
        } else {
            None
        }
    } else if chars_eq(kw, &kw_copy) {
        if has2 {
            Some(
                Instruction::Copy(
                    string_of(sub_chars(t, s1, e1).as_slice()),
                    string_of(sub_chars(t, s2, e2).as_slice()),
                ),
            )
        } else {
            None
        }
    } else if chars_eq(kw, &kw_run) {
        Some(Instruction::Run(string_of(args.as_slice())))
    } else if chars_eq(kw, &kw_env) {
        let k: usize = env_sep_from(args.as_slice(), 0);
        if k < args.len() {
            Some(
                Instruction::Env(
                    string_of(sub_chars(args.as_slice(), 0, k).as_slice()),
                    string_of(sub_chars(args.as_slice(), k + 1, args.len()).as_slice()),
                ),
            )
        } else {
            None
        }
    } else if chars_eq(kw, &kw_cmd) {
        Some(Instruction::Cmd(string_of(args.as_slice())))
    } else if chars_eq(kw, &kw_git) {
        if has2 {
            Some(
                Instruction::Git(
                    string_of(sub_chars(t, s1, e1).as_slice()),
                    string_of(sub_chars(t, s2, e2).as_slice()),
                ),
            )
        } else if has1 {
            Some(
                Instruction::Git(
                    string_of(sub_chars(t, s1, e1).as_slice()),
                    string_of(&dot),
                ),
            )
        } else {
            None
        }
    } else {
        Some(Instruction::Other(string_of(t)))
    }
}

/// Parses one raw line (without its line feed).
fn parse_line(line: &[char]) -> (r: Option<Instruction>)
    ensures
        opt_view(r) == line_instruction(line@),
{
    let t = trimmed(line);
    if t.len() == 0 || t[0] == '#' {
        return None;
    }
    let e0: usize = word_end_from(t.as_slice(), 0);
    let kw = uppercase(sub_chars(t.as_slice(), 0, e0).as_slice());
    classify_line(t.as_slice(), kw.as_slice())
}

/// Parses a recipe: each line is trimmed; blank lines and `#` comments are
/// skipped; the first word, upper-cased, selects the instruction; malformed
/// lines are dropped.
pub fn parse_dockerfile(content: &str) -> (r: Vec<Instruction>)
    ensures
        r@.map_values(|i: Instruction| i@) == parse_spec(content@),
{
    let s = chars_of(content);
    let mut out: Vec<Instruction> = Vec::new();
    let mut i: usize = 0;
    while i < s.len()
        invariant
            i <= s@.len(),
            s@ == content@,
            parse_spec(s@) == out@.map_values(|x: Instruction| x@) + parse_from(s@, i as int),
        decreases s@.len() - i,
    {
        let e: usize = line_end_from(s.as_slice(), i);
        let line = sub_chars(s.as_slice(), i, e);
        let ghost prev = out@;
        assert(parse_from(s@, i as int) == opt_seq(
            line_instruction(s@.subrange(i as int, e as int)),
        ) + parse_from(s@, e + 1));
        assert(parse_from(s@, s@.len() as int + 1) == Seq::<InstructionView>::empty());
        assert(parse_from(s@, s@.len() as int) == Seq::<InstructionView>::empty());
        match parse_line(line.as_slice()) {
            Some(x) => {
                out.push(x);
            },
            None => {},
        }
        assert(out@.map_values(|x: Instruction| x@) =~= prev.map_values(|x: Instruction| x@)
            + opt_seq(line_instruction(s@.subrange(i as int, e as int))));
        assert(parse_spec(s@) =~= out@.map_values(|x: Instruction| x@) + parse_from(s@, e + 1));
        if e < s.len() {
            i = e + 1;
        } else {
            i = s.len();
        }
    }
    assert(parse_from(s@, i as int) == Seq::<InstructionView>::empty());
    assert(out@.map_values(|x: Instruction| x@) =~= out@.map_values(|x: Instruction| x@)
        + Seq::<InstructionView>::empty());
    out
}

} // verus!
