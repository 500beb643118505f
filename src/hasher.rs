//! Content hashing: the 256-bit digest primitive, ignore rules, and the
//! canonical digest of a directory listing.
use crate::strmap::{lemma_sorted_unique, sorted, to_map, StrMap};
use crate::text::{chars_of, line_end, line_end_from, sub_chars, trim, trimmed, string_of};
use vstd::prelude::*;

verus! {

/// The BLAKE3 digest of `data`, as 64 lower-case hexadecimal digits.
pub uninterp spec fn blake3_hex(data: Seq<u8>) -> Seq<char>;

pub open spec fn is_hex_digit(c: char) -> bool {
    ('0' as u32 <= c as u32 && c as u32 <= '9' as u32) || ('a' as u32 <= c as u32 && c as u32
        <= 'f' as u32)
}

/// 64 lower-case hexadecimal digits: the text form of a 256-bit digest.
pub open spec fn is_hex_digest(s: Seq<char>) -> bool {
    s.len() == 64 && forall|i: int| 0 <= i < s.len() ==> is_hex_digit(#[trigger] s[i])
}

/// Relies on `blake3::hash` and `blake3::Hash::to_hex`: the digest of the
/// bytes, written as two lower-case hex digits per byte of the 32-byte hash.
#[verifier::external_body]
fn blake3_digest(data: &[u8]) -> (r: String)
    ensures
        r@ == blake3_hex(data@),
        is_hex_digest(r@),
{
    blake3::hash(data).to_hex().to_string()
}

/// The UTF-8 bytes of a string.
pub open spec fn bytes_of(s: Seq<char>) -> Seq<u8> {
    vstd::utf8::encode_utf8(s)
}

/// Appends the UTF-8 bytes of `s` to `out`.
pub fn push_bytes(out: &mut Vec<u8>, s: &str)
    ensures
        final(out)@ == old(out)@ + bytes_of(s@),
{
    let b = s.as_bytes();
    let ghost start = out@;
    let mut k: usize = 0;
    while k < b.len()
        invariant
            b@ == bytes_of(s@),
            k <= b@.len(),
            out@ == start + b@.subrange(0, k as int),
        decreases b@.len() - k,
    {
        out.push(b[k]);
        k = k + 1;
        assert(out@ =~= start + b@.subrange(0, k as int));
    }
    assert(b@.subrange(0, k as int) =~= b@);
}

/// Digest of a byte string, such as the contents of a file.
pub fn hash_bytes(data: &[u8]) -> (r: String)
    ensures
        r@ == blake3_hex(data@),
        is_hex_digest(r@),
{
    blake3_digest(data)
}

/// Digest of the UTF-8 bytes of a string.
pub fn hash_text(s: &str) -> (r: String)
    ensures
        r@ == blake3_hex(bytes_of(s@)),
        is_hex_digest(r@),
{
    let mut b: Vec<u8> = Vec::new();
    push_bytes(&mut b, s);
    assert(b@ =~= bytes_of(s@));
    blake3_digest(b.as_slice())
}

/// Whether `glob::Pattern::new` accepts the pattern.
pub uninterp spec fn glob_compiles(pattern: Seq<char>) -> bool;

/// Whether the pattern compiles and the compiled pattern matches `path`.
pub uninterp spec fn glob_match(pattern: Seq<char>, path: Seq<char>) -> bool;

/// Relies on `glob::Pattern::new`: whether the text is a valid shell glob.
#[verifier::external_body]
fn pattern_compiles(pattern: &str) -> (r: bool)
    ensures
        r == glob_compiles(pattern@),
{
    glob::Pattern::new(pattern).is_ok()
}

/// Relies on `glob::Pattern::new` and `glob::Pattern::matches`: whether the
/// compiled pattern matches the whole of `path`.
#[verifier::external_body]
fn pattern_matches(pattern: &str, path: &str) -> (r: bool)
    ensures
        r == glob_match(pattern@, path@),
{
    match glob::Pattern::new(pattern) {
        Ok(p) => p.matches(path),
        Err(_) => false,
    }
}

/// The pattern that one line of an ignore file contributes, if any.
pub open spec fn rule_of_line(line: Seq<char>) -> Option<Seq<char>> {
    let t = trim(line);
    if t.len() == 0 || t[0] == '#' || !glob_compiles(t) {
        None
    } else {
        Some(t)
    }
}

/// The patterns of the lines that start at or after index `i` of `s`.
pub open spec fn rules_from(s: Seq<char>, i: int) -> Seq<Seq<char>>
    decreases s.len() + 1 - i,
{
    if 0 <= i < s.len() {
        let e = line_end(s, i);
        if i <= e <= s.len() {
            match rule_of_line(s.subrange(i, e)) {
                Some(p) => seq![p] + rules_from(s, e + 1),
                None => rules_from(s, e + 1),
            }
        } else {
            Seq::empty()
        }
    } else {
        Seq::empty()
    }
}

/// Whether any pattern matches `path`.
pub open spec fn ignored_by(patterns: Seq<Seq<char>>, path: Seq<char>) -> bool {
    exists|i: int| 0 <= i < patterns.len() && glob_match(#[trigger] patterns[i], path)
}

/// Ordered list of compiled glob patterns that exclude paths from hashing.
#[derive(Debug, Clone)]
pub struct IgnoreRules {
    patterns: Vec<String>,
}

impl View for IgnoreRules {
    type V = Seq<Seq<char>>;

    closed spec fn view(&self) -> Seq<Seq<char>> {
        self.patterns@.map_values(|p: String| p@)
    }
}

impl IgnoreRules {
    /// Rules that ignore nothing.
    pub fn empty() -> (r: IgnoreRules)
        ensures
            r@ == Seq::<Seq<char>>::empty(),
    {
        let r = IgnoreRules { patterns: Vec::new() };
        assert(r@ =~= Seq::<Seq<char>>::empty());
        r
    }

    /// One pattern per line; blank lines, `#` comments and patterns that do
    /// not compile are skipped.
    pub fn from_str(content: &str) -> (r: IgnoreRules)
        ensures
            r@ == rules_from(content@, 0),
    {
        let s = chars_of(content);
        let mut pats: Vec<String> = Vec::new();
        let mut i: usize = 0;
        while i < s.len()
            invariant
                i <= s@.len(),
                s@ == content@,
                rules_from(s@, 0) == pats@.map_values(|p: String| p@) + rules_from(s@, i as int),
            decreases s@.len() - i,
        {
            let e: usize = line_end_from(s.as_slice(), i);
            let line = sub_chars(s.as_slice(), i, e);
            let t = trimmed(line.as_slice());
            let ghost prev = pats@.map_values(|p: String| p@);
            assert(rules_from(s@, s@.len() as int + 1) == Seq::<Seq<char>>::empty());
            assert(rules_from(s@, s@.len() as int) == Seq::<Seq<char>>::empty());
            if t.len() > 0 && t[0] != '#' {
                let text = string_of(t.as_slice());
                if pattern_compiles(text.as_str()) {
                    pats.push(text);
                    assert(pats@.map_values(|p: String| p@) =~= prev + seq![t@]);
                }
            }
            assert(rules_from(s@, 0) =~= pats@.map_values(|p: String| p@) + rules_from(
                s@,
                e + 1,
            ));
            if e < s.len() {
                i = e + 1;
            } else {
                i = s.len();
            }
        }
        assert(pats@.map_values(|p: String| p@) =~= pats@.map_values(|p: String| p@) + Seq::<
            Seq<char>,
        >::empty());
        IgnoreRules { patterns: pats }
    }

    /// True iff some pattern matches `path` (relative to the hash root).
    pub fn is_ignored(&self, path: &str) -> (r: bool)
        ensures
            r == ignored_by(self@, path@),
    {
        let mut k: usize = 0;
        while k < self.patterns.len()
            invariant
                k <= self@.len(),
                self@.len() == self.patterns@.len(),
                forall|j: int| 0 <= j < k ==> !glob_match(#[trigger] self@[j], path@),
            decreases self@.len() - k,
        {
            if pattern_matches(self.patterns[k].as_str(), path) {
                assert(glob_match(self@[k as int], path@));
                return true;
            }
            k = k + 1;
        }
        false
    }
}

/// The files of a listing that the rules keep, as a map from relative path
/// to file digest (a later listing of the same path wins).
pub open spec fn kept_files(files: Seq<(Seq<char>, Seq<char>)>, patterns: Seq<Seq<char>>) -> Map<
    Seq<char>,
    Seq<char>,
>
    decreases files.len(),
{
    if files.len() == 0 {
        Map::empty()
    } else {
        let m = kept_files(files.drop_last(), patterns);
        let f = files.last();
        if ignored_by(patterns, f.0) {
            m
        } else {
            m.insert(f.0, f.1)
        }
    }
}

/// The entries of a map, in increasing key order.
pub open spec fn canonical(m: Map<Seq<char>, Seq<char>>) -> Seq<(Seq<char>, Seq<char>)> {
    choose|s: Seq<(Seq<char>, Seq<char>)>| sorted(s) && to_map(s) == m
}

/// Concatenation of `key || value` over the entries.
pub open spec fn entries_bytes(s: Seq<(Seq<char>, Seq<char>)>) -> Seq<u8>
    decreases s.len(),
{
    if s.len() == 0 {
        Seq::empty()
    } else {
        entries_bytes(s.drop_last()) + bytes_of(s.last().0) + bytes_of(s.last().1)
    }
}

/// The digest of a directory listing: `path || file_digest` of each kept file,
/// in increasing path order, fed to the primitive.
pub open spec fn tree_digest_spec(
    files: Seq<(Seq<char>, Seq<char>)>,
    patterns: Seq<Seq<char>>,
) -> Seq<char> {
    blake3_hex(entries_bytes(canonical(kept_files(files, patterns))))
}

pub open spec fn listing_view(files: Seq<(String, String)>) -> Seq<(Seq<char>, Seq<char>)> {
    files.map_values(|f: (String, String)| (f.0@, f.1@))
}

/// Bytes `key || value` of each entry of a map, in key order.
pub fn map_bytes(m: &StrMap) -> (r: Vec<u8>)
    requires
        m.wf(),
    ensures
        r@ == entries_bytes(m@),
{
    let mut out: Vec<u8> = Vec::new();
    let mut k: usize = 0;
    while k < m.len()
        invariant
            k <= m@.len(),
            out@ == entries_bytes(m@.subrange(0, k as int)),
        decreases m@.len() - k,
    {
        let (a, b) = m.entry(k);
        push_bytes(&mut out, a.as_str());
        push_bytes(&mut out, b.as_str());
        assert(m@.subrange(0, k + 1).drop_last() =~= m@.subrange(0, k as int));
        k = k + 1;
    }
    assert(m@.subrange(0, k as int) =~= m@);
    out
}

/// Digest of a directory from its listing of `(relative path, file digest)`
/// pairs: files that the rules ignore are left out, and the rest are fed in
/// increasing path order, so the enumeration order does not matter.
pub fn tree_digest(files: &Vec<(String, String)>, ignore: &IgnoreRules) -> (r: String)
    ensures
        r@ == tree_digest_spec(listing_view(files@), ignore@),
        is_hex_digest(r@),
{
    let mut m = StrMap::new();
    let mut k: usize = 0;
    while k < files.len()
        invariant
            k <= files@.len(),
            m.wf(),
            m.map() == kept_files(listing_view(files@).subrange(0, k as int), ignore@),
        decreases files@.len() - k,
    {
        let ghost pre = listing_view(files@).subrange(0, k + 1);
        assert(pre.drop_last() =~= listing_view(files@).subrange(0, k as int));
        if !ignore.is_ignored(files[k].0.as_str()) {
            m.insert(files[k].0.clone(), files[k].1.clone());
        }
        k = k + 1;
    }
    assert(listing_view(files@).subrange(0, k as int) =~= listing_view(files@));
    proof {
        let m0 = kept_files(listing_view(files@), ignore@);
        assert(sorted(m@) && to_map(m@) == m0);
        let c = canonical(m0);
        lemma_sorted_unique(m@, c);
    }
    let bytes = map_bytes(&m);
    blake3_digest(bytes.as_slice())
}

/// Identical bytes give an identical file digest.
pub proof fn lemma_file_digest_deterministic(a: Seq<u8>, b: Seq<u8>)
    requires
        a == b,
    ensures
        blake3_hex(a) == blake3_hex(b),
{
}

proof fn lemma_kept_files_distinct(files: Seq<(Seq<char>, Seq<char>)>, patterns: Seq<Seq<char>>)
    requires
        forall|i: int, j: int|
            0 <= i < j < files.len() ==> #[trigger] files[i].0 != #[trigger] files[j].0,
    ensures
        forall|p: Seq<char>|
            #[trigger] kept_files(files, patterns).contains_key(p) <==> (!ignored_by(patterns, p)
                && exists|i: int| 0 <= i < files.len() && #[trigger] files[i].0 == p),
        forall|i: int|
            0 <= i < files.len() && !ignored_by(patterns, #[trigger] files[i].0) ==> kept_files(
                files,
                patterns,
            )[files[i].0] == files[i].1,
    decreases files.len(),
{
    if files.len() > 0 {
        let d = files.drop_last();
        lemma_kept_files_distinct(d, patterns);
        assert forall|p: Seq<char>|
            #[trigger] kept_files(files, patterns).contains_key(p) <==> (!ignored_by(patterns, p)
                && exists|i: int| 0 <= i < files.len() && #[trigger] files[i].0 == p) by {
            if exists|i: int| 0 <= i < files.len() && #[trigger] files[i].0 == p {
                let i = choose|i: int| 0 <= i < files.len() && #[trigger] files[i].0 == p;
                if i < files.len() - 1 {
                    assert(d[i].0 == p);
                } else {
                    assert(p == files.last().0);
                }
            }
            if exists|i: int| 0 <= i < d.len() && #[trigger] d[i].0 == p {
                let i = choose|i: int| 0 <= i < d.len() && #[trigger] d[i].0 == p;
                assert(files[i].0 == p);
            }
            if kept_files(files, patterns).contains_key(p) && !kept_files(d, patterns).contains_key(
                p,
            ) {
                assert(p == files.last().0);
                assert(files[files.len() - 1].0 == p);
            }
        }
        assert forall|i: int|
            0 <= i < files.len() && !ignored_by(patterns, #[trigger] files[i].0) implies kept_files(
            files,
            patterns,
        )[files[i].0] == files[i].1 by {
            if i < files.len() - 1 {
                assert(d[i] == files[i]);
                assert(files[i].0 != files[files.len() - 1].0);
            }
        }
    }
}

/// The directory digest depends only on the set of `(path, digest)` pairs of
/// the listing, not on the order in which the files were enumerated or hashed.
pub proof fn lemma_tree_digest_order_independent(
    a: Seq<(Seq<char>, Seq<char>)>,
    b: Seq<(Seq<char>, Seq<char>)>,
    patterns: Seq<Seq<char>>,
)
    requires
        a.to_set() == b.to_set(),
        forall|i: int, j: int| 0 <= i < j < a.len() ==> #[trigger] a[i].0 != #[trigger] a[j].0,
        forall|i: int, j: int| 0 <= i < j < b.len() ==> #[trigger] b[i].0 != #[trigger] b[j].0,
    ensures
        tree_digest_spec(a, patterns) == tree_digest_spec(b, patterns),
{
    lemma_kept_files_distinct(a, patterns);
    lemma_kept_files_distinct(b, patterns);
    let ma = kept_files(a, patterns);
    let mb = kept_files(b, patterns);
    assert forall|p: Seq<char>| ma.contains_key(p) <==> mb.contains_key(p) by {
        if exists|i: int| 0 <= i < a.len() && #[trigger] a[i].0 == p {
            let i = choose|i: int| 0 <= i < a.len() && #[trigger] a[i].0 == p;
            assert(a.to_set().contains(a[i]));
            assert(b.to_set().contains(a[i]));
            let j = choose|j: int| 0 <= j < b.len() && b[j] == a[i];
            assert(b[j].0 == p);
        }
        if exists|i: int| 0 <= i < b.len() && #[trigger] b[i].0 == p {
            let i = choose|i: int| 0 <= i < b.len() && #[trigger] b[i].0 == p;
            assert(b.to_set().contains(b[i]));
            assert(a.to_set().contains(b[i]));
            let j = choose|j: int| 0 <= j < a.len() && a[j] == b[i];
            assert(a[j].0 == p);
        }
    }
    assert forall|p: Seq<char>| ma.contains_key(p) implies ma[p] == mb[p] by {
        let i = choose|i: int| 0 <= i < a.len() && #[trigger] a[i].0 == p;
        assert(a.to_set().contains(a[i]));
        assert(b.to_set().contains(a[i]));
        let j = choose|j: int| 0 <= j < b.len() && b[j] == a[i];
        assert(b[j].0 == p);
    }
    assert(ma =~= mb);
}

/// A file that the rules ignore does not change the directory digest.
pub proof fn lemma_ignored_file_irrelevant(
    files: Seq<(Seq<char>, Seq<char>)>,
    x: (Seq<char>, Seq<char>),
    patterns: Seq<Seq<char>>,
)
    requires
        ignored_by(patterns, x.0),
    ensures
        tree_digest_spec(files.push(x), patterns) == tree_digest_spec(files, patterns),
{
    assert(files.push(x).drop_last() =~= files);
}

} // verus!
