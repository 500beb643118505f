//! An ordered string-to-string map kept as a vector sorted by key. Its
//! iteration order is canonical: two maps with the same contents hold the
//! same sequence of entries, however they were filled.
use crate::text::{chars_lt, chars_of, lemma_lex_asymmetric, lemma_lex_irreflexive, lex_lt};
use vstd::prelude::*;

verus! {

/// Keys strictly increase along the sequence.
pub open spec fn sorted(s: Seq<(Seq<char>, Seq<char>)>) -> bool {
    forall|i: int, j: int| 0 <= i < j < s.len() ==> lex_lt(#[trigger] s[i].0, #[trigger] s[j].0)
}

pub open spec fn has_key(s: Seq<(Seq<char>, Seq<char>)>, k: Seq<char>) -> bool {
    exists|i: int| 0 <= i < s.len() && #[trigger] s[i].0 == k
}

/// A position that holds key `k`, if any.
pub open spec fn key_index(s: Seq<(Seq<char>, Seq<char>)>, k: Seq<char>) -> int {
    choose|i: int| 0 <= i < s.len() && #[trigger] s[i].0 == k
}

/// The map that a sequence of entries describes.
pub open spec fn to_map(s: Seq<(Seq<char>, Seq<char>)>) -> Map<Seq<char>, Seq<char>> {
    Map::new(|k: Seq<char>| has_key(s, k), |k: Seq<char>| s[key_index(s, k)].1)
}

pub proof fn lemma_value_at(s: Seq<(Seq<char>, Seq<char>)>, i: int)
    requires
        sorted(s),
        0 <= i < s.len(),
    ensures
        to_map(s).contains_key(s[i].0),
        to_map(s)[s[i].0] == s[i].1,
{
    let k = s[i].0;
    assert(has_key(s, k));
    let c = key_index(s, k);
    if c < i {
        assert(lex_lt(s[c].0, s[i].0));
        lemma_lex_irreflexive(k);
    } else if i < c {
        assert(lex_lt(s[i].0, s[c].0));
        lemma_lex_irreflexive(k);
    }
    assert(to_map(s)[k] == s[c].1);
}

proof fn lemma_drop_last(s: Seq<(Seq<char>, Seq<char>)>)
    requires
        sorted(s),
        s.len() > 0,
    ensures
        sorted(s.drop_last()),
        to_map(s.drop_last()) == to_map(s).remove(s.last().0),
{
    let t = s.drop_last();
    let last = s.last().0;
    assert forall|k: Seq<char>| has_key(t, k) <==> (has_key(s, k) && k != last) by {
        if has_key(t, k) {
            let i = choose|i: int| 0 <= i < t.len() && #[trigger] t[i].0 == k;
            assert(s[i].0 == k);
            assert(lex_lt(s[i].0, s[s.len() - 1].0));
            lemma_lex_irreflexive(k);
        }
        if has_key(s, k) && k != last {
            let i = choose|i: int| 0 <= i < s.len() && #[trigger] s[i].0 == k;
            assert(i != s.len() - 1);
            assert(t[i].0 == k);
        }
    }
    assert forall|k: Seq<char>| #[trigger] to_map(t).contains_key(k) implies to_map(t)[k] == to_map(
        s,
    )[k] by {
        let i = choose|i: int| 0 <= i < t.len() && #[trigger] t[i].0 == k;
        lemma_value_at(t, i);
        lemma_value_at(s, i);
    }
    assert(to_map(t) =~= to_map(s).remove(last));
}

/// A sorted sequence of entries is determined by the map it describes.
pub proof fn lemma_sorted_unique(s1: Seq<(Seq<char>, Seq<char>)>, s2: Seq<(Seq<char>, Seq<char>)>)
    requires
        sorted(s1),
        sorted(s2),
        to_map(s1) == to_map(s2),
    ensures
        s1 == s2,
    decreases s1.len(),
{
    if s1.len() == 0 {
        if s2.len() > 0 {
            assert(to_map(s2).contains_key(s2[0].0));
        }
        assert(s1 =~= s2);
    } else if s2.len() == 0 {
        assert(to_map(s1).contains_key(s1[0].0));
    } else {
        let a = s1.last().0;
        let b = s2.last().0;
        lemma_value_at(s1, s1.len() - 1);
        lemma_value_at(s2, s2.len() - 1);
        if a != b {
            let i = choose|i: int| 0 <= i < s1.len() && #[trigger] s1[i].0 == b;
            let j = choose|j: int| 0 <= j < s2.len() && #[trigger] s2[j].0 == a;
            assert(i != s1.len() - 1);
            assert(j != s2.len() - 1);
            assert(lex_lt(s1[i].0, s1[s1.len() - 1].0));
            assert(lex_lt(s2[j].0, s2[s2.len() - 1].0));
            lemma_lex_asymmetric(b, a);
        }
        lemma_drop_last(s1);
        lemma_drop_last(s2);
        lemma_sorted_unique(s1.drop_last(), s2.drop_last());
        assert(s1 =~= s1.drop_last().push(s1.last()));
        assert(s2 =~= s2.drop_last().push(s2.last()));
    }
}

/// A string-to-string map whose entries are kept sorted by key.
#[derive(Debug, Clone)]
pub struct StrMap {
    entries: Vec<(String, String)>,
}

pub open spec fn entry_view(e: (String, String)) -> (Seq<char>, Seq<char>) {
    (e.0@, e.1@)
}

impl View for StrMap {
    type V = Seq<(Seq<char>, Seq<char>)>;

    /// The entries, in key order.
    closed spec fn view(&self) -> Seq<(Seq<char>, Seq<char>)> {
        self.entries@.map_values(|e: (String, String)| entry_view(e))
    }
}

fn str_lt(a: &String, b: &String) -> (r: bool)
    ensures
        r == lex_lt(a@, b@),
{
    let x = chars_of(a.as_str());
    let y = chars_of(b.as_str());
    chars_lt(x.as_slice(), y.as_slice())
}

impl StrMap {
    /// The well-formedness of the map: keys strictly increase.
    pub open spec fn wf(&self) -> bool {
        sorted(self@)
    }

    /// The contents as a map.
    pub open spec fn map(&self) -> Map<Seq<char>, Seq<char>> {
        to_map(self@)
    }

    pub fn new() -> (r: StrMap)
        ensures
            r.wf(),
            r@ == Seq::<(Seq<char>, Seq<char>)>::empty(),
    {
        let r = StrMap { entries: Vec::new() };
        assert(r@ =~= Seq::<(Seq<char>, Seq<char>)>::empty());
        r
    }

    pub fn len(&self) -> (r: usize)
        ensures
            r == self@.len(),
    {
        self.entries.len()
    }

    /// A copy of the map with the same entries.
    pub fn copy(&self) -> (r: StrMap)
        ensures
            r@ == self@,
    {
        let mut entries: Vec<(String, String)> = Vec::new();
        let mut i: usize = 0;
        while i < self.entries.len()
            invariant
                i <= self.entries@.len(),
                entries@.map_values(|e: (String, String)| entry_view(e)) == self@.subrange(
                    0,
                    i as int,
                ),
            decreases self.entries@.len() - i,
        {
            let k = self.entries[i].0.clone();
            let v = self.entries[i].1.clone();
            assert(self@[i as int] == entry_view(self.entries@[i as int]));
            let ghost prev = entries@;
            entries.push((k, v));
            assert(entries@.map_values(|e: (String, String)| entry_view(e)) =~= prev.map_values(
                |e: (String, String)| entry_view(e),
            ).push(self@[i as int]));
            i = i + 1;
            assert(entries@.map_values(|e: (String, String)| entry_view(e)) =~= self@.subrange(
                0,
                i as int,
            ));
        }
        assert(self@.subrange(0, i as int) =~= self@);
        StrMap { entries }
    }

    /// The key and value at position `i` of the key order.
    pub fn entry(&self, i: usize) -> (r: (&String, &String))
        requires
            i < self@.len(),
        ensures
            r.0@ == self@[i as int].0,
            r.1@ == self@[i as int].1,
    {
        (&self.entries[i].0, &self.entries[i].1)
    }

    /// Sets `key` to `value`, replacing any earlier value of `key`.
    pub fn insert(&mut self, key: String, value: String)
        requires
            old(self).wf(),
        ensures
            final(self).wf(),
            final(self).map() == old(self).map().insert(key@, value@),
    {
        let ghost s = self@;
        let mut p: usize = 0;
        while p < self.entries.len() && str_lt(&self.entries[p].0, &key)
            invariant
                s == self@,
                sorted(s),
                p <= s.len(),
                forall|i: int| 0 <= i < p ==> lex_lt(#[trigger] s[i].0, key@),
            decreases s.len() - p,
        {
            p = p + 1;
        }
        let ghost kv = (key@, value@);
        if p < self.entries.len() && self.entries[p].0 == key {
            self.entries.set(p, (key, value));
            let ghost t = s.update(p as int, kv);
            assert(self@ =~= t);
            assert(forall|i: int| 0 <= i < t.len() ==> #[trigger] t[i].0 == s[i].0);
            assert(sorted(t));
            assert forall|k: Seq<char>| has_key(t, k) <==> (has_key(s, k) || k == kv.0) by {
                if has_key(s, k) {
                    let i = choose|i: int| 0 <= i < s.len() && #[trigger] s[i].0 == k;
                    assert(t[i].0 == k);
                }
                if has_key(t, k) {
                    let i = choose|i: int| 0 <= i < t.len() && #[trigger] t[i].0 == k;
                    assert(s[i].0 == k);
                }
                if k == kv.0 {
                    assert(t[p as int].0 == k);
                }
            }
            assert forall|k: Seq<char>| #[trigger] to_map(t).contains_key(k) implies to_map(t)[k]
                == to_map(s).insert(kv.0, kv.1)[k] by {
                let i = choose|i: int| 0 <= i < t.len() && #[trigger] t[i].0 == k;
                lemma_value_at(t, i);
                if i != p {
                    lemma_value_at(s, i);
                    if i < p {
                        assert(lex_lt(t[i].0, t[p as int].0));
                    } else {
                        assert(lex_lt(t[p as int].0, t[i].0));
                    }
                    lemma_lex_irreflexive(k);
                }
            }
            assert(to_map(t) =~= to_map(s).insert(kv.0, kv.1));
        } else {
            proof {
                if p < s.len() {
                    lemma_lex_total_strict(key@, s[p as int].0);
                    assert forall|m: int| p < m < s.len() implies lex_lt(key@, #[trigger] s[m].0) by {
                        crate::text::lemma_lex_transitive(key@, s[p as int].0, s[m].0);
                    }
                }
            }
            self.entries.insert(p, (key, value));
            let ghost t = s.insert(p as int, kv);
            assert(self@ =~= t);
            assert forall|i: int, j: int| 0 <= i < j < t.len() implies lex_lt(
                #[trigger] t[i].0,
                #[trigger] t[j].0,
            ) by {
                if i < p && j == p {
                } else if i < p && j > p {
                    assert(lex_lt(key@, s[j - 1].0));
                    crate::text::lemma_lex_transitive(t[i].0, key@, t[j].0);
                } else if i == p && j > p {
                    assert(lex_lt(key@, s[j - 1].0));
                } else if j < p {
                    assert(t[i] == s[i] && t[j] == s[j]);
                } else {
                    assert(t[i] == s[i - 1] && t[j] == s[j - 1]);
                }
            }
            assert forall|k: Seq<char>| has_key(t, k) <==> (has_key(s, k) || k == kv.0) by {
                if has_key(s, k) {
                    let i = choose|i: int| 0 <= i < s.len() && #[trigger] s[i].0 == k;
                    if i < p {
                        assert(t[i].0 == k);
                    } else {
                        assert(t[i + 1].0 == k);
                    }
                }
                if has_key(t, k) {
                    let i = choose|i: int| 0 <= i < t.len() && #[trigger] t[i].0 == k;
                    if i < p {
                        assert(s[i].0 == k);
                    } else if i > p {
                        assert(s[i - 1].0 == k);
                    }
                }
                if k == kv.0 {
                    assert(t[p as int].0 == k);
                }
            }
            assert forall|k: Seq<char>| #[trigger] to_map(t).contains_key(k) implies to_map(t)[k]
                == to_map(s).insert(kv.0, kv.1)[k] by {
                let i = choose|i: int| 0 <= i < t.len() && #[trigger] t[i].0 == k;
                lemma_value_at(t, i);
                if i < p {
                    lemma_value_at(s, i);
                    assert(lex_lt(s[i].0, key@));
                    lemma_lex_irreflexive(key@);
                } else if i > p {
                    lemma_value_at(s, i - 1);
                    assert(lex_lt(t[p as int].0, t[i].0));
                    lemma_lex_irreflexive(key@);
                }
            }
            assert(to_map(t) =~= to_map(s).insert(kv.0, kv.1));
        }
    }
}

proof fn lemma_lex_total_strict(a: Seq<char>, b: Seq<char>)
    requires
        !lex_lt(b, a),
        a != b,
    ensures
        lex_lt(a, b),
{
    crate::text::lemma_lex_total(a, b);
}

/// The empty sequence describes the empty map.
pub proof fn lemma_empty_map(s: Seq<(Seq<char>, Seq<char>)>)
    ensures
        s.len() == 0 ==> to_map(s) == Map::<Seq<char>, Seq<char>>::empty(),
{
    if s.len() == 0 {
        assert(to_map(s) =~= Map::<Seq<char>, Seq<char>>::empty());
    }
}

} // verus!
