//! Interpretation of `git ls-remote` output.
use crate::text::{chars_of, skip_ws, skip_ws_from, string_of, sub_chars, word_end, word_end_from};
use vstd::prelude::*;

verus! {

/// The first whitespace-separated word of the output, if any.
pub open spec fn first_word(s: Seq<char>) -> Option<Seq<char>> {
    let a = skip_ws(s, 0);
    if a < s.len() {
        Some(s.subrange(a, word_end(s, a)))
    } else {
        None
    }
}

/// The commit hash that `git ls-remote <url> HEAD` printed: its first word.
pub fn parse_ls_remote_head(output: &str) -> (r: Option<String>)
    ensures
        match r {
            Some(h) => first_word(output@) == Some(h@),
            None => first_word(output@) is None,
        },
{
    let s = chars_of(output);
    let a = skip_ws_from(s.as_slice(), 0);
    if a < s.len() {
        let b = word_end_from(s.as_slice(), a);
        Some(string_of(sub_chars(s.as_slice(), a, b).as_slice()))
    } else {
        None
    }
}

} // verus!
