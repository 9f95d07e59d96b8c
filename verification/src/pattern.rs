//! Regular-expression matching, as the regex library does it.

use vstd::prelude::*;

verus! {

/// What the regex library captures when `pattern` is searched for in `text`:
/// `None` where nothing matches (or the pattern does not compile), else the
/// text of each capture group of the leftmost-first match, group 0 (the whole
/// match) first, `None` for a group that did not take part.
pub uninterp spec fn regex_captures(pattern: Seq<char>, text: Seq<char>) -> Option<Seq<Option<Seq<char>>>>;

/// The captures as character sequences.
pub open spec fn captures_view(caps: Option<Vec<Option<String>>>) -> Option<Seq<Option<Seq<char>>>> {
    match caps {
        Some(groups) => Some(groups@.map_values(|g: Option<String>| match g {
            Some(s) => Some(s@),
            None => None,
        })),
        None => None,
    }
}

/// The capture group `i` of `caps`, where there is one and it took part.
pub open spec fn group(caps: Seq<Option<Seq<char>>>, i: int) -> Option<Seq<char>> {
    if 0 <= i < caps.len() { caps[i] } else { None }
}

/// Searches `text` for `pattern` with `regex::Regex` (compiled by `Regex::new`,
/// searched by `Regex::captures`). Nothing is claimed of the result beyond its
/// name: matching is the regex library's work.
#[verifier::external_body]
pub(crate) fn captures(pattern: &str, text: &str) -> (res: Option<Vec<Option<String>>>)
    ensures
        captures_view(res) == regex_captures(pattern@, text@),
{
    match regex::Regex::new(pattern) {
        Ok(re) => re.captures(text).map(|c| c.iter().map(|m| m.map(|m| m.as_str().to_string())).collect()),
        Err(_) => None,
    }
}

/// Group `i` of a capture list (`None` past its end or where the group did not
/// take part).
pub fn group_of(groups: &Vec<Option<String>>, i: usize) -> (res: Option<String>)
    ensures
        (match res {
            Some(s) => Some(s@),
            None => None,
        }) == group(captures_view(Some(*groups)).unwrap(), i as int),
{
    if i < groups.len() {
        match &groups[i] {
            Some(s) => Some(s.clone()),
            None => None,
        }
    } else {
        None
    }
}

} // verus!
