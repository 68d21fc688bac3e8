//! Regular-expression captures, through the `regex` crate.

use vstd::prelude::*;

verus! {

/// What the `regex` crate gives for `pattern` (compiled with
/// `Regex::new`) on `text`: `None` when the pattern does not compile or
/// does not match, else the capture groups of the leftmost-first match in
/// order (group 0 is the whole match; a group that did not participate is
/// `None`).
pub uninterp spec fn regex_captures_of(pattern: Seq<char>, text: Seq<char>) -> Option<
    Seq<Option<Seq<char>>>,
>;

/// The view of captured groups.
pub open spec fn groups_view(r: Option<Vec<Option<String>>>) -> Option<Seq<Option<Seq<char>>>> {
    match r {
        Some(v) => Some(
            v@.map_values(
                |g: Option<String>|
                    match g {
                        Some(s) => Some(s@),
                        None => None,
                    },
            ),
        ),
        None => None,
    }
}

/// Capture group `i` of a capture result (`None` without a match or when
/// the group did not participate).
pub open spec fn group(caps: Option<Seq<Option<Seq<char>>>>, i: int) -> Option<Seq<char>> {
    match caps {
        Some(g) => if 0 <= i < g.len() {
            g[i]
        } else {
            None
        },
        None => None,
    }
}

/// `regex::Regex::new(pattern)`, then `Regex::captures(text)` and the text
/// of every group (`Captures::iter`). Named by `regex_captures_of`.
#[verifier::external_body]
pub(crate) fn regex_captures(pattern: &str, text: &str) -> (r: Option<Vec<Option<String>>>)
    ensures
        groups_view(r) == regex_captures_of(pattern@, text@),
{
    let re = regex::Regex::new(pattern).ok()?;
    let caps = re.captures(text)?;
    Some(caps.iter().map(|m| m.map(|m| m.as_str().to_string())).collect())
}

/// Capture group `i` of `pattern` on `text`.
pub fn capture_group(pattern: &str, text: &str, i: usize) -> (r: Option<String>)
    ensures
        match r {
            Some(s) => group(regex_captures_of(pattern@, text@), i as int) == Some(s@),
            None => group(regex_captures_of(pattern@, text@), i as int) is None,
        },
{
    match regex_captures(pattern, text) {
        Some(groups) => {
            if i < groups.len() {
                let ghost gv = groups_view(Some(groups));
                assert(gv.unwrap()[i as int] == match groups@[i as int] {
                    Some(s) => Some(s@),
                    None => None,
                });
                match &groups[i] {
                    Some(s) => Some(s.clone()),
                    None => None,
                }
            } else {
                None
            }
        },
        None => None,
    }
}

} // verus!
