//! Regular-expression capture through the `regex` crate.

use vstd::prelude::*;

verus! {

/// Whether `regex::Regex::new` accepts the pattern.
pub uninterp spec fn regex_valid(pattern: Seq<char>) -> bool;

/// For a pattern that `regex` accepts: the leftmost match in `text`, as the
/// text of the whole match (group 0) and of capture group 1 where that group
/// took part in it; `None` when nothing matches.
pub uninterp spec fn regex_captures(pattern: Seq<char>, text: Seq<char>) -> Option<(Seq<char>, Option<Seq<char>>)>;

/// The views of a match's whole text and of its group 1.
pub open spec fn groups_v(g: (String, Option<String>)) -> (Seq<char>, Option<Seq<char>>) {
    (g.0@, match g.1 {
        Some(t) => Some(t@),
        None => None,
    })
}

/// Compiles `pattern` with `regex::Regex::new` and captures in `text` with
/// `Regex::captures`, handing back the texts of group 0 and of group 1.
/// `Err` carries the compiler's message and comes exactly when the pattern is
/// refused.
#[verifier::external_body]
fn regex_groups(pattern: &str, text: &str) -> (res: Result<Option<(String, Option<String>)>, String>)
    ensures
        res is Ok <==> regex_valid(pattern@),
        res matches Ok(c) ==> match c {
            Some(g) => regex_captures(pattern@, text@) == Some(groups_v(g)),
            None => regex_captures(pattern@, text@) is None,
        },
{
    match regex::Regex::new(pattern) {
        Ok(re) => Ok(re.captures(text).map(|c| (c[0].to_string(), c.get(1).map(|m| m.as_str().to_string())))),
        Err(e) => Err(e.to_string()),
    }
}

/// The text captured from the leftmost match: group 1 where it took part in
/// the match, else the whole match; `None` when nothing matches.
pub open spec fn regex_first_capture(pattern: Seq<char>, text: Seq<char>) -> Option<Seq<char>> {
    match regex_captures(pattern, text) {
        None => None,
        Some((whole, group1)) => match group1 {
            Some(g) => Some(g),
            None => Some(whole),
        },
    }
}

/// Captures in `text` with `pattern`: group 1 of the leftmost match, else the
/// whole match (see [`regex_first_capture`]). `Err` carries the compiler's
/// message and comes exactly when the pattern is refused.
pub fn regex_capture(pattern: &str, text: &str) -> (res: Result<Option<String>, String>)
    ensures
        res is Ok <==> regex_valid(pattern@),
        res matches Ok(c) ==> match c {
            Some(t) => regex_first_capture(pattern@, text@) == Some(t@),
            None => regex_first_capture(pattern@, text@) is None,
        },
{
    match regex_groups(pattern, text) {
        Ok(Some((whole, group1))) => match group1 {
            Some(g) => Ok(Some(g)),
            None => Ok(Some(whole)),
        },
        Ok(None) => Ok(None),
        Err(e) => Err(e),
    }
}

} // verus!
