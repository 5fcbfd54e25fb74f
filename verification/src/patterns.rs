//! Regular expressions.
use vstd::prelude::*;

use crate::text::opt;

verus! {

/// Whether a pattern is a regular expression (`regex::Regex::new`).
pub uninterp spec fn is_pattern(pattern: Seq<char>) -> bool;

/// Whether a regular expression matches somewhere in a text
/// (`regex::Regex::is_match`).
pub uninterp spec fn pattern_matches(pattern: Seq<char>, text: Seq<char>) -> bool;

/// The matches of a regular expression in a text, one after the other, each with
/// what its groups captured (`regex::Regex::captures_iter`).
pub uninterp spec fn pattern_captures(pattern: Seq<char>, text: Seq<char>) -> Seq<
    Seq<Option<Seq<char>>>,
>;

/// A text with the matches of a regular expression replaced
/// (`regex::Regex::replace_all`).
pub uninterp spec fn pattern_replaced(
    pattern: Seq<char>,
    text: Seq<char>,
    replacement: Seq<char>,
) -> Seq<char>;

/// What the groups of a match captured.
pub open spec fn group_views(v: Seq<Option<String>>) -> Seq<Option<Seq<char>>> {
    Seq::new(v.len(), |i: int| opt(v[i]))
}

/// What the groups of each match captured.
pub open spec fn match_views(v: Seq<Vec<Option<String>>>) -> Seq<Seq<Option<Seq<char>>>> {
    Seq::new(v.len(), |i: int| group_views(v[i]@))
}

/// `regex::Regex::new` and `regex::Regex::is_match` on each text: whether the
/// regular expression matches in it. Nothing comes back where the pattern is no
/// regular expression.
#[verifier::external_body]
pub(crate) fn match_each(pattern: &str, texts: &Vec<String>) -> (r: Option<Vec<bool>>)
    ensures
        r is Some == is_pattern(pattern@),
        r is Some ==> r->0@ == Seq::new(
            texts@.len(),
            |i: int| pattern_matches(pattern@, texts@[i]@),
        ),
{
    let re = regex::Regex::new(pattern).ok()?;
    Some(texts.iter().map(|t| re.is_match(t)).collect())
}

/// `regex::Regex::new` and `regex::Regex::captures_iter`: what the groups of each
/// match captured, the whole match first. Nothing comes back where the pattern is
/// no regular expression.
#[verifier::external_body]
pub(crate) fn captures(pattern: &str, text: &str) -> (r: Option<Vec<Vec<Option<String>>>>)
    ensures
        r is Some == is_pattern(pattern@),
        r is Some ==> match_views(r->0@) == pattern_captures(pattern@, text@),
{
    let re = regex::Regex::new(pattern).ok()?;
    let all = re.captures_iter(text);
    Some(all.map(|c| c.iter().map(|m| m.map(|m| m.as_str().to_owned())).collect()).collect())
}

/// `regex::Regex::new` and `regex::Regex::replace_all`: the text with each match
/// replaced. Nothing comes back where the pattern is no regular expression.
#[verifier::external_body]
pub(crate) fn replace_all(pattern: &str, text: &str, replacement: &str) -> (r: Option<String>)
    ensures
        r is Some == is_pattern(pattern@),
        r is Some ==> r->0@ == pattern_replaced(pattern@, text@, replacement@),
{
    let re = regex::Regex::new(pattern).ok()?;
    Some(re.replace_all(text, replacement).into_owned())
}

/// The matches of a pattern in a text: none where it is no regular expression.
pub open spec fn all_matches(pattern: Seq<char>, text: Seq<char>) -> Seq<Seq<Option<Seq<char>>>> {
    if is_pattern(pattern) {
        pattern_captures(pattern, text)
    } else {
        seq![]
    }
}

/// The matches of a pattern in a text: none where it is no regular expression.
pub fn find_all(pattern: &str, text: &str) -> (r: Vec<Vec<Option<String>>>)
    ensures
        match_views(r@) == all_matches(pattern@, text@),
{
    match captures(pattern, text) {
        Some(found) => found,
        None => {
            let none: Vec<Vec<Option<String>>> = Vec::new();
            proof {
                assert(match_views(none@) =~= seq![]);
            }
            none
        },
    }
}

/// A text with the matches of a pattern replaced, or as it is where the pattern
/// is no regular expression.
pub open spec fn with_replaced(
    pattern: Seq<char>,
    text: Seq<char>,
    replacement: Seq<char>,
) -> Seq<char> {
    if is_pattern(pattern) {
        pattern_replaced(pattern, text, replacement)
    } else {
        text
    }
}

/// A text with the matches of a pattern replaced, or as it is where the pattern
/// is no regular expression.
pub fn replace_matches(pattern: &str, text: &str, replacement: &str) -> (r: String)
    ensures
        r@ == with_replaced(pattern@, text@, replacement@),
{
    match replace_all(pattern, text, replacement) {
        Some(s) => s,
        None => text.to_owned(),
    }
}

/// What a group captured, or the empty text.
pub open spec fn group(groups: Seq<Option<Seq<char>>>, n: int) -> Seq<char> {
    if 0 <= n < groups.len() && groups[n] is Some {
        groups[n]->0
    } else {
        seq![]
    }
}

/// What a group captured, or the empty text.
pub fn group_text(groups: &Vec<Option<String>>, n: usize) -> (r: String)
    ensures
        r@ == group(group_views(groups@), n as int),
{
    if n < groups.len() {
        match &groups[n] {
            Some(s) => {
                return s.clone();
            },
            None => {},
        }
    }
    let r = String::new();
    proof {
        assert(r@ =~= seq![]);
    }
    r
}

/// What a regular expression finds is given as it was found; a pattern that is none finds
/// and replaces nothing; and a group that captured nothing is empty.
pub proof fn matches_are_given_as_found(
    pattern: Seq<char>,
    text: Seq<char>,
    replacement: Seq<char>,
    groups: Seq<Option<Seq<char>>>,
    n: int,
)
    ensures
        is_pattern(pattern) ==> all_matches(pattern, text) == pattern_captures(pattern, text)
            && with_replaced(pattern, text, replacement) == pattern_replaced(
            pattern,
            text,
            replacement,
        ),
        !is_pattern(pattern) ==> all_matches(pattern, text).len() == 0 && with_replaced(
            pattern,
            text,
            replacement,
        ) == text,
        0 <= n < groups.len() ==> (match groups[n] {
            Some(captured) => group(groups, n) == captured,
            None => group(groups, n).len() == 0,
        }),
        !(0 <= n < groups.len()) ==> group(groups, n).len() == 0,
{
}

} // verus!
