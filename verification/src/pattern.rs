//! Regular expressions of the `regex` crate, as far as the scanners need
//! them: whether a pattern compiles, the leftmost match of a pattern in a
//! text with its groups, and all its matches one after the other.

use vstd::prelude::*;

verus! {

/// `regex::Regex`, a compiled pattern. What it was compiled from is spoken
/// of through [`regex_source`].
#[verifier::external_type_specification]
#[verifier::external_body]
pub struct ExRegex(regex::Regex);

/// The groups of one match: for each group of the pattern, from the whole
/// match at 0 on, the text that it matched, or nothing where the group took
/// no part in the match.
pub type Groups = Seq<Option<Seq<char>>>;

/// `Regex::as_str`: the pattern that an expression was compiled from.
pub uninterp spec fn regex_source(re: regex::Regex) -> Seq<char>;

/// Whether `Regex::new` accepts a pattern.
pub uninterp spec fn regex_compiles(pattern: Seq<char>) -> bool;

/// `Regex::captures`: the groups of the leftmost match of a pattern in a
/// text, or nothing where the pattern matches nowhere.
pub uninterp spec fn regex_first(pattern: Seq<char>, text: Seq<char>) -> Option<Groups>;

/// `Regex::captures_iter`: the groups of each match of a pattern in a text,
/// the matches taken from left to right without overlap.
pub uninterp spec fn regex_all(pattern: Seq<char>, text: Seq<char>) -> Seq<Groups>;

/// The groups of one match as plain values.
pub open spec fn groups_view(groups: Seq<Option<String>>) -> Groups {
    Seq::new(groups.len(), |i: int| groups[i].deep_view())
}

/// The groups of a run of matches as plain values.
pub open spec fn matches_view(matches: Seq<Vec<Option<String>>>) -> Seq<Groups> {
    Seq::new(matches.len(), |i: int| groups_view(matches[i]@))
}

/// `Regex::new`: the compiled expression, or nothing where the pattern is
/// not accepted.
#[verifier::external_body]
pub(crate) fn regex_new(pattern: &str) -> (r: Option<regex::Regex>)
    ensures
        r is Some == regex_compiles(pattern@),
        r matches Some(re) ==> regex_source(re) == pattern@,
{
    regex::Regex::new(pattern).ok()
}

/// `Regex::captures`, each group copied out by `Captures::iter`.
#[verifier::external_body]
pub(crate) fn regex_captures(re: &regex::Regex, text: &str) -> (r: Option<Vec<Option<String>>>)
    ensures
        match r {
            Some(groups) => regex_first(regex_source(*re), text@) == Some(groups_view(groups@)),
            None => regex_first(regex_source(*re), text@) is None,
        },
{
    re.captures(text).map(|c| c.iter().map(|g| g.map(|m| m.as_str().to_string())).collect())
}

/// `Regex::captures_iter`, run to its end, each group copied out by
/// `Captures::iter`.
#[verifier::external_body]
pub(crate) fn regex_captures_iter(re: &regex::Regex, text: &str) -> (r: Vec<Vec<Option<String>>>)
    ensures
        matches_view(r@) == regex_all(regex_source(*re), text@),
{
    re.captures_iter(text).map(|c| c.iter().map(|g| g.map(|m| m.as_str().to_string())).collect()).collect()
}

/// `Regex::is_match`: whether the pattern matches somewhere in the text,
/// which is whether `Regex::captures` finds a match.
#[verifier::external_body]
pub(crate) fn regex_is_match(re: &regex::Regex, text: &str) -> (r: bool)
    ensures
        r == regex_first(regex_source(*re), text@) is Some,
{
    re.is_match(text)
}

/// The text of group `group` of a match, where the match has such a group
/// and it took part.
pub open spec fn group_of(groups: Groups, group: int) -> Option<Seq<char>> {
    if 0 <= group < groups.len() {
        groups[group]
    } else {
        None
    }
}

/// The text of group `group` of a match.
pub fn group_text(groups: &Vec<Option<String>>, group: usize) -> (r: Option<String>)
    ensures
        r.deep_view() == group_of(groups_view(groups@), group as int),
{
    if group < groups.len() {
        match &groups[group] {
            Some(text) => Some(text.clone()),
            None => None,
        }
    } else {
        None
    }
}

/// The texts of group `group` of the matches in which it took part, in the
/// order of the matches.
pub open spec fn group_texts(matches: Seq<Groups>, group: int) -> Seq<Seq<char>>
    decreases matches.len(),
{
    if matches.len() == 0 {
        Seq::empty()
    } else {
        let rest = group_texts(matches.drop_last(), group);
        match group_of(matches.last(), group) {
            Some(text) => rest.push(text),
            None => rest,
        }
    }
}

/// The texts of group `group` of the matches in which it took part.
pub fn collect_group(matches: &Vec<Vec<Option<String>>>, group: usize) -> (r: Vec<String>)
    ensures
        r.deep_view() == group_texts(matches_view(matches@), group as int),
{
    let ghost all = matches_view(matches@);
    let mut out: Vec<String> = Vec::new();
    let mut i: usize = 0;
    proof {
        assert(all.take(0) =~= Seq::empty());
        assert(out.deep_view() =~= Seq::<Seq<char>>::empty());
    }
    while i < matches.len()
        invariant
            i <= matches.len(),
            all == matches_view(matches@),
            out.deep_view() == group_texts(all.take(i as int), group as int),
        decreases matches.len() - i,
    {
        let ghost before = out.deep_view();
        proof {
            assert(all.take(i as int + 1).drop_last() =~= all.take(i as int));
            assert(all.take(i as int + 1).last() == groups_view(matches@[i as int]@));
        }
        match group_text(&matches[i], group) {
            Some(text) => {
                out.push(text);
                assert(out.deep_view() =~= before.push(text@));
            },
            None => {},
        }
        i += 1;
    }
    proof {
        assert(all.take(i as int) =~= all);
    }
    out
}

} // verus!
