//! The address of a page that is to be tracked: whether it is well formed,
//! and the name that its link gets.

use super::media_urls::{is_absolute, is_absolute_url};
use crate::text::{string_views, trim, trimmed};
use regex::Regex;
use vstd::prelude::*;

verus! {

/// The pattern of a well-formed page address: scheme, host, a `/`, and the
/// rest, with the part up to the `/` and the rest as its two groups.
pub const URL_PATTERN: &'static str = "(http[s]?://[^/\\s]+/)(.*)";

/// The text of the first and of the second group of the leftmost match of
/// the regular expression `pattern` in `text`, as the `regex` crate finds it,
/// with the empty text for a group that took no part in the match; nothing
/// where `pattern` is no regular expression or `text` holds no match.
pub uninterp spec fn first_two_groups(pattern: Seq<char>, text: Seq<char>) -> Option<(Seq<char>, Seq<char>)>;

/// The two parts of a page address: the part up to the `/` behind the host,
/// and the rest. An address has them where it is absolute and the pattern
/// matches in it.
pub open spec fn url_parts(url: Seq<char>, groups: Option<(Seq<char>, Seq<char>)>) -> Option<
    Seq<Seq<char>>,
> {
    if is_absolute(url) {
        match groups {
            Some(pair) => Some(seq![pair.0, pair.1]),
            None => None,
        }
    } else {
        None
    }
}

/// The name of the link for a page address: the second of its parts without
/// the white space around it. Nothing where the address is not well formed.
pub open spec fn link_name(url: Seq<char>, groups: Option<(Seq<char>, Seq<char>)>) -> Option<Seq<char>> {
    match url_parts(url, groups) {
        Some(parts) => Some(trimmed(parts[1])),
        None => None,
    }
}

/// Trusted: compiles `pattern` with `regex::Regex::new`, searches `text`
/// with `Regex::captures` and reads groups 1 and 2 with `Captures::get` and
/// `Match::as_str`. Claimed: the result is what [`first_two_groups`] names,
/// no more.
#[verifier::external_body]
fn capture_two_groups(pattern: &str, text: &str) -> (groups: Option<(String, String)>)
    ensures
        groups matches Some(pair) ==> first_two_groups(pattern@, text@) == Some((pair.0@, pair.1@)),
        groups.is_none() ==> first_two_groups(pattern@, text@).is_none(),
{
    let regex = Regex::new(pattern).ok()?;
    let found = regex.captures(text)?;
    let first = found.get(1).map_or("", |m| m.as_str()).to_string();
    let second = found.get(2).map_or("", |m| m.as_str()).to_string();
    Some((first, second))
}

/// The parts of `url`, given the groups that the pattern captured in it.
pub fn parts_of_url(url: &str, groups: Option<(String, String)>) -> (parts: Option<Vec<String>>)
    ensures
        parts matches Some(list) ==> Some(string_views(list@)) == url_parts(
            url@,
            match groups {
                Some(pair) => Some((pair.0@, pair.1@)),
                None => None,
            },
        ),
        parts.is_none() ==> url_parts(
            url@,
            match groups {
                Some(pair) => Some((pair.0@, pair.1@)),
                None => None,
            },
        ).is_none(),
{
    if is_absolute_url(url) {
        match groups {
            Some(pair) => {
                let mut list: Vec<String> = Vec::new();
                list.push(pair.0);
                list.push(pair.1);
                assert(string_views(list@) =~= seq![pair.0@, pair.1@]);
                Some(list)
            },
            None => None,
        }
    } else {
        None
    }
}

/// The two parts of the page address `url`, or nothing where it is not a
/// well-formed absolute address.
pub fn check_url(url: &str) -> (parts: Option<Vec<String>>)
    ensures
        parts matches Some(list) ==> Some(string_views(list@)) == url_parts(
            url@,
            first_two_groups(URL_PATTERN@, url@),
        ),
        parts.is_none() ==> url_parts(url@, first_two_groups(URL_PATTERN@, url@)).is_none(),
        parts matches Some(list) ==> list@.len() == 2,
        !is_absolute(url@) ==> parts.is_none(),
{
    if is_absolute_url(url) {
        let groups = capture_two_groups(URL_PATTERN, url);
        let parts = parts_of_url(url, groups);
        proof {
            if parts.is_some() {
                assert(string_views(parts.unwrap()@).len() == 2);
            }
        }
        parts
    } else {
        None
    }
}

/// The name of the link for the page address `url`, or nothing where it is
/// not a well-formed absolute address.
pub fn name_from_url(url: &str) -> (name: Option<String>)
    ensures
        name matches Some(text) ==> Some(text@) == link_name(url@, first_two_groups(URL_PATTERN@, url@)),
        name.is_none() ==> link_name(url@, first_two_groups(URL_PATTERN@, url@)).is_none(),
        !is_absolute(url@) ==> name.is_none(),
{
    match check_url(url) {
        Some(parts) => {
            assert(string_views(parts@)[1] == parts@[1]@);
            Some(trim(parts[1].as_str()))
        },
        None => None,
    }
}

} // verus!
