//! The media addresses of a page as a list without repetition, made
//! absolute against a domain where one is given.

use super::media_urls::{is_absolute, is_absolute_url};
use super::page::page_media_sources;
use crate::text::{
    replace_all, replaced, starts_with, string_views, trim_end_char, trim_start_char, without_leading,
    without_trailing,
};
use vstd::prelude::*;

verus! {

/// `source` behind `domain`, with exactly one `/` between them whatever run
/// of `/` the one ends and the other begins with.
pub open spec fn under_domain(domain: Seq<char>, source: Seq<char>) -> Seq<char> {
    without_trailing(domain, '/') + seq!['/'] + without_leading(source, '/')
}

/// The address listed for `source`: none where only absolute addresses are
/// wanted and it is not one; else the source itself, or, where a domain is
/// given and the source does not begin with `http`, the source under the
/// domain.
pub open spec fn listed_address(source: Seq<char>, absolute_only: bool, domain: Option<Seq<char>>) -> Option<
    Seq<char>,
> {
    if absolute_only && !is_absolute(source) {
        None
    } else {
        match domain {
            Some(d) => if seq!['h', 't', 't', 'p'].is_prefix_of(source) {
                Some(source)
            } else {
                Some(under_domain(d, source))
            },
            None => Some(source),
        }
    }
}

/// `texts` without repetition: each text where it first occurs.
pub open spec fn first_occurrences(texts: Seq<Seq<char>>) -> Seq<Seq<char>>
    decreases texts.len(),
{
    if texts.len() == 0 {
        texts
    } else {
        let before = first_occurrences(texts.drop_last());
        if before.contains(texts.last()) {
            before
        } else {
            before.push(texts.last())
        }
    }
}

/// The addresses listed for `sources`, in order.
pub open spec fn listed_addresses(sources: Seq<Seq<char>>, absolute_only: bool, domain: Option<Seq<char>>) -> Seq<
    Seq<char>,
> {
    sources.filter_map(|source: Seq<char>| listed_address(source, absolute_only, domain))
}

/// The path segment that marks the smaller rendition of an image.
pub open spec fn low_res_segment() -> Seq<char> {
    seq!['/', 'a', '/', '6', '0', '4', '/']
}

/// The path segment that marks the larger rendition of an image.
pub open spec fn high_res_segment() -> Seq<char> {
    seq!['/', 'a', '/', '1', '2', '8', '0', '/']
}

/// The address of the larger rendition of the image at `url`.
pub open spec fn high_res_address(url: Seq<char>) -> Seq<char> {
    replaced(url, low_res_segment(), high_res_segment())
}

/// The view of an optional text.
pub open spec fn optional_view(text: Option<String>) -> Option<Seq<char>> {
    match text {
        Some(t) => Some(t@),
        None => None,
    }
}

/// Nothing occurs twice in [`first_occurrences`], and it holds what the
/// list held.
pub proof fn lemma_first_occurrences_distinct(texts: Seq<Seq<char>>)
    ensures
        first_occurrences(texts).no_duplicates(),
        forall|text: Seq<char>| #[trigger]
            first_occurrences(texts).contains(text) ==> texts.contains(text),
        forall|text: Seq<char>| #[trigger]
            texts.contains(text) ==> first_occurrences(texts).contains(text),
    decreases texts.len(),
{
    if texts.len() > 0 {
        let shorter = texts.drop_last();
        let before = first_occurrences(shorter);
        let after = first_occurrences(texts);
        lemma_first_occurrences_distinct(shorter);
        assert forall|text: Seq<char>| #[trigger] after.contains(text) implies texts.contains(text) by {
            let k = choose|k: int| 0 <= k < after.len() && after[k] == text;
            if k < before.len() {
                assert(before[k] == text);
                assert(before.contains(text));
                assert(shorter.contains(text));
                let i = choose|i: int| 0 <= i < shorter.len() && shorter[i] == text;
                assert(texts[i] == text);
            } else {
                assert(texts[texts.len() - 1] == text);
            }
        }
        assert forall|text: Seq<char>| #[trigger] texts.contains(text) implies after.contains(text) by {
            let i = choose|i: int| 0 <= i < texts.len() && texts[i] == text;
            if i < shorter.len() {
                assert(shorter[i] == text);
                assert(shorter.contains(text));
                assert(before.contains(text));
                let k = choose|k: int| 0 <= k < before.len() && before[k] == text;
                assert(after[k] == text);
            } else if before.contains(text) {
                let k = choose|k: int| 0 <= k < before.len() && before[k] == text;
                assert(after[k] == text);
            } else {
                assert(after[before.len() as int] == text);
            }
        }
    }
}

/// `source` behind `domain`, with one `/` between them.
pub fn join_domain(domain: &str, source: &str) -> (address: String)
    ensures
        address@ == under_domain(domain@, source@),
{
    let mut address = trim_end_char(domain, '/');
    proof {
        reveal_strlit("/");
        assert("/"@ =~= seq!['/']);
    }
    address.append("/");
    address.append(trim_start_char(source, '/').as_str());
    address
}

/// The address listed for `source`.
pub fn list_address(source: &str, absolute_only: bool, domain: &Option<String>) -> (address: Option<String>)
    ensures
        optional_view(address) == listed_address(source@, absolute_only, optional_view(*domain)),
{
    if absolute_only && !is_absolute_url(source) {
        None
    } else {
        match domain {
            Some(d) => {
                proof {
                    reveal_strlit("http");
                    assert("http"@ =~= seq!['h', 't', 't', 'p']);
                }
                if starts_with(source, "http") {
                    Some(String::from_str(source))
                } else {
                    Some(join_domain(d.as_str(), source))
                }
            },
            None => Some(String::from_str(source)),
        }
    }
}

/// The address of the larger rendition of the image at `url`.
pub fn high_res_candidate(url: &str) -> (candidate: String)
    ensures
        candidate@ == high_res_address(url@),
{
    proof {
        reveal_strlit("/a/604/");
        reveal_strlit("/a/1280/");
        assert("/a/604/"@ =~= low_res_segment());
        assert("/a/1280/"@ =~= high_res_segment());
    }
    replace_all(url, "/a/604/", "/a/1280/")
}

/// The address to use for the image at `url`: that of its larger rendition
/// where `candidate_reachable` says that it answers, else `url` itself.
pub fn get_high_res_url(url: String, candidate_reachable: bool) -> (chosen: String)
    ensures
        chosen@ == if candidate_reachable {
            high_res_address(url@)
        } else {
            url@
        },
{
    if candidate_reachable {
        high_res_candidate(url.as_str())
    } else {
        url
    }
}

/// Whether `text` is among `texts`.
fn holds_text(texts: &Vec<String>, text: &String) -> (found: bool)
    ensures
        found == string_views(texts@).contains(text@),
{
    let mut i: usize = 0;
    while i < texts.len()
        invariant
            0 <= i <= texts@.len(),
            forall|k: int| 0 <= k < i ==> string_views(texts@)[k] != text@,
        decreases texts@.len() - i,
    {
        if texts[i] == *text {
            assert(string_views(texts@)[i as int] == text@);
            return true;
        }
        i = i + 1;
    }
    false
}

/// The addresses listed for `sources`, each once, where it first occurs.
pub fn collect_media_urls(sources: &Vec<String>, absolute_only: bool, domain: &Option<String>) -> (urls: Vec<
    String,
>)
    ensures
        string_views(urls@) == first_occurrences(
            listed_addresses(string_views(sources@), absolute_only, optional_view(*domain)),
        ),
        string_views(urls@).no_duplicates(),
{
    let mut urls: Vec<String> = Vec::new();
    let mut i: usize = 0;
    proof {
        assert(string_views(sources@).subrange(0, 0) =~= Seq::<Seq<char>>::empty());
        assert(string_views(urls@) =~= Seq::<Seq<char>>::empty());
    }
    while i < sources.len()
        invariant
            0 <= i <= sources@.len(),
            string_views(urls@) == first_occurrences(
                listed_addresses(
                    string_views(sources@).subrange(0, i as int),
                    absolute_only,
                    optional_view(*domain),
                ),
            ),
        decreases sources@.len() - i,
    {
        let ghost kept = urls@;
        let listed = list_address(sources[i].as_str(), absolute_only, domain);
        proof {
            let shorter = string_views(sources@).subrange(0, i as int);
            let longer = string_views(sources@).subrange(0, i + 1);
            assert(longer.drop_last() =~= shorter);
            assert(longer.last() == sources@[i as int]@);
        }
        match listed {
            Some(address) => {
                proof {
                    let shorter = string_views(sources@).subrange(0, i as int);
                    let longer = string_views(sources@).subrange(0, i + 1);
                    let all = listed_addresses(longer, absolute_only, optional_view(*domain));
                    let before = listed_addresses(shorter, absolute_only, optional_view(*domain));
                    assert(all =~= before + seq![address@]);
                    assert(all.drop_last() =~= before);
                    assert(all.last() == address@);
                }
                if !holds_text(&urls, &address) {
                    let ghost view = address@;
                    urls.push(address);
                    proof {
                        assert(string_views(urls@) =~= string_views(kept).push(view));
                    }
                }
            },
            None => {},
        }
        i = i + 1;
    }
    proof {
        assert(string_views(sources@).subrange(0, i as int) =~= string_views(sources@));
        lemma_first_occurrences_distinct(
            listed_addresses(string_views(sources@), absolute_only, optional_view(*domain)),
        );
    }
    urls
}

/// The media addresses of `page`: the `src` of each `img` and `video`
/// element, listed once each.
pub fn get_media_urls(page: &str, absolute_only: bool, domain: &Option<String>) -> (urls: Vec<String>)
    ensures
        string_views(urls@) == first_occurrences(
            listed_addresses(page_media_sources(page@), absolute_only, optional_view(*domain)),
        ),
        string_views(urls@).no_duplicates(),
{
    let sources = super::page::get_media_urls(page);
    collect_media_urls(&sources, absolute_only, domain)
}

} // verus!
