//! The media elements of a fetched page.

use crate::text::string_views;
use scraper::{Html, Selector};
use vstd::prelude::*;

verus! {

/// The values of the attribute `attribute` of the elements of `page` that
/// the CSS selector `selector` matches and that carry it, in document order,
/// as the `scraper` crate parses page and selector; nothing where `selector`
/// is no selector.
pub uninterp spec fn selected_attributes(page: Seq<char>, selector: Seq<char>, attribute: Seq<char>) -> Option<
    Seq<Seq<char>>,
>;

/// The selector of the media elements: `img, video`.
pub open spec fn media_selector() -> Seq<char> {
    seq!['i', 'm', 'g', ',', ' ', 'v', 'i', 'd', 'e', 'o']
}

/// The attribute that names the source of a media element: `src`.
pub open spec fn source_attribute() -> Seq<char> {
    seq!['s', 'r', 'c']
}

/// The addresses of the media elements of `page`: the `src` of each `img`
/// and `video` element that has one, in document order.
pub open spec fn page_media_sources(page: Seq<char>) -> Seq<Seq<char>> {
    match selected_attributes(page, media_selector(), source_attribute()) {
        Some(sources) => sources,
        None => Seq::empty(),
    }
}

/// Trusted: parses `selector` with `scraper::Selector::parse` and `page`
/// with `scraper::Html::parse_document`, walks `Html::select` and reads
/// `ElementRef::attr(attribute)` of each element found. Claimed: the result
/// is what [`selected_attributes`] names, no more.
#[verifier::external_body]
fn attributes_of_selected(page: &str, selector: &str, attribute: &str) -> (values: Option<Vec<String>>)
    ensures
        selected_attributes(page@, selector@, attribute@) == match values {
            Some(list) => Some(string_views(list@)),
            None => None,
        },
{
    let parsed = Selector::parse(selector).ok()?;
    let document = Html::parse_document(page);
    let values: Vec<String> =
        document.select(&parsed).filter_map(|element| element.attr(attribute)).map(String::from).collect();
    Some(values)
}

/// The addresses of the media elements of `page`, in document order.
pub fn get_media_urls(page: &str) -> (urls: Vec<String>)
    ensures
        string_views(urls@) == page_media_sources(page@),
{
    proof {
        reveal_strlit("img, video");
        reveal_strlit("src");
        assert("img, video"@ =~= media_selector());
        assert("src"@ =~= source_attribute());
    }
    let urls = match attributes_of_selected(page, "img, video", "src") {
        Some(found) => found,
        None => Vec::new(),
    };
    assert(string_views(urls@) =~= page_media_sources(page@));
    urls
}

/// The number of media elements of `page` that name a source.
pub fn count_media_files(page: &str) -> (count: usize)
    ensures
        count == page_media_sources(page@).len(),
{
    let urls = get_media_urls(page);
    assert(string_views(urls@).len() == urls@.len());
    urls.len()
}

} // verus!
