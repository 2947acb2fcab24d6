//! Links in HTML pages.
use vstd::prelude::*;

use crate::resolve;
use crate::resolve::resolve_all;
use crate::text;
use crate::urls;
use crate::urls::{PageUrl, UrlView};

verus! {

/// The elements of a page that refer to other files.
pub const LINK_SELECTOR: &'static str =
    "a[href], link[href], script[src], img[src], source[src], video[src], audio[src], iframe[src]";

/// The longest page that is parsed: a page can grow to three times its size
/// inside the HTML parser, whose buffers grow to powers of two that are held as
/// 32-bit numbers.
pub const MAX_DOCUMENT_BYTES: usize = 0x2000_0000;

/// An element of a page, with the two attributes that can hold a link.
#[derive(Debug)]
pub struct LinkElement {
    pub href: Option<String>,
    pub src: Option<String>,
}

/// What a [`LinkElement`] stands for.
pub struct LinkElementView {
    pub href: Option<Seq<char>>,
    pub src: Option<Seq<char>>,
}

impl DeepView for LinkElement {
    type V = LinkElementView;

    open spec fn deep_view(&self) -> LinkElementView {
        LinkElementView { href: self.href.deep_view(), src: self.src.deep_view() }
    }
}

/// The elements that `Html::select` finds in a page for a selector, in order.
pub uninterp spec fn selected_elements(
    body: Seq<char>,
    selector: Seq<char>,
) -> Seq<LinkElementView>;

/// Calls `Html::parse_document` of the `scraper` crate on a page and
/// `Html::select` on the document, with the selector that `Selector::parse`
/// makes of a text, and reads `href` and `src` of each element. The result
/// depends on the two texts alone. `Selector::parse` succeeds for the one
/// selector that is admitted.
#[verifier::external_body]
fn select_elements(body: &str, selector: &str) -> (elements: Vec<LinkElement>)
    requires
        text::byte_len(body@) <= MAX_DOCUMENT_BYTES,
        selector@ == LINK_SELECTOR@,
    ensures
        elements.deep_view() == selected_elements(body@, selector@),
{
    let selector = scraper::Selector::parse(selector).expect("static selector is valid");
    scraper::Html::parse_document(body)
        .select(&selector)
        .map(|node| LinkElement {
            href: node.value().attr("href").map(str::to_owned),
            src: node.value().attr("src").map(str::to_owned),
        })
        .collect()
}

/// What an element refers to: its `href`, else its `src`.
pub open spec fn element_target(element: LinkElementView) -> Option<Seq<char>> {
    match element.href {
        Some(href) => Some(href),
        None => element.src,
    }
}

/// What the elements of a page refer to, in order.
pub open spec fn targets(elements: Seq<LinkElementView>) -> Seq<Seq<char>> {
    elements.filter_map(|element: LinkElementView| element_target(element))
}

/// What the elements of a page refer to, in order.
pub fn link_targets(elements: &Vec<LinkElement>) -> (found: Vec<String>)
    ensures
        found.deep_view() == targets(elements.deep_view()),
{
    let ghost all = elements.deep_view();
    let ghost pick = |element: LinkElementView| element_target(element);
    let mut found: Vec<String> = Vec::new();
    assert(found.deep_view() =~= all.take(0).filter_map(pick));
    let mut i: usize = 0;
    while i < elements.len()
        invariant
            i <= elements.len(),
            all == elements.deep_view(),
            pick == (|element: LinkElementView| element_target(element)),
            found.deep_view() == all.take(i as int).filter_map(pick),
        decreases elements.len() - i,
    {
        let ghost before = found.deep_view();
        proof {
            all.lemma_filter_map_take_succ(pick, i as int);
            assert(all[i as int] == elements@[i as int].deep_view());
        }
        match (&elements[i].href, &elements[i].src) {
            (Some(href), _) => {
                found.push(href.clone());
                assert(found.deep_view() =~= before + seq![href@]);
            },
            (None, Some(src)) => {
                found.push(src.clone());
                assert(found.deep_view() =~= before + seq![src@]);
            },
            (None, None) => {
                assert(found.deep_view() =~= before + Seq::empty());
            },
        }
        i += 1;
    }
    assert(all.take(i as int) =~= all);
    found
}

/// The URLs that the elements of a page refer to.
pub open spec fn linked_urls(base: UrlView, body: Seq<char>) -> Seq<UrlView> {
    resolve::kept(
        resolve::joined_each(base, targets(selected_elements(body, LINK_SELECTOR@))),
    )
}

/// The URLs that the elements of a page refer to, as far as they can be joined
/// to its own.
pub fn extract_links(base: &PageUrl, body: &str) -> (links: Vec<PageUrl>)
    requires
        text::byte_len(body@) <= MAX_DOCUMENT_BYTES,
    ensures
        links.deep_view() == linked_urls(base@, body@),
        urls::all_read_back(links.deep_view()),
{
    let elements = select_elements(body, LINK_SELECTOR);
    resolve_all(base, &link_targets(&elements))
}

} // verus!
