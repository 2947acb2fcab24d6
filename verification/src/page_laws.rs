//! What is taken from a page: its links, and the references in its running text.
use vstd::prelude::*;

use crate::extension;
use crate::html;
use crate::html::{extract_links, link_targets, LinkElement, LinkElementView};
use crate::list_lemmas;
use crate::references;
use crate::references::{extract_text_references, looks_like_reference, text_references};
use crate::resolve;
use crate::resolve::{keep_joined, resolve_all};
use crate::rule_laws;
use crate::text;
use crate::text::CharClass;
use crate::text_laws;
use crate::urls;
use crate::urls::{PageUrl, UrlView};

verus! {

/// What is kept of two lists of outcomes put together is what is kept of each; of
/// one outcome it is the URL that came out, if any.
pub proof fn law_kept(a: Seq<Option<UrlView>>, b: Seq<Option<UrlView>>, url: UrlView)
    ensures
        resolve::kept(a + b) == resolve::kept(a) + resolve::kept(b),
        resolve::kept(seq![Some(url)]) == seq![url],
        resolve::kept(seq![None]) == Seq::<UrlView>::empty(),
{
    let same = |outcome: Option<UrlView>| outcome;
    list_lemmas::lemma_filter_map_add(a, b, same);
    list_lemmas::lemma_filter_map_one(Some(url), same);
    list_lemmas::lemma_filter_map_one(None, same);
}

/// Each URL that came out is kept, and nothing else.
proof fn lemma_kept_has(outcomes: Seq<Option<UrlView>>, url: UrlView)
    ensures
        resolve::kept(outcomes).contains(url) <==> outcomes.contains(Some(url)),
{
    let same = |outcome: Option<UrlView>| outcome;
    if outcomes.contains(Some(url)) {
        let i = choose|i: int| 0 <= i < outcomes.len() && outcomes[i] == Some(url);
        rule_laws::lemma_filter_map_has(outcomes, same, i);
    }
    if resolve::kept(outcomes).contains(url) {
        outcomes.lemma_filter_map_contains(same, url);
    }
}

/// Keeping takes over each URL, unchanged and in order, and drops what is none.
pub proof fn law_keep_joined(outcomes: Vec<Option<PageUrl>>, found: Vec<PageUrl>, url: UrlView)
    requires
        call_ensures(keep_joined, (outcomes,), found),
    ensures
        found.deep_view() == resolve::kept(outcomes.deep_view()),
        found.deep_view().contains(url) <==> outcomes.deep_view().contains(Some(url)),
{
    lemma_kept_has(outcomes.deep_view(), url);
}

/// Each reference is joined to the base as it stands.
pub proof fn law_joined_each(base: UrlView, all: Seq<Seq<char>>, i: int)
    ensures
        resolve::joined_each(base, all).len() == all.len(),
        0 <= i < all.len() ==> resolve::joined_each(base, all)[i] == urls::joined_url(base, all[i]),
{
}

/// The URLs that come of joining some references are those that each of them gives.
pub proof fn law_resolve_all(base: PageUrl, all: Vec<String>, found: Vec<PageUrl>, url: UrlView)
    requires
        call_ensures(resolve_all, (&base, &all), found),
    ensures
        found.deep_view() == resolve::kept(resolve::joined_each(base@, all.deep_view())),
        found.deep_view().contains(url) <==> exists|i: int|
            0 <= i < all@.len() && urls::joined_url(base@, #[trigger] all@[i]@) == Some(url),
{
    lemma_resolved(base@, all.deep_view(), url);
    let texts = all.deep_view();
    if exists|i: int|
        0 <= i < texts.len() && urls::joined_url(base@, #[trigger] texts[i]) == Some(url) {
        let i = choose|i: int|
            0 <= i < texts.len() && urls::joined_url(base@, #[trigger] texts[i]) == Some(url);
        assert(texts[i] == all@[i]@);
    }
    if exists|i: int|
        0 <= i < all@.len() && urls::joined_url(base@, #[trigger] all@[i]@) == Some(url) {
        let i = choose|i: int|
            0 <= i < all@.len() && urls::joined_url(base@, #[trigger] all@[i]@) == Some(url);
        assert(texts[i] == all@[i]@);
    }
}

pub(crate) proof fn lemma_resolved(base: UrlView, texts: Seq<Seq<char>>, url: UrlView)
    ensures
        resolve::kept(resolve::joined_each(base, texts)).contains(url) <==> exists|i: int|
            0 <= i < texts.len() && urls::joined_url(base, #[trigger] texts[i]) == Some(url),
{
    let outcomes = resolve::joined_each(base, texts);
    lemma_kept_has(outcomes, url);
    if outcomes.contains(Some(url)) {
        let i = choose|i: int| 0 <= i < outcomes.len() && outcomes[i] == Some(url);
        assert(urls::joined_url(base, texts[i]) == Some(url));
    }
    if exists|i: int|
        0 <= i < texts.len() && urls::joined_url(base, #[trigger] texts[i]) == Some(url) {
        let i = choose|i: int|
            0 <= i < texts.len() && urls::joined_url(base, #[trigger] texts[i]) == Some(url);
        assert(outcomes[i] == Some(url));
    }
}

/// An element reads as its attributes stand.
pub proof fn law_element_view(element: LinkElement)
    ensures
        element.href is Some ==> element.deep_view().href == Some(element.href->0@),
        element.href is None ==> element.deep_view().href is None,
        element.src is Some ==> element.deep_view().src == Some(element.src->0@),
        element.src is None ==> element.deep_view().src is None,
{
}

/// What two lists of elements refer to is what each of them refers to, in order.
/// One element refers to its `href` as it stands, else to its `src` as it stands,
/// else to nothing.
pub proof fn law_targets(
    a: Seq<LinkElementView>,
    b: Seq<LinkElementView>,
    href: Seq<char>,
    src: Option<Seq<char>>,
    only: Seq<char>,
)
    ensures
        html::targets(a + b) == html::targets(a) + html::targets(b),
        html::targets(seq![LinkElementView { href: Some(href), src }]) == seq![href],
        html::targets(seq![LinkElementView { href: None, src: Some(only) }]) == seq![only],
        html::targets(seq![LinkElementView { href: None, src: None }]) == Seq::<Seq<char>>::empty(),
{
    let pick = |element: LinkElementView| html::element_target(element);
    list_lemmas::lemma_filter_map_add(a, b, pick);
    list_lemmas::lemma_filter_map_one(LinkElementView { href: Some(href), src }, pick);
    list_lemmas::lemma_filter_map_one(LinkElementView { href: None, src: Some(only) }, pick);
    list_lemmas::lemma_filter_map_one(LinkElementView { href: None, src: None }, pick);
}

/// Whether an attribute of an element is what the element refers to.
pub open spec fn refers_to(element: LinkElementView, target: Seq<char>) -> bool {
    element.href == Some(target) || (element.href is None && element.src == Some(target))
}

/// The targets of elements are their attributes, character for character.
proof fn lemma_targets_has(elements: Seq<LinkElementView>, target: Seq<char>)
    ensures
        html::targets(elements).contains(target) <==> exists|i: int|
            0 <= i < elements.len() && refers_to(#[trigger] elements[i], target),
{
    let pick = |element: LinkElementView| html::element_target(element);
    if exists|i: int| 0 <= i < elements.len() && refers_to(#[trigger] elements[i], target) {
        let i = choose|i: int| 0 <= i < elements.len() && refers_to(#[trigger] elements[i], target);
        rule_laws::lemma_filter_map_has(elements, pick, i);
    }
    if html::targets(elements).contains(target) {
        elements.lemma_filter_map_contains(pick, target);
        let element = choose|element: LinkElementView| #[trigger]
            elements.contains(element) && pick(element) == Some(target);
        let i = choose|i: int| 0 <= i < elements.len() && elements[i] == element;
        assert(refers_to(elements[i], target));
    }
}

/// For every element with an `href` the targets hold that `href` as it stands, for
/// every element with a `src` alone that `src` as it stands, and they hold nothing
/// else.
pub proof fn law_link_targets(
    elements: Vec<LinkElement>,
    found: Vec<String>,
    i: int,
    target: Seq<char>,
)
    requires
        call_ensures(link_targets, (&elements,), found),
    ensures
        found.deep_view() == html::targets(elements.deep_view()),
        0 <= i < elements@.len() && elements@[i].href is Some ==> found.deep_view().contains(
            elements@[i].href->0@,
        ),
        0 <= i < elements@.len() && elements@[i].href is None && elements@[i].src is Some
            ==> found.deep_view().contains(elements@[i].src->0@),
        found.deep_view().contains(target) ==> exists|j: int|
            0 <= j < elements@.len() && refers_to(
                #[trigger] elements@[j].deep_view(),
                target,
            ),
{
    let views = elements.deep_view();
    if 0 <= i < elements@.len() {
        assert(views[i] == elements@[i].deep_view());
        if elements@[i].href is Some {
            assert(refers_to(views[i], elements@[i].href->0@));
            lemma_targets_has(views, elements@[i].href->0@);
        } else if elements@[i].src is Some {
            assert(refers_to(views[i], elements@[i].src->0@));
            lemma_targets_has(views, elements@[i].src->0@);
        }
    }
    lemma_targets_has(views, target);
    if found.deep_view().contains(target) {
        let j = choose|j: int| 0 <= j < views.len() && refers_to(#[trigger] views[j], target);
        assert(views[j] == elements@[j].deep_view());
    }
}

/// The elements of a page that can refer to another file.
pub open spec fn link_elements(body: Seq<char>) -> Seq<LinkElementView> {
    html::selected_elements(
        body,
        "a[href], link[href], script[src], img[src], source[src], video[src], audio[src], iframe[src]"@,
    )
}

/// The links of a page are what its own URL gives when the attribute of one of its
/// elements is joined to it as it stands.
pub proof fn law_extract_links(base: PageUrl, body: &str, found: Vec<PageUrl>, url: UrlView)
    requires
        call_ensures(extract_links, (&base, body), found),
    ensures
        found.deep_view() == resolve::kept(
            resolve::joined_each(base@, html::targets(link_elements(body@))),
        ),
        found.deep_view().contains(url) <==> exists|i: int, target: Seq<char>|
            0 <= i < link_elements(body@).len() && #[trigger] refers_to(
                link_elements(body@)[i],
                target,
            ) && urls::joined_url(base@, target) == Some(url),
{
    let elements = link_elements(body@);
    let all = html::targets(elements);
    lemma_resolved(base@, all, url);
    if found.deep_view().contains(url) {
        let k = choose|k: int|
            0 <= k < all.len() && urls::joined_url(base@, #[trigger] all[k]) == Some(url);
        assert(all.contains(all[k]));
        lemma_targets_has(elements, all[k]);
        let i = choose|i: int| 0 <= i < elements.len() && refers_to(#[trigger] elements[i], all[k]);
        assert(refers_to(elements[i], all[k]));
    }
    if exists|i: int, target: Seq<char>|
        0 <= i < elements.len() && #[trigger] refers_to(elements[i], target) && urls::joined_url(
            base@,
            target,
        ) == Some(url) {
        let (i, target) = choose|i: int, target: Seq<char>|
            0 <= i < elements.len() && #[trigger] refers_to(elements[i], target)
                && urls::joined_url(base@, target) == Some(url);
        lemma_targets_has(elements, target);
        let k = choose|k: int| 0 <= k < all.len() && all[k] == target;
        assert(urls::joined_url(base@, all[k]) == Some(url));
    }
}

/// The references of a text that is parted at a break are those before it, then
/// those behind it.
pub proof fn law_references_at_break(before: Seq<char>, c: char, after: Seq<char>)
    requires
        CharClass::TokenBreak.has_char(c),
    ensures
        references::references_in(before.push(c) + after) == references::references_in(before)
            + references::references_in(after),
{
    text_laws::law_split(before, c, after, CharClass::TokenBreak);
    list_lemmas::lemma_filter_map_add(
        text::pieces(before, CharClass::TokenBreak),
        text::pieces(after, CharClass::TokenBreak),
        |token: Seq<char>| references::token_reference(token),
    );
}

/// A text without breaks is one token. What is left of it when first backslashes, then
/// dots and then colons are taken off both its ends is its reference, unchanged, where
/// that looks like one.
pub proof fn law_reference_of_token(
    slashes: Seq<char>,
    dots: Seq<char>,
    colons: Seq<char>,
    core: Seq<char>,
    colons_behind: Seq<char>,
    dots_behind: Seq<char>,
    slashes_behind: Seq<char>,
    token: Seq<char>,
)
    requires
        token == slashes + (dots + (colons + core + colons_behind) + dots_behind) + slashes_behind,
        forall|i: int|
            0 <= i < token.len() ==> !CharClass::TokenBreak.has_char(#[trigger] token[i]),
        text_laws::all_in(slashes, CharClass::Only('\\')),
        text_laws::all_in(slashes_behind, CharClass::Only('\\')),
        text_laws::bare_ends(
            dots + (colons + core + colons_behind) + dots_behind,
            CharClass::Only('\\'),
        ),
        text_laws::all_in(dots, CharClass::Only('.')),
        text_laws::all_in(dots_behind, CharClass::Only('.')),
        text_laws::bare_ends(colons + core + colons_behind, CharClass::Only('.')),
        text_laws::all_in(colons, CharClass::Only(':')),
        text_laws::all_in(colons_behind, CharClass::Only(':')),
        text_laws::bare_ends(core, CharClass::Only(':')),
    ensures
        references::references_in(token) == if references::reference_like(core) {
            seq![core]
        } else {
            Seq::empty()
        },
{
    let inner = colons + core + colons_behind;
    let middle = dots + inner + dots_behind;
    text_laws::law_unsplit(token, CharClass::TokenBreak);
    if token.len() > 0 {
        assert(!CharClass::TokenBreak.has_char(token[0]));
        assert(!CharClass::TokenBreak.has_char(token[token.len() - 1]));
    }
    let none = Seq::<char>::empty();
    text_laws::law_trim(none, token, none, CharClass::WhiteSpace);
    assert(none + token + none =~= token);
    text_laws::law_trim(slashes, middle, slashes_behind, CharClass::Only('\\'));
    text_laws::law_trim(dots, inner, dots_behind, CharClass::Only('.'));
    text_laws::law_trim(colons, core, colons_behind, CharClass::Only(':'));
    list_lemmas::lemma_filter_map_one(
        token,
        |token: Seq<char>| references::token_reference(token),
    );
}

/// What looks like a reference: not what is shorter than three bytes, nor what begins
/// like a data URL or a fragment; of the rest, what begins like a URL of the web or
/// with a slash, and what has an extension.
pub proof fn law_looks_like_reference(value: &str, found: bool)
    requires
        call_ensures(looks_like_reference, (value,), found),
    ensures
        text::byte_len(value@) < 3 ==> !found,
        "data:"@.is_prefix_of(value@) ==> !found,
        value@.len() > 0 && value@[0] == '#' ==> !found,
        text::byte_len(value@) >= 3 && ("http://"@.is_prefix_of(value@)
            || "https://"@.is_prefix_of(value@)) ==> found,
        text::byte_len(value@) >= 3 && value@.len() > 0 && value@[0] == '/' ==> found,
        text::byte_len(value@) >= 3 && !"data:"@.is_prefix_of(value@) && value@.len() > 0
            && value@[0] != '#' && extension::path_extension(value@) is Some ==> found,
        found ==> "http://"@.is_prefix_of(value@) || "https://"@.is_prefix_of(value@) || value@[0]
            == '/' || extension::path_extension(value@) is Some,
        found <==> references::reference_like(value@),
{
    reveal_strlit("data:");
    reveal_strlit("#");
    reveal_strlit("/");
    reveal_strlit("http://");
    reveal_strlit("https://");
    let v = value@;
    if v.len() > 0 {
        assert(seq!['#'] =~= "#"@ && seq!['/'] =~= "/"@);
        if v[0] == '#' {
            assert(v.subrange(0, 1) =~= "#"@);
        }
        if v[0] == '/' {
            assert(v.subrange(0, 1) =~= "/"@);
            assert(!"data:"@.is_prefix_of(v)) by {
                assert("data:"@[0] == 'd');
                if "data:"@.is_prefix_of(v) {
                    assert(v.subrange(0, 5)[0] == v[0]);
                }
            }
        }
        assert("#"@.is_prefix_of(v) ==> v[0] == '#') by {
            if "#"@.is_prefix_of(v) {
                assert(v.subrange(0, 1)[0] == v[0]);
                assert("#"@[0] == '#');
            }
        }
        assert("/"@.is_prefix_of(v) ==> v[0] == '/') by {
            if "/"@.is_prefix_of(v) {
                assert(v.subrange(0, 1)[0] == v[0]);
                assert("/"@[0] == '/');
            }
        }
        if "http://"@.is_prefix_of(v) {
            assert(v.subrange(0, 7)[0] == v[0] && "http://"@[0] == 'h');
            if "data:"@.is_prefix_of(v) {
                assert(v.subrange(0, 5)[0] == v[0] && "data:"@[0] == 'd');
            }
        }
        if "https://"@.is_prefix_of(v) {
            assert(v.subrange(0, 8)[0] == v[0] && "https://"@[0] == 'h');
            if "data:"@.is_prefix_of(v) {
                assert(v.subrange(0, 5)[0] == v[0] && "data:"@[0] == 'd');
            }
        }
    }
}

/// The URLs that a text refers to are those that its references give.
pub proof fn law_extract_text_references(
    base: PageUrl,
    body: &str,
    found: Vec<PageUrl>,
    url: UrlView,
)
    requires
        call_ensures(extract_text_references, (&base, body), found),
    ensures
        found.deep_view() == resolve::kept(
            resolve::joined_each(base@, references::references_in(body@)),
        ),
        found.deep_view().contains(url) <==> exists|i: int|
            0 <= i < references::references_in(body@).len() && urls::joined_url(
                base@,
                #[trigger] references::references_in(body@)[i],
            ) == Some(url),
{
    lemma_resolved(base@, references::references_in(body@), url);
}

/// The references of a text are what its tokens give, in order.
pub proof fn law_text_references(body: &str, found: Vec<String>)
    requires
        call_ensures(text_references, (body,), found),
    ensures
        found.deep_view() == references::references_in(body@),
{
}

} // verus!
