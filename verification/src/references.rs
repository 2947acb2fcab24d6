//! References in running text.
use vstd::prelude::*;

use crate::extension;
use crate::extension::url_extension_from_path;
use crate::resolve;
use crate::resolve::resolve_all;
use crate::text;
use crate::text::{count_bytes, split_class, starts_with, trim, trim_class, CharClass};
use crate::urls;
use crate::urls::{PageUrl, UrlView};

verus! {

/// Whether a token of a text looks like a reference: at least three bytes, no
/// data URL or fragment, and then an absolute URL or path, or a name with an
/// extension.
pub open spec fn reference_like(value: Seq<char>) -> bool {
    if text::byte_len(value) < 3 || "data:"@.is_prefix_of(value) || "#"@.is_prefix_of(value) {
        false
    } else {
        ||| "http://"@.is_prefix_of(value)
        ||| "https://"@.is_prefix_of(value)
        ||| "/"@.is_prefix_of(value)
        ||| extension::path_extension(value) is Some
    }
}

/// Whether a token of a text looks like a reference.
pub fn looks_like_reference(value: &str) -> (found: bool)
    ensures
        found == reference_like(value@),
{
    if count_bytes(value) < 3 || starts_with(value, "data:") || starts_with(value, "#") {
        return false;
    }
    if starts_with(value, "http://") || starts_with(value, "https://") || starts_with(value, "/") {
        return true;
    }
    url_extension_from_path(value).is_some()
}

/// A token without white space, backslashes, dots and colons round it.
pub open spec fn cleaned(token: Seq<char>) -> Seq<char> {
    text::both_trimmed(
        text::both_trimmed(
            text::both_trimmed(text::trimmed(token), CharClass::Only('\\')),
            CharClass::Only('.'),
        ),
        CharClass::Only(':'),
    )
}

/// A token as a reference, where it looks like one.
pub open spec fn token_reference(token: Seq<char>) -> Option<Seq<char>> {
    if reference_like(cleaned(token)) {
        Some(cleaned(token))
    } else {
        None
    }
}

/// The references in a text, in order.
pub open spec fn references_in(body: Seq<char>) -> Seq<Seq<char>> {
    text::pieces(body, CharClass::TokenBreak).filter_map(|token: Seq<char>| token_reference(token))
}

/// The tokens of a text that look like references, in order.
pub fn text_references(body: &str) -> (found: Vec<String>)
    ensures
        found.deep_view() == references_in(body@),
{
    let tokens = split_class(body, CharClass::TokenBreak);
    let ghost all = text::pieces(body@, CharClass::TokenBreak);
    let ghost pick = |token: Seq<char>| token_reference(token);
    let mut found: Vec<String> = Vec::new();
    assert(found.deep_view() =~= all.take(0).filter_map(pick));
    let mut i: usize = 0;
    while i < tokens.len()
        invariant
            i <= tokens.len(),
            tokens.deep_view() == all,
            pick == (|token: Seq<char>| token_reference(token)),
            found.deep_view() == all.take(i as int).filter_map(pick),
        decreases tokens.len() - i,
    {
        let ghost before = found.deep_view();
        proof {
            all.lemma_filter_map_take_succ(pick, i as int);
            assert(all[i as int] == tokens@[i as int]@);
        }
        let clean = trim_class(
            trim_class(
                trim_class(trim(tokens[i].as_str()), CharClass::Only('\\')),
                CharClass::Only('.'),
            ),
            CharClass::Only(':'),
        );
        if looks_like_reference(clean) {
            found.push(clean.to_owned());
            assert(found.deep_view() =~= before + seq![clean@]);
        } else {
            assert(found.deep_view() =~= before + Seq::empty());
        }
        i += 1;
    }
    assert(all.take(i as int) =~= all);
    found
}

/// The URLs that a text refers to.
pub open spec fn referenced_urls(base: UrlView, body: Seq<char>) -> Seq<UrlView> {
    resolve::kept(resolve::joined_each(base, references_in(body)))
}

/// The URLs that a text refers to, as far as they can be joined to its own.
pub fn extract_text_references(base: &PageUrl, body: &str) -> (links: Vec<PageUrl>)
    ensures
        links.deep_view() == referenced_urls(base@, body@),
        urls::all_read_back(links.deep_view()),
{
    resolve_all(base, &text_references(body))
}

} // verus!
