//! Resolving references against a base URL.
use vstd::prelude::*;

use crate::urls;
use crate::urls::{join_url, PageUrl, UrlView};

verus! {

/// The URLs among the outcomes of joining, in order.
pub open spec fn kept(outcomes: Seq<Option<UrlView>>) -> Seq<UrlView> {
    outcomes.filter_map(|outcome: Option<UrlView>| outcome)
}

/// What joining each reference to a base gives.
pub open spec fn joined_each(
    base: UrlView,
    references: Seq<Seq<char>>,
) -> Seq<Option<UrlView>> {
    references.map_values(|reference: Seq<char>| urls::joined_url(base, reference))
}

/// What is kept of outcomes that read back reads back.
pub(crate) proof fn lemma_kept_read_back(outcomes: Seq<Option<UrlView>>)
    requires
        forall|i: int|
            0 <= i < outcomes.len() ==> urls::reads_back_if_any(#[trigger] outcomes[i]),
    ensures
        urls::all_read_back(kept(outcomes)),
{
    let same = |outcome: Option<UrlView>| outcome;
    let found = kept(outcomes);
    assert forall|i: int| 0 <= i < found.len() implies urls::reads_back(#[trigger] found[i]) by {
        assert(found.contains(found[i]));
        outcomes.lemma_filter_map_contains(same, found[i]);
        let outcome = choose|outcome: Option<UrlView>| #[trigger]
            outcomes.contains(outcome) && same(outcome) == Some(found[i]);
        let j = choose|j: int| 0 <= j < outcomes.len() && outcomes[j] == outcome;
        assert(urls::reads_back_if_any(outcomes[j]));
    }
}

/// Keeps the URLs among the outcomes of joining, in order.
pub fn keep_joined(outcomes: Vec<Option<PageUrl>>) -> (kept_urls: Vec<PageUrl>)
    ensures
        kept_urls.deep_view() == kept(outcomes.deep_view()),
{
    let ghost all = outcomes.deep_view();
    let ghost same = |outcome: Option<UrlView>| outcome;
    let mut kept_urls: Vec<PageUrl> = Vec::new();
    assert(kept_urls.deep_view() =~= all.take(0).filter_map(same));
    let mut i: usize = 0;
    while i < outcomes.len()
        invariant
            i <= outcomes.len(),
            all == outcomes.deep_view(),
            same == (|outcome: Option<UrlView>| outcome),
            kept_urls.deep_view() == all.take(i as int).filter_map(same),
        decreases outcomes.len() - i,
    {
        let ghost before = kept_urls.deep_view();
        proof {
            all.lemma_filter_map_take_succ(same, i as int);
            assert(all[i as int] == outcomes@[i as int].deep_view());
        }
        match &outcomes[i] {
            Some(joined) => {
                kept_urls.push(joined.clone());
                assert(kept_urls.deep_view() =~= before + seq![joined@]);
            },
            None => {
                assert(kept_urls.deep_view() =~= before + Seq::empty());
            },
        }
        i += 1;
    }
    assert(all.take(i as int) =~= all);
    kept_urls
}

/// Joins each reference to a base and keeps the URLs that come out, in order.
pub fn resolve_all(base: &PageUrl, references: &Vec<String>) -> (resolved: Vec<PageUrl>)
    ensures
        resolved.deep_view() == kept(joined_each(base@, references.deep_view())),
        urls::all_read_back(resolved.deep_view()),
{
    let ghost wanted = joined_each(base@, references.deep_view());
    let mut outcomes: Vec<Option<PageUrl>> = Vec::new();
    let mut i: usize = 0;
    while i < references.len()
        invariant
            i <= references.len(),
            wanted == joined_each(base@, references.deep_view()),
            outcomes.deep_view() == wanted.take(i as int),
            forall|j: int| 0 <= j < i ==> urls::reads_back_if_any(#[trigger] wanted[j]),
        decreases references.len() - i,
    {
        let ghost before = outcomes.deep_view();
        outcomes.push(join_url(base, references[i].as_str()));
        assert(outcomes.deep_view() =~= before.push(wanted[i as int]));
        assert(wanted.take(i + 1) =~= wanted.take(i as int).push(wanted[i as int]));
        i += 1;
    }
    assert(wanted.take(i as int) =~= wanted);
    proof {
        lemma_kept_read_back(wanted);
    }
    keep_joined(outcomes)
}

} // verus!
