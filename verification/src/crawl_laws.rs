//! What each step of a crawl does to it.
use vstd::prelude::*;

use crate::brute;
use crate::content;
use crate::crawl;
use crate::crawl::{
    CrawlView, FileCrawl, FileWordlists, PageHead, PageVisit, VisitView,
};
use crate::html;
use crate::json;
use crate::manifest;
use crate::options::FileScanOptions;
use crate::page_laws;
use crate::references;
use crate::request_laws;
use crate::resolve;
use crate::results;
use crate::results::{FileScanUpdate, FileUpdateView, ScanCounters};
use crate::text;
use crate::urls;
use crate::urls::{PageUrl, UrlView};

verus! {

/// Visits and heads read as their fields stand.
pub proof fn law_visit_views(visit: PageVisit, head: PageHead)
    ensures
        visit.deep_view().url == visit.url@,
        visit.deep_view().depth == visit.depth,
        head@.status == head.status,
        head@.content_type == head.content_type.deep_view(),
        head@.content_length == head.content_length,
{
}

/// A crawl begins with the options that were asked for: with the extensions that they
/// select, with the base as its only page, at depth zero, unless it is not to crawl,
/// and with the URLs that are tried, unless it is not to try any. It expects as many
/// files as it has planned, and has neither seen, inferred nor counted anything.
pub proof fn law_crawl_begins(
    base: PageUrl,
    options: FileScanOptions,
    wordlists: FileWordlists,
    crawl: FileCrawl,
)
    requires
        call_ensures(FileCrawl::from_base, (base, &options, &wordlists), crawl),
    ensures
        begins(base@, options, wordlists, crawl@),
{
    lemma_begins(base@, options, wordlists, crawl@);
}

pub(crate) proof fn lemma_begins(
    base: UrlView,
    options: FileScanOptions,
    wordlists: FileWordlists,
    crawl: CrawlView,
)
    requires
        crawl::starts_from(
            crawl,
            base,
            options,
            wordlists.paths.deep_view(),
            wordlists.presets.deep_view(),
        ),
    ensures
        begins(base, options, wordlists, crawl),
{
    let presets = wordlists.presets.deep_view();
    let keys = options.presets.deep_view();
    let own = options.custom_extensions.deep_view();
    assert forall|item: Seq<char>| #[trigger]
        crawl.extensions.contains(item) <==> request_laws::selected_by(
            presets,
            keys,
            own,
            item,
        ) by {
        request_laws::lemma_listed(crawl.extensions, presets, keys, own, item);
    }
}

/// Whether a crawl stands where the options have it begin.
pub open spec fn begins(
    base: UrlView,
    options: FileScanOptions,
    wordlists: FileWordlists,
    crawl: CrawlView,
) -> bool {
    &&& crawl.base == base
    &&& crawl.extensions.no_duplicates()
    &&& forall|item: Seq<char>| #[trigger]
        crawl.extensions.contains(item) <==> request_laws::selected_by(
            wordlists.presets.deep_view(),
            options.presets.deep_view(),
            options.custom_extensions.deep_view(),
            item,
        )
    &&& crawl.everything == options.scan_everything
    &&& crawl.max_depth == options.max_depth
    &&& options.crawl ==> crawl.queue == seq![VisitView { url: base, depth: 0 }]
    &&& !options.crawl ==> crawl.queue.len() == 0
    &&& options.brute_force ==> crawl.planned == brute::tried_urls(
        base,
        wordlists.paths.deep_view(),
        wordlists.presets.deep_view(),
        crawl.extensions,
        options.scan_everything,
    )
    &&& !options.brute_force ==> crawl.planned.len() == 0
    &&& crawl.total_hint == crawl.planned.len() as usize
    &&& forall|found: Seq<char>| !(#[trigger] crawl.seen.contains(found))
    &&& forall|found: Seq<char>| !(#[trigger] crawl.inferred.contains(found))
    &&& crawl.counters.checked == 0 && crawl.counters.found == 0
}

/// A crawl is asked for what it holds.
pub proof fn law_crawl_asked(
    crawl: FileCrawl,
    base: &PageUrl,
    extensions: &Vec<String>,
    counters: ScanCounters,
    total: usize,
    started: FileScanUpdate,
    elapsed_ms: u128,
    progress: FileScanUpdate,
)
    requires
        call_ensures(FileCrawl::base, (&crawl,), base),
        call_ensures(FileCrawl::extensions, (&crawl,), extensions),
        call_ensures(FileCrawl::counters, (&crawl,), counters),
        call_ensures(FileCrawl::total_hint, (&crawl,), total),
        call_ensures(FileCrawl::started, (&crawl,), started),
        call_ensures(FileCrawl::progress, (&crawl, elapsed_ms), progress),
    ensures
        base@ == crawl@.base,
        extensions.deep_view() == crawl@.extensions,
        counters == crawl@.counters,
        total == crawl@.total_hint,
        started.deep_view() == (FileUpdateView::Started { total: crawl@.total_hint }),
        progress.deep_view() == (FileUpdateView::Progress {
            progress: results::progress_of(crawl@.counters, crawl@.total_hint, elapsed_ms),
        }),
{
}

/// A candidate that was checked is counted, and nothing else changes.
pub proof fn law_count_candidate(crawl: &mut FileCrawl, found: bool)
    requires
        call_ensures(FileCrawl::count_candidate, (crawl, found), ()),
    ensures
        final(crawl)@ == (CrawlView {
            counters: old(crawl)@.counters.with_outcome(found),
            ..old(crawl)@
        }),
{
}

/// The next page is the first of the queue that was not seen. It and those before it
/// leave the queue, it counts as seen, and nothing else changes.
pub proof fn law_next_page(crawl: &mut FileCrawl, visit: Option<PageVisit>, i: int)
    requires
        call_ensures(FileCrawl::next_page, (crawl,), visit),
        0 <= i < old(crawl)@.queue.len(),
        !old(crawl)@.seen.contains(old(crawl)@.queue[i].url.text),
        forall|j: int|
            0 <= j < i ==> old(crawl)@.seen.contains((#[trigger] old(crawl)@.queue[j]).url.text),
    ensures
        visit.deep_view() == Some(old(crawl)@.queue[i]),
        final(crawl)@.queue == old(crawl)@.queue.skip(i + 1),
        final(crawl)@.seen == old(crawl)@.seen.insert(old(crawl)@.queue[i].url.text),
        final(crawl)@ == (CrawlView {
            queue: final(crawl)@.queue,
            seen: final(crawl)@.seen,
            ..old(crawl)@
        }),
{
    lemma_next_at(old(crawl)@, i);
}

/// Where all pages of the queue were seen there is no next one. They leave the queue,
/// and nothing else changes.
pub proof fn law_no_next_page(crawl: &mut FileCrawl, visit: Option<PageVisit>)
    requires
        call_ensures(FileCrawl::next_page, (crawl,), visit),
        forall|j: int|
            0 <= j < old(crawl)@.queue.len() ==> old(crawl)@.seen.contains(
                (#[trigger] old(crawl)@.queue[j]).url.text,
            ),
    ensures
        visit is None,
        final(crawl)@.queue.len() == 0,
        final(crawl)@ == (CrawlView { queue: final(crawl)@.queue, ..old(crawl)@ }),
{
    lemma_next_none(old(crawl)@);
}

pub(crate) proof fn lemma_next_at(crawl: CrawlView, i: int)
    requires
        0 <= i < crawl.queue.len(),
        !crawl.seen.contains(crawl.queue[i].url.text),
        forall|j: int| 0 <= j < i ==> crawl.seen.contains((#[trigger] crawl.queue[j]).url.text),
    ensures
        crawl.next() == (
            CrawlView {
                queue: crawl.queue.skip(i + 1),
                seen: crawl.seen.insert(crawl.queue[i].url.text),
                ..crawl
            },
            Some(crawl.queue[i]),
        ),
    decreases i,
{
    let rest = CrawlView { queue: crawl.queue.drop_first(), ..crawl };
    if i == 0 {
        assert(crawl.queue.skip(1) =~= crawl.queue.drop_first());
    } else {
        assert(crawl.seen.contains(crawl.queue[0].url.text));
        assert forall|j: int| 0 <= j < i - 1 implies rest.seen.contains(
            (#[trigger] rest.queue[j]).url.text,
        ) by {
            assert(rest.queue[j] == crawl.queue[j + 1]);
        }
        lemma_next_at(rest, i - 1);
        assert(rest.queue.skip(i) =~= crawl.queue.skip(i + 1));
    }
}

pub(crate) proof fn lemma_next_none(crawl: CrawlView)
    requires
        forall|j: int|
            0 <= j < crawl.queue.len() ==> crawl.seen.contains(
                (#[trigger] crawl.queue[j]).url.text,
            ),
    ensures
        crawl.next() == (
            CrawlView { queue: Seq::empty(), ..crawl },
            None::<VisitView>,
        ),
    decreases crawl.queue.len(),
{
    if crawl.queue.len() == 0 {
        assert(crawl.queue =~= Seq::empty());
    } else {
        let rest = CrawlView { queue: crawl.queue.drop_first(), ..crawl };
        assert(crawl.seen.contains(crawl.queue[0].url.text));
        assert forall|j: int| 0 <= j < rest.queue.len() implies rest.seen.contains(
            (#[trigger] rest.queue[j]).url.text,
        ) by {
            assert(rest.queue[j] == crawl.queue[j + 1]);
        }
        lemma_next_none(rest);
    }
}

/// The content type that an answer names; empty where it names none.
pub open spec fn page_type(head: PageHead) -> Seq<char> {
    if head.content_type is Some {
        head.content_type->0@
    } else {
        Seq::empty()
    }
}

/// A page that was answered is counted. Where it is worth it, it is also counted as
/// found and reported, with the status, the content type and the length of the answer.
/// Nothing else changes.
pub proof fn law_page_fetched(
    crawl: &mut FileCrawl,
    page: PageUrl,
    head: PageHead,
    updates: Vec<FileScanUpdate>,
)
    requires
        call_ensures(FileCrawl::page_fetched, (crawl, &page, &head), updates),
    ensures
        ({
            let found = content::worth_reporting(
                page@.path,
                old(crawl)@.extensions,
                old(crawl)@.everything,
                page_type(head),
            );
            &&& final(crawl)@ == (CrawlView {
                counters: old(crawl)@.counters.with_outcome(found),
                ..old(crawl)@
            })
            &&& !found ==> updates@.len() == 0
            &&& found ==> updates.deep_view() == seq![
                FileUpdateView::Result {
                    result: results::reported_file(
                        page@,
                        head.status,
                        page_type(head),
                        head.content_length,
                    ),
                },
            ]
        }),
{
    assert(updates.deep_view().len() == updates@.len());
}

/// The body of a page is read just where the page is not too deep, was answered with
/// success, and is of a kind that can hold links.
pub proof fn law_wants_body(crawl: FileCrawl, visit: PageVisit, head: PageHead, wanted: bool)
    requires
        call_ensures(FileCrawl::wants_body, (&crawl, &visit, &head), wanted),
    ensures
        wanted <==> visit.depth <= crawl@.max_depth && head.status / 100 == 2
            && content::parsed_for_links(visit.url@.path, page_type(head)),
{
}

/// A page that was not answered is counted, and the reason is reported. Nothing else
/// changes.
pub proof fn law_page_failed(
    crawl: &mut FileCrawl,
    page: PageUrl,
    detail: &str,
    updates: Vec<FileScanUpdate>,
)
    requires
        call_ensures(FileCrawl::page_failed, (crawl, &page, detail), updates),
    ensures
        final(crawl)@ == (CrawlView {
            counters: old(crawl)@.counters.with_outcome(false),
            ..old(crawl)@
        }),
        updates.deep_view() == seq![
            FileUpdateView::Error {
                message: "Failed to fetch "@ + page@.text + ": "@ + detail@,
            },
        ],
{
}

/// A link to another origin, or one that was seen, changes nothing and is not reported.
pub proof fn law_link_is_left(
    crawl: &mut FileCrawl,
    depth: usize,
    link: PageUrl,
    directory: Option<PageUrl>,
    updates: Vec<FileScanUpdate>,
)
    requires
        call_ensures(FileCrawl::follow_link, (crawl, depth, &link, directory), updates),
        !(old(crawl)@.base.scheme == link@.scheme && old(crawl)@.base.host == link@.host
            && old(crawl)@.base.port == link@.port) || old(crawl)@.seen.contains(link@.text),
    ensures
        final(crawl)@ == old(crawl)@,
        updates@.len() == 0,
{
    assert(updates.deep_view().len() == updates@.len());
}

/// Whether a link is one that a crawl takes up: it leads to the origin of the base and
/// was not seen.
pub open spec fn taken_up(crawl: CrawlView, link: UrlView) -> bool {
    &&& crawl.base.scheme == link.scheme
    &&& crawl.base.host == link.host
    &&& crawl.base.port == link.port
    &&& !crawl.seen.contains(link.text)
}

/// A link that is taken up waits as a page, one deeper than the page that has it, where
/// it can be crawled and is not too deep. Else it is planned as a file where it is
/// worth reporting. What was waiting and planned before stays, in order.
pub proof fn law_link_is_placed(
    crawl: &mut FileCrawl,
    depth: usize,
    link: PageUrl,
    directory: Option<PageUrl>,
    updates: Vec<FileScanUpdate>,
)
    requires
        call_ensures(FileCrawl::follow_link, (crawl, depth, &link, directory), updates),
        taken_up(old(crawl)@, link@),
    ensures
        ({
            let waits = urls::crawled_path(link@.path) && depth < old(crawl)@.max_depth;
            let planned = !waits && content::worth_reporting(
                link@.path,
                old(crawl)@.extensions,
                old(crawl)@.everything,
                Seq::empty(),
            );
            &&& waits ==> final(crawl)@.queue == old(crawl)@.queue.push(
                VisitView { url: link@, depth: (depth + 1) as usize },
            )
            &&& !waits ==> final(crawl)@.queue == old(crawl)@.queue
            &&& planned ==> final(crawl)@.planned == old(crawl)@.planned.push(link@)
            &&& !planned ==> final(crawl)@.planned == old(crawl)@.planned
        }),
{
}

/// What a link that is taken up brings: the link itself where its path begins like that
/// of an API, and the directory of a media file where that is not the base, each unless
/// it was inferred before. What is reported counts as inferred and as found. Nothing
/// but that, the queue and the plan changes.
pub proof fn law_link_is_reported(
    crawl: &mut FileCrawl,
    depth: usize,
    link: PageUrl,
    directory: Option<PageUrl>,
    updates: Vec<FileScanUpdate>,
)
    requires
        call_ensures(FileCrawl::follow_link, (crawl, depth, &link, directory), updates),
        taken_up(old(crawl)@, link@),
    ensures
        ({
            let before = old(crawl)@;
            let api = "/api/"@.is_prefix_of(link@.path) && !before.inferred.contains(link@.text);
            let with_api = if api {
                before.inferred.insert(link@.text)
            } else {
                before.inferred
            };
            let counted = if api {
                before.counters.with_found()
            } else {
                before.counters
            };
            let told = if api {
                seq![FileUpdateView::Result { result: results::inferred_api(link@) }]
            } else {
                Seq::empty()
            };
            let parent = directory is Some && urls::media_path(link@.path) && directory->0@.text
                != before.base.text && !with_api.contains(directory->0@.text);
            &&& final(crawl)@ == (CrawlView {
                queue: final(crawl)@.queue,
                planned: final(crawl)@.planned,
                inferred: final(crawl)@.inferred,
                counters: final(crawl)@.counters,
                ..before
            })
            &&& !parent ==> final(crawl)@.inferred == with_api && final(crawl)@.counters == counted
                && updates.deep_view() == told
            &&& parent ==> final(crawl)@.inferred == with_api.insert(directory->0@.text)
                && final(crawl)@.counters == counted.with_found() && updates.deep_view()
                == told.push(
                FileUpdateView::Result { result: results::inferred_directory(directory->0@) },
            )
        }),
{
    let before = old(crawl)@;
    let (with_api, api) = before.infer_api(link@);
    let (with_directory, parent) = with_api.infer_directory(link@, directory.deep_view());
    assert(updates.deep_view() =~= api + parent);
    if directory is Some {
        assert(directory.deep_view() == Some(directory->0@));
        assert(api + parent =~= api || api + parent =~= api.push(
            FileUpdateView::Result { result: results::inferred_directory(directory->0@) },
        ));
    } else {
        assert(api + parent =~= api);
    }
}

/// The directory of a link is that of its URL, where that is short enough to be edited.
pub proof fn law_directory_of(file: UrlView)
    ensures
        urls::editable(file) ==> crawl::directory_of(file) == urls::directory_if_any(file),
        !urls::editable(file) ==> crawl::directory_of(file) is None,
{
}

/// Links are followed one after the other, each with its own directory: following two
/// lists is following the first and then the second.
pub proof fn law_follow_in_order(
    crawl: CrawlView,
    depth: usize,
    a: Seq<UrlView>,
    b: Seq<UrlView>,
    one: UrlView,
)
    ensures
        ({
            let (between, told) = crawl.follow_all(depth, a);
            let (after, more) = between.follow_all(depth, b);
            crawl.follow_all(depth, a + b) == (after, told + more)
        }),
        crawl.follow_all(depth, seq![one]) == crawl.follow(
            depth,
            one,
            crawl::directory_of(one),
        ),
        crawl.follow_all(depth, Seq::empty()) == (crawl, Seq::<FileUpdateView>::empty()),
    decreases b.len(),
{
    let (between, told) = crawl.follow_all(depth, a);
    let (after, more) = between.follow_all(depth, b);
    if b.len() == 0 {
        assert(a + b =~= a);
        assert(told + more =~= told);
    } else {
        law_follow_in_order(crawl, depth, a, b.drop_last(), one);
        assert((a + b).drop_last() =~= a + b.drop_last());
        let (most, some) = between.follow_all(depth, b.drop_last());
        let (last, rest) = most.follow(depth, b.last(), crawl::directory_of(b.last()));
        assert(told + some + rest =~= told + (some + rest));
    }
    assert(seq![one].drop_last() =~= Seq::empty());
    let (single, single_told) = crawl.follow(depth, one, crawl::directory_of(one));
    assert(Seq::<FileUpdateView>::empty() + single_told =~= single_told);
    reveal_with_fuel(CrawlView::follow_all, 2);
}

/// What following links does, one at a time and all together.
pub proof fn law_follow_links(
    crawl: &mut FileCrawl,
    depth: usize,
    links: Vec<PageUrl>,
    updates: Vec<FileScanUpdate>,
)
    requires
        call_ensures(FileCrawl::follow_links, (crawl, depth, &links), updates),
    ensures
        old(crawl)@.follow_all(depth, links.deep_view()) == (final(crawl)@, updates.deep_view()),
{
}

/// The links of a page are those of its elements, then the references in its text, then
/// the media that it names as a manifest. They are followed in this order.
pub proof fn law_page_body(
    crawl: &mut FileCrawl,
    visit: PageVisit,
    body: &str,
    directories: Vec<String>,
    updates: Vec<FileScanUpdate>,
    media: Seq<UrlView>,
)
    requires
        call_ensures(FileCrawl::page_body, (crawl, &visit, body, &directories), updates),
        json::json_document(body@) is None ==> media.len() == 0,
        json::json_document(body@) is Some ==> media == resolve::kept(
            manifest::joined_references(
                old(crawl)@.base,
                visit.url@,
                manifest::document_references(
                    json::json_document(body@)->0,
                    directories.deep_view(),
                ),
            ),
        ),
    ensures
        old(crawl)@.follow_all(
            visit.depth,
            resolve::kept(
                resolve::joined_each(
                    visit.url@,
                    html::targets(page_laws::link_elements(body@)),
                ),
            ) + resolve::kept(
                resolve::joined_each(visit.url@, references::references_in(body@)),
            ) + media,
        ) == (final(crawl)@, updates.deep_view()),
{
    assert(media =~= manifest::manifest_urls(
        old(crawl)@.base,
        visit.url@,
        json::json_document(body@),
        directories.deep_view(),
    ));
}

/// Of two lists, the URLs that were not seen come from the first, each once, and then
/// from the second without those of the first. A single URL is left out just where it
/// was seen.
pub proof fn law_unseen_once(
    a: Seq<UrlView>,
    b: Seq<UrlView>,
    one: UrlView,
    seen: Set<Seq<char>>,
)
    ensures
        crawl::unseen_once(a + b, seen) == crawl::unseen_once(a, seen) + crawl::unseen_once(
            b,
            seen.union(crawl::texts_of(a).to_set()),
        ),
        seen.contains(one.text) ==> crawl::unseen_once(seq![one], seen).len() == 0,
        !seen.contains(one.text) ==> crawl::unseen_once(seq![one], seen) == seq![one],
    decreases b.len(),
{
    let none = Seq::<UrlView>::empty();
    assert(seq![one].drop_last() =~= none);
    assert(crawl::texts_of(none) =~= Seq::empty());
    assert(crawl::unseen_once(none, seen) =~= none);
    if !seen.contains(one.text) {
        assert(crawl::unseen_once(seq![one], seen) =~= seq![one]);
    }
    let wider = seen.union(crawl::texts_of(a).to_set());
    if b.len() == 0 {
        assert(a + b =~= a);
        assert(crawl::unseen_once(b, wider) =~= none);
        assert(crawl::unseen_once(a, seen) + none =~= crawl::unseen_once(a, seen));
    } else {
        let rest = b.drop_last();
        law_unseen_once(a, rest, one, seen);
        assert((a + b).drop_last() =~= a + rest);
        assert((a + b).last() == b.last());
        let text = b.last().text;
        assert(crawl::texts_of(a + rest) =~= crawl::texts_of(a) + crawl::texts_of(rest));
        text::lemma_add_contains(crawl::texts_of(a), crawl::texts_of(rest), text);
        assert(wider.contains(text) <==> seen.contains(text) || crawl::texts_of(a).contains(text));
        assert(crawl::unseen_once(a + b, seen) =~= crawl::unseen_once(a, seen)
            + crawl::unseen_once(b, wider));
    }
}

/// The texts of some URLs stand in their order.
pub proof fn law_texts_of(found: Seq<UrlView>, i: int)
    ensures
        crawl::texts_of(found).len() == found.len(),
        0 <= i < found.len() ==> crawl::texts_of(found)[i] == found[i].text,
{
}

/// The files that are handed out are the planned ones that were not seen, each once.
/// All that was planned counts as seen from then on, none is left, and nothing else
/// changes.
pub proof fn law_take_candidates(crawl: &mut FileCrawl, candidates: Vec<PageUrl>, found: Seq<char>)
    requires
        call_ensures(FileCrawl::take_candidates, (crawl,), candidates),
    ensures
        candidates.deep_view() == crawl::unseen_once(old(crawl)@.planned, old(crawl)@.seen),
        final(crawl)@.planned.len() == 0,
        final(crawl)@.seen.contains(found) <==> old(crawl)@.seen.contains(found) || exists|i: int|
            0 <= i < old(crawl)@.planned.len() && (#[trigger] old(crawl)@.planned[i]).text
                == found,
        final(crawl)@ == (CrawlView {
            planned: final(crawl)@.planned,
            seen: final(crawl)@.seen,
            ..old(crawl)@
        }),
{
    let planned = old(crawl)@.planned;
    let texts = crawl::texts_of(planned);
    if texts.contains(found) {
        let i = choose|i: int| 0 <= i < texts.len() && texts[i] == found;
        assert(planned[i].text == found);
    }
    if exists|i: int| 0 <= i < planned.len() && (#[trigger] planned[i]).text == found {
        let i = choose|i: int| 0 <= i < planned.len() && (#[trigger] planned[i]).text == found;
        assert(texts[i] == found);
    }
}

} // verus!
