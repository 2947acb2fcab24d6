//! What holds of whole scans, and of functions together.
use vstd::prelude::*;

use crate::crawl;
use crate::crawl::{CrawlView, VisitView};
use crate::results;
use crate::results::FileUpdateView;
use crate::scan::{ActionView, EventView, ScanView, StageView};
use crate::text;
use crate::urls;
use crate::urls::UrlView;

verus! {

/// The state of a scan after some events, each with the time at which it came.
pub open spec fn run(scan: ScanView, events: Seq<(EventView, u128)>) -> ScanView
    decreases events.len(),
{
    if events.len() == 0 {
        scan
    } else {
        run(scan, events.drop_last()).step(events.last().0, events.last().1).0
    }
}

/// A scan that has not begun.
pub open spec fn fresh(
    base: UrlView,
    extensions: Seq<Seq<char>>,
    everything: bool,
    crawl: bool,
    max_depth: usize,
    planned: Seq<UrlView>,
    directories: Seq<Seq<char>>,
) -> ScanView {
    ScanView {
        crawl: CrawlView::started(base, extensions, everything, crawl, max_depth, planned),
        stage: StageView::Idle,
        directories,
    }
}

/// Whether a scan is past its crawl.
pub open spec fn past_crawl(stage: StageView) -> bool {
    stage is Checking || stage is Over
}

/// What the choice of the next page leaves as it is, and where the page comes from.
pub(crate) proof fn lemma_next(crawl: CrawlView)
    ensures
        ({
            let (after, visit) = crawl.next();
            &&& after == CrawlView { queue: after.queue, seen: after.seen, ..crawl }
            &&& forall|i: int|
                0 <= i < after.queue.len() ==> crawl.queue.contains(#[trigger] after.queue[i])
            &&& match visit {
                Some(page) => {
                    &&& crawl.queue.contains(page)
                    &&& !crawl.seen.contains(page.url.text)
                    &&& after.seen == crawl.seen.insert(page.url.text)
                },
                None => after.seen == crawl.seen,
            }
        }),
    decreases crawl.queue.len(),
{
    if crawl.queue.len() > 0 {
        let visit = crawl.queue.first();
        let rest = CrawlView { queue: crawl.queue.drop_first(), ..crawl };
        assert(crawl.queue.contains(visit));
        assert forall|i: int| 0 <= i < rest.queue.len() implies crawl.queue.contains(
            #[trigger] rest.queue[i],
        ) by {
            assert(rest.queue[i] == crawl.queue[i + 1]);
        }
        if crawl.seen.contains(visit.url.text) {
            lemma_next(rest);
            let (after, found) = rest.next();
            assert forall|i: int| 0 <= i < after.queue.len() implies crawl.queue.contains(
                #[trigger] after.queue[i],
            ) by {
                let j = choose|j: int|
                    0 <= j < rest.queue.len() && rest.queue[j] == after.queue[i];
                assert(crawl.queue.contains(rest.queue[j]));
            }
            if let Some(page) = found {
                let j = choose|j: int| 0 <= j < rest.queue.len() && rest.queue[j] == page;
                assert(crawl.queue.contains(rest.queue[j]));
            }
        }
    }
}

/// Whether a page that is fetched, or waits to be, lies on the origin of the
/// base and is not too deep.
pub open spec fn visit_confined(crawl: CrawlView, visit: VisitView) -> bool {
    urls::on_same_origin(crawl.base, visit.url) && visit.depth <= crawl.max_depth
}

/// Whether all that a crawl still means to request was planned at its start or
/// lies on the origin of its base.
pub open spec fn confined(crawl: CrawlView, planned: Seq<UrlView>) -> bool {
    &&& forall|i: int|
        0 <= i < crawl.queue.len() ==> visit_confined(crawl, #[trigger] crawl.queue[i])
    &&& forall|i: int|
        0 <= i < crawl.planned.len() ==> (planned.contains(#[trigger] crawl.planned[i])
            || urls::on_same_origin(crawl.base, crawl.planned[i]))
}

proof fn lemma_follow_confined(
    crawl: CrawlView,
    planned: Seq<UrlView>,
    depth: usize,
    link: UrlView,
    directory: Option<UrlView>,
)
    requires
        confined(crawl, planned),
    ensures
        ({
            let after = crawl.follow(depth, link, directory).0;
            &&& confined(after, planned)
            &&& after.base == crawl.base
            &&& after.max_depth == crawl.max_depth
            &&& after.seen == crawl.seen
        }),
{
    let after = crawl.follow(depth, link, directory).0;
    assert forall|i: int| 0 <= i < after.queue.len() implies visit_confined(
        after,
        #[trigger] after.queue[i],
    ) by {
        if i < crawl.queue.len() {
            assert(after.queue[i] == crawl.queue[i]);
        }
    }
    assert forall|i: int| 0 <= i < after.planned.len() implies (planned.contains(
        #[trigger] after.planned[i],
    ) || urls::on_same_origin(after.base, after.planned[i])) by {
        if i < crawl.planned.len() {
            assert(after.planned[i] == crawl.planned[i]);
        }
    }
}

pub(crate) proof fn lemma_follow_all_confined(
    crawl: CrawlView,
    planned: Seq<UrlView>,
    depth: usize,
    links: Seq<UrlView>,
)
    requires
        confined(crawl, planned),
    ensures
        ({
            let after = crawl.follow_all(depth, links).0;
            &&& confined(after, planned)
            &&& after.base == crawl.base
            &&& after.max_depth == crawl.max_depth
            &&& after.seen == crawl.seen
        }),
    decreases links.len(),
{
    if links.len() > 0 {
        lemma_follow_all_confined(crawl, planned, depth, links.drop_last());
        lemma_follow_confined(
            crawl.follow_all(depth, links.drop_last()).0,
            planned,
            depth,
            links.last(),
            crawl::directory_of(links.last()),
        );
    }
}

proof fn lemma_unseen_once_from(found: Seq<UrlView>, seen: Set<Seq<char>>, i: int)
    requires
        0 <= i < crawl::unseen_once(found, seen).len(),
    ensures
        found.contains(crawl::unseen_once(found, seen)[i]),
    decreases found.len(),
{
    let before = crawl::unseen_once(found.drop_last(), seen);
    if i < before.len() {
        lemma_unseen_once_from(found.drop_last(), seen, i);
        let j = choose|j: int|
            0 <= j < found.drop_last().len() && found.drop_last()[j] == before[i];
        assert(found[j] == before[i]);
    } else {
        assert(found.last() == found[found.len() - 1]);
    }
}

/// Whether an action requests nothing but what was planned at the start or lies
/// on the origin of the base.
pub open spec fn action_confined(base: UrlView, planned: Seq<UrlView>, action: ActionView) -> bool {
    match action {
        ActionView::Fetch { url } => urls::on_same_origin(base, url),
        ActionView::ReadBody | ActionView::Await | ActionView::Done => true,
        ActionView::Check { candidates } => forall|i: int|
            0 <= i < candidates.len() ==> (planned.contains(#[trigger] candidates[i])
                || urls::on_same_origin(base, candidates[i])),
    }
}

/// Whether a scan keeps to the origin of its base and to its depth.
pub open spec fn scan_confined(scan: ScanView, planned: Seq<UrlView>) -> bool {
    &&& confined(scan.crawl, planned)
    &&& match scan.stage {
        StageView::Fetching { visit } => visit_confined(scan.crawl, visit),
        StageView::Reading { visit } => visit_confined(scan.crawl, visit),
        _ => true,
    }
}

pub(crate) proof fn lemma_moved_on_confined(
    scan: ScanView,
    planned: Seq<UrlView>,
    reports: Seq<FileUpdateView>,
    elapsed_ms: u128,
)
    requires
        confined(scan.crawl, planned),
    ensures
        ({
            let (after, _, action) = scan.moved_on(reports, elapsed_ms);
            &&& scan_confined(after, planned)
            &&& after.crawl.base == scan.crawl.base
            &&& after.crawl.max_depth == scan.crawl.max_depth
            &&& action_confined(scan.crawl.base, planned, action)
        }),
{
    lemma_next(scan.crawl);
    let (after, visit) = scan.crawl.next();
    assert forall|i: int| 0 <= i < after.queue.len() implies visit_confined(
        after,
        #[trigger] after.queue[i],
    ) by {
        let j = choose|j: int|
            0 <= j < scan.crawl.queue.len() && scan.crawl.queue[j] == after.queue[i];
        assert(visit_confined(scan.crawl, scan.crawl.queue[j]));
    }
    if let Some(page) = visit {
        let j = choose|j: int| 0 <= j < scan.crawl.queue.len() && scan.crawl.queue[j] == page;
        assert(visit_confined(scan.crawl, scan.crawl.queue[j]));
    } else {
        let candidates = after.handed_out().1;
        assert forall|i: int| 0 <= i < candidates.len() implies (planned.contains(
            #[trigger] candidates[i],
        ) || urls::on_same_origin(scan.crawl.base, candidates[i])) by {
            lemma_unseen_once_from(after.planned, after.seen, i);
            let j = choose|j: int|
                0 <= j < after.planned.len() && after.planned[j] == candidates[i];
            assert(scan.crawl.planned[j] == candidates[i]);
        }
    }
}

proof fn lemma_page_done_confined(
    scan: ScanView,
    planned: Seq<UrlView>,
    reports: Seq<FileUpdateView>,
    elapsed_ms: u128,
)
    requires
        confined(scan.crawl, planned),
    ensures
        ({
            let (after, _, action) = scan.page_done(reports, elapsed_ms);
            &&& scan_confined(after, planned)
            &&& after.crawl.base == scan.crawl.base
            &&& after.crawl.max_depth == scan.crawl.max_depth
            &&& action_confined(scan.crawl.base, planned, action)
        }),
{
    let progress = FileUpdateView::Progress {
        progress: results::progress_of(scan.crawl.counters, scan.crawl.total_hint, elapsed_ms),
    };
    lemma_moved_on_confined(scan, planned, reports.push(progress), elapsed_ms);
}

proof fn lemma_step_confined(
    scan: ScanView,
    planned: Seq<UrlView>,
    event: EventView,
    elapsed_ms: u128,
)
    requires
        scan_confined(scan, planned),
    ensures
        scan_confined(scan.step(event, elapsed_ms).0, planned),
        scan.step(event, elapsed_ms).0.crawl.base == scan.crawl.base,
        scan.step(event, elapsed_ms).0.crawl.max_depth == scan.crawl.max_depth,
        action_confined(scan.crawl.base, planned, scan.step(event, elapsed_ms).2),
{
    match (scan.stage, event) {
        (StageView::Idle, EventView::Begin) => {
            lemma_moved_on_confined(scan, planned, scan.first_reports(), elapsed_ms);
        },
        (StageView::Fetching { visit }, EventView::Answered { head }) => {
            let (crawl, reports) = scan.crawl.fetched(visit.url, head);
            assert(confined(crawl, planned));
            lemma_page_done_confined(ScanView { crawl, ..scan }, planned, reports, elapsed_ms);
        },
        (StageView::Fetching { visit }, EventView::Unanswered { detail }) => {
            let (crawl, reports) = scan.crawl.failed(visit.url, detail);
            assert(confined(crawl, planned));
            lemma_page_done_confined(ScanView { crawl, ..scan }, planned, reports, elapsed_ms);
        },
        (StageView::Reading { visit }, EventView::Body { content }) => {
            let links = crawl::page_links(
                scan.crawl.base,
                visit.url,
                content,
                scan.directories,
            );
            lemma_follow_all_confined(scan.crawl, planned, visit.depth, links);
            let (crawl, reports) = scan.crawl.follow_all(visit.depth, links);
            lemma_page_done_confined(ScanView { crawl, ..scan }, planned, reports, elapsed_ms);
        },
        (StageView::Reading { visit }, EventView::NoBody) => {
            lemma_page_done_confined(scan, planned, Seq::empty(), elapsed_ms);
        },
        (StageView::Checking { workers }, EventView::Counted { found }) => {
            assert(confined(scan.counted(workers, found).crawl, planned));
        },
        (_, _) => {},
    }
}

/// A crawl stays on the origin of its base: whatever happens outside, a page
/// that is requested agrees with the base in scheme, host and port, and so
/// does a file that is checked, unless it was planned before the crawl. No page
/// lies deeper than was asked for.
pub proof fn law_crawl_stays_on_origin(
    base: UrlView,
    extensions: Seq<Seq<char>>,
    everything: bool,
    crawl: bool,
    max_depth: usize,
    planned: Seq<UrlView>,
    directories: Seq<Seq<char>>,
    events: Seq<(EventView, u128)>,
    event: EventView,
    elapsed_ms: u128,
)
    ensures
        ({
            let start = fresh(
                base,
                extensions,
                everything,
                crawl,
                max_depth,
                planned,
                directories,
            );
            let (after, _, action) = run(start, events).step(event, elapsed_ms);
            &&& action_confined(base, planned, action)
            &&& scan_confined(after, planned)
            &&& after.crawl.base == base
            &&& after.crawl.max_depth == max_depth
        }),
    decreases events.len(),
{
    let start = fresh(base, extensions, everything, crawl, max_depth, planned, directories);
    if events.len() == 0 {
        assert forall|i: int| 0 <= i < start.crawl.planned.len() implies planned.contains(
            #[trigger] start.crawl.planned[i],
        ) by {
            assert(planned[i] == start.crawl.planned[i]);
        }
        assert(scan_confined(start, planned));
    } else {
        law_crawl_stays_on_origin(
            base,
            extensions,
            everything,
            crawl,
            max_depth,
            planned,
            directories,
            events.drop_last(),
            events.last().0,
            events.last().1,
        );
    }
    lemma_step_confined(run(start, events), planned, event, elapsed_ms);
}

/// The texts of the URLs that an action requests.
pub open spec fn action_texts(action: ActionView) -> Seq<Seq<char>> {
    match action {
        ActionView::Fetch { url } => seq![url.text],
        ActionView::ReadBody | ActionView::Await | ActionView::Done => Seq::empty(),
        ActionView::Check { candidates } => crawl::texts_of(candidates),
    }
}

/// The texts of the URLs that a scan requests while some events happen.
pub open spec fn requested(scan: ScanView, events: Seq<(EventView, u128)>) -> Seq<Seq<char>>
    decreases events.len(),
{
    if events.len() == 0 {
        Seq::empty()
    } else {
        requested(scan, events.drop_last()) + action_texts(
            run(scan, events.drop_last()).step(events.last().0, events.last().1).2,
        )
    }
}

/// What is handed out of some URLs: no text twice, none that was seen, and
/// every other text of them.
pub(crate) proof fn lemma_unseen_once(found: Seq<UrlView>, seen: Set<Seq<char>>)
    ensures
        ({
            let texts = crawl::texts_of(crawl::unseen_once(found, seen));
            &&& texts.no_duplicates()
            &&& forall|one: Seq<char>|
                #[trigger] texts.contains(one) <==> (crawl::texts_of(found).contains(one)
                    && !seen.contains(one))
        }),
    decreases found.len(),
{
    let kept = crawl::unseen_once(found, seen);
    let texts = crawl::texts_of(kept);
    if found.len() == 0 {
        assert(texts =~= Seq::empty());
    } else {
        let rest = found.drop_last();
        let last = found.last().text;
        lemma_unseen_once(rest, seen);
        let before = crawl::texts_of(crawl::unseen_once(rest, seen));
        assert(crawl::texts_of(found) =~= crawl::texts_of(rest).push(last));
        assert forall|one: Seq<char>|
            crawl::texts_of(found).contains(one) <==> (crawl::texts_of(rest).contains(one) || one
                == last) by {
            text::lemma_push_contains(crawl::texts_of(rest), last, one);
        }
        if !seen.contains(last) && !crawl::texts_of(rest).contains(last) {
            assert(texts =~= before.push(last));
            assert forall|one: Seq<char>|
                texts.contains(one) <==> (before.contains(one) || one == last) by {
                text::lemma_push_contains(before, last, one);
            }
            assert(!before.contains(last));
            assert forall|i: int, j: int|
                0 <= i < texts.len() && 0 <= j < texts.len() && i != j implies texts[i]
                != texts[j] by {
                if i < before.len() && j < before.len() {
                    assert(before[i] != before[j]);
                } else if i < before.len() {
                    assert(before.contains(before[i]));
                } else {
                    assert(before.contains(before[j]));
                }
            }
        } else {
            assert(texts == before);
        }
    }
}

/// Every file that was planned is handed out to be checked, unless its URL was
/// requested before; none is handed out twice, and none that was requested.
pub proof fn law_candidates_are_the_unseen(crawl: CrawlView)
    ensures
        ({
            let candidates = crawl::texts_of(crawl.handed_out().1);
            &&& candidates.no_duplicates()
            &&& forall|one: Seq<char>|
                #[trigger] candidates.contains(one) <==> (crawl::texts_of(crawl.planned).contains(
                    one,
                ) && !crawl.seen.contains(one))
        }),
{
    lemma_unseen_once(crawl.planned, crawl.seen);
}

/// Whether a set grows by exactly these texts or more, all of them new to it and
/// none of them listed twice.
pub open spec fn adds(before: Set<Seq<char>>, texts: Seq<Seq<char>>, after: Set<Seq<char>>) -> bool {
    &&& texts.no_duplicates()
    &&& before.subset_of(after)
    &&& forall|i: int|
        0 <= i < texts.len() ==> !before.contains(#[trigger] texts[i]) && after.contains(texts[i])
}

proof fn lemma_adds(
    start: Set<Seq<char>>,
    first: Seq<Seq<char>>,
    middle: Set<Seq<char>>,
    second: Seq<Seq<char>>,
    end: Set<Seq<char>>,
)
    requires
        adds(start, first, middle),
        adds(middle, second, end),
    ensures
        adds(start, first + second, end),
{
    let all = first + second;
    assert forall|i: int| 0 <= i < all.len() implies !start.contains(#[trigger] all[i])
        && end.contains(all[i]) by {
        if i < first.len() {
            assert(all[i] == first[i]);
        } else {
            assert(all[i] == second[i - first.len()]);
        }
    }
    assert forall|i: int, j: int|
        0 <= i < all.len() && 0 <= j < all.len() && i != j implies all[i] != all[j] by {
        if i < first.len() && j < first.len() {
            assert(first[i] != first[j]);
        } else if i < first.len() {
            assert(!middle.contains(second[j - first.len()]));
            assert(middle.contains(first[i]));
        } else if j < first.len() {
            assert(!middle.contains(second[i - first.len()]));
            assert(middle.contains(first[j]));
        } else {
            assert(second[i - first.len()] != second[j - first.len()]);
        }
    }
}

proof fn lemma_moved_on_requests(
    scan: ScanView,
    reports: Seq<FileUpdateView>,
    elapsed_ms: u128,
)
    ensures
        ({
            let (after, _, action) = scan.moved_on(reports, elapsed_ms);
            &&& adds(scan.crawl.seen, action_texts(action), after.crawl.seen)
            &&& after.crawl.inferred == scan.crawl.inferred
        }),
{
    lemma_next(scan.crawl);
    let (after, visit) = scan.crawl.next();
    if visit is None {
        lemma_unseen_once(after.planned, after.seen);
        let texts = crawl::texts_of(after.handed_out().1);
        assert forall|i: int| 0 <= i < texts.len() implies !scan.crawl.seen.contains(
            #[trigger] texts[i],
        ) && after.handed_out().0.seen.contains(texts[i]) by {
            assert(texts.contains(texts[i]));
        }
    }
}

pub(crate) proof fn lemma_follow_all_seen(crawl: CrawlView, depth: usize, links: Seq<UrlView>)
    ensures
        crawl.follow_all(depth, links).0.seen == crawl.seen,
    decreases links.len(),
{
    if links.len() > 0 {
        lemma_follow_all_seen(crawl, depth, links.drop_last());
    }
}

proof fn lemma_page_done_requests(
    scan: ScanView,
    reports: Seq<FileUpdateView>,
    elapsed_ms: u128,
)
    ensures
        ({
            let (after, _, action) = scan.page_done(reports, elapsed_ms);
            &&& adds(scan.crawl.seen, action_texts(action), after.crawl.seen)
            &&& after.crawl.inferred == scan.crawl.inferred
        }),
{
    let progress = FileUpdateView::Progress {
        progress: results::progress_of(scan.crawl.counters, scan.crawl.total_hint, elapsed_ms),
    };
    lemma_moved_on_requests(scan, reports.push(progress), elapsed_ms);
}

proof fn lemma_step_requests(scan: ScanView, event: EventView, elapsed_ms: u128)
    ensures
        adds(
            scan.crawl.seen,
            action_texts(scan.step(event, elapsed_ms).2),
            scan.step(event, elapsed_ms).0.crawl.seen,
        ),
{
    match (scan.stage, event) {
        (StageView::Idle, EventView::Begin) => {
            lemma_moved_on_requests(scan, scan.first_reports(), elapsed_ms);
        },
        (StageView::Fetching { visit }, EventView::Answered { head }) => {
            let (crawl, reports) = scan.crawl.fetched(visit.url, head);
            lemma_page_done_requests(ScanView { crawl, ..scan }, reports, elapsed_ms);
        },
        (StageView::Fetching { visit }, EventView::Unanswered { detail }) => {
            let (crawl, reports) = scan.crawl.failed(visit.url, detail);
            lemma_page_done_requests(ScanView { crawl, ..scan }, reports, elapsed_ms);
        },
        (StageView::Reading { visit }, EventView::Body { content }) => {
            let links = crawl::page_links(
                scan.crawl.base,
                visit.url,
                content,
                scan.directories,
            );
            lemma_follow_all_seen(scan.crawl, visit.depth, links);
            let (crawl, reports) = scan.crawl.follow_all(visit.depth, links);
            lemma_page_done_requests(ScanView { crawl, ..scan }, reports, elapsed_ms);
        },
        (StageView::Reading { visit }, EventView::NoBody) => {
            lemma_page_done_requests(scan, Seq::empty(), elapsed_ms);
        },
        (_, _) => {},
    }
}

/// A scan requests no URL twice, neither as a page nor as a file to check, and
/// none that it had seen before.
pub proof fn law_nothing_is_requested_twice(scan: ScanView, events: Seq<(EventView, u128)>)
    ensures
        adds(scan.crawl.seen, requested(scan, events), run(scan, events).crawl.seen),
    decreases events.len(),
{
    if events.len() > 0 {
        let earlier = events.drop_last();
        law_nothing_is_requested_twice(scan, earlier);
        let middle = run(scan, earlier);
        let (event, elapsed_ms) = events.last();
        lemma_step_requests(middle, event, elapsed_ms);
        lemma_adds(
            scan.crawl.seen,
            requested(scan, earlier),
            middle.crawl.seen,
            action_texts(middle.step(event, elapsed_ms).2),
            run(scan, events).crawl.seen,
        );
    }
}

/// The URLs of the results among some reports.
pub open spec fn result_texts(reports: Seq<FileUpdateView>) -> Seq<Seq<char>>
    decreases reports.len(),
{
    if reports.len() == 0 {
        Seq::empty()
    } else {
        let before = result_texts(reports.drop_last());
        match reports.last() {
            FileUpdateView::Result { result } => before.push(result.url),
            _ => before,
        }
    }
}

proof fn lemma_result_texts_add(a: Seq<FileUpdateView>, b: Seq<FileUpdateView>)
    ensures
        result_texts(a + b) == result_texts(a) + result_texts(b),
    decreases b.len(),
{
    if b.len() == 0 {
        assert(a + b =~= a);
        assert(result_texts(a) + result_texts(b) =~= result_texts(a));
    } else {
        lemma_result_texts_add(a, b.drop_last());
        assert((a + b).drop_last() =~= a + b.drop_last());
        assert((a + b).last() == b.last());
        assert(result_texts(a + b) =~= result_texts(a) + result_texts(b));
    }
}

proof fn lemma_infer_adds(crawl: CrawlView, text: Seq<char>, result: results::FileResultView)
    requires
        result.url == text,
    ensures
        ({
            let (after, reports) = crawl.infer(text, result);
            adds(crawl.inferred, result_texts(reports), after.inferred)
        }),
{
    reveal_with_fuel(result_texts, 2);
}

proof fn lemma_follow_adds(
    crawl: CrawlView,
    depth: usize,
    link: UrlView,
    directory: Option<UrlView>,
)
    ensures
        ({
            let (after, reports) = crawl.follow(depth, link, directory);
            adds(crawl.inferred, result_texts(reports), after.inferred)
        }),
{
    let (middle, api) = crawl.infer_api(link);
    let (later, parent) = middle.infer_directory(link, directory);
    lemma_infer_adds(crawl, link.text, results::inferred_api(link));
    if let Some(found) = directory {
        lemma_infer_adds(middle, found.text, results::inferred_directory(found));
    }
    lemma_result_texts_add(api, parent);
    lemma_adds(
        crawl.inferred,
        result_texts(api),
        middle.inferred,
        result_texts(parent),
        later.inferred,
    );
}

proof fn lemma_follow_all_adds(crawl: CrawlView, depth: usize, links: Seq<UrlView>)
    ensures
        ({
            let (after, reports) = crawl.follow_all(depth, links);
            adds(crawl.inferred, result_texts(reports), after.inferred)
        }),
    decreases links.len(),
{
    if links.len() > 0 {
        let (before, reports) = crawl.follow_all(depth, links.drop_last());
        lemma_follow_all_adds(crawl, depth, links.drop_last());
        let directory = crawl::directory_of(links.last());
        let (after, more) = before.follow(depth, links.last(), directory);
        lemma_follow_adds(before, depth, links.last(), directory);
        lemma_result_texts_add(reports, more);
        lemma_adds(
            crawl.inferred,
            result_texts(reports),
            before.inferred,
            result_texts(more),
            after.inferred,
        );
    }
}

/// The URLs that an event has reported without their being requested: those of
/// the results that the body of a page brings.
pub open spec fn inferred_in(scan: ScanView, event: EventView, elapsed_ms: u128) -> Seq<Seq<char>> {
    match (scan.stage, event) {
        (StageView::Reading { .. }, EventView::Body { .. }) => result_texts(
            scan.step(event, elapsed_ms).1,
        ),
        (_, _) => Seq::empty(),
    }
}

/// The URLs that are reported without being requested while some events happen.
pub open spec fn inferred(scan: ScanView, events: Seq<(EventView, u128)>) -> Seq<Seq<char>>
    decreases events.len(),
{
    if events.len() == 0 {
        Seq::empty()
    } else {
        inferred(scan, events.drop_last()) + inferred_in(
            run(scan, events.drop_last()),
            events.last().0,
            events.last().1,
        )
    }
}

/// The end of a page brings no results of its own.
proof fn lemma_page_done_results(
    scan: ScanView,
    reports: Seq<FileUpdateView>,
    elapsed_ms: u128,
)
    ensures
        result_texts(scan.page_done(reports, elapsed_ms).1) == result_texts(reports),
{
    reveal_with_fuel(result_texts, 3);
    let progress = FileUpdateView::Progress {
        progress: results::progress_of(scan.crawl.counters, scan.crawl.total_hint, elapsed_ms),
    };
    let shown = reports.push(progress);
    assert(shown.drop_last() =~= reports);
    assert(shown.push(scan.last_report(elapsed_ms)).drop_last() =~= shown);
}

proof fn lemma_step_infers(scan: ScanView, event: EventView, elapsed_ms: u128)
    ensures
        adds(
            scan.crawl.inferred,
            inferred_in(scan, event, elapsed_ms),
            scan.step(event, elapsed_ms).0.crawl.inferred,
        ),
{
    match (scan.stage, event) {
        (StageView::Idle, EventView::Begin) => {
            lemma_moved_on_requests(scan, scan.first_reports(), elapsed_ms);
        },
        (StageView::Fetching { visit }, EventView::Answered { head }) => {
            let (crawl, reports) = scan.crawl.fetched(visit.url, head);
            lemma_page_done_requests(ScanView { crawl, ..scan }, reports, elapsed_ms);
        },
        (StageView::Fetching { visit }, EventView::Unanswered { detail }) => {
            let (crawl, reports) = scan.crawl.failed(visit.url, detail);
            lemma_page_done_requests(ScanView { crawl, ..scan }, reports, elapsed_ms);
        },
        (StageView::Reading { visit }, EventView::Body { content }) => {
            let links = crawl::page_links(
                scan.crawl.base,
                visit.url,
                content,
                scan.directories,
            );
            let (crawl, reports) = scan.crawl.follow_all(visit.depth, links);
            lemma_follow_all_adds(scan.crawl, visit.depth, links);
            lemma_page_done_requests(ScanView { crawl, ..scan }, reports, elapsed_ms);
            lemma_page_done_results(ScanView { crawl, ..scan }, reports, elapsed_ms);
        },
        (StageView::Reading { visit }, EventView::NoBody) => {
            lemma_page_done_requests(scan, Seq::empty(), elapsed_ms);
        },
        (_, _) => {},
    }
}

/// A directory or an API endpoint that a scan infers from links is reported
/// once, however many links lead to it and however many pages hold them.
pub proof fn law_nothing_is_inferred_twice(scan: ScanView, events: Seq<(EventView, u128)>)
    ensures
        adds(scan.crawl.inferred, inferred(scan, events), run(scan, events).crawl.inferred),
    decreases events.len(),
{
    if events.len() > 0 {
        let earlier = events.drop_last();
        law_nothing_is_inferred_twice(scan, earlier);
        let middle = run(scan, earlier);
        let (event, elapsed_ms) = events.last();
        lemma_step_infers(middle, event, elapsed_ms);
        lemma_adds(
            scan.crawl.inferred,
            inferred(scan, earlier),
            middle.crawl.inferred,
            inferred_in(middle, event, elapsed_ms),
            run(scan, events).crawl.inferred,
        );
    }
}

} // verus!
