//! Why every scan ends.
use vstd::prelude::*;

use crate::crawl;
use crate::crawl::{CrawlView, VisitView};
use crate::results;
use crate::results::FileUpdateView;
use crate::scan;
use crate::scan::{EventView, ScanView, StageView};
use crate::scan_laws;
use crate::urls::UrlView;

verus! {

/// The first events of an endless course of events.
pub open spec fn first_events(future: spec_fn(nat) -> (EventView, u128), count: nat) -> Seq<
    (EventView, u128),
> {
    Seq::new(count, |i: int| future(i as nat))
}

/// Whether all waiting pages lie at some depth or one below it, those at that
/// depth first.
spec fn layered(queue: Seq<VisitView>, depth: usize) -> bool {
    &&& forall|i: int|
        0 <= i < queue.len() ==> depth <= (#[trigger] queue[i]).depth <= depth + 1
    &&& forall|i: int, j: int|
        0 <= i <= j < queue.len() ==> (#[trigger] queue[i]).depth <= (#[trigger] queue[j]).depth
}

/// How many waiting pages lie at a depth.
spec fn count_at(queue: Seq<VisitView>, depth: usize) -> nat
    decreases queue.len(),
{
    if queue.len() == 0 {
        0
    } else {
        count_at(queue.drop_first(), depth) + if queue.first().depth == depth {
            1nat
        } else {
            0nat
        }
    }
}

proof fn lemma_count_at_push(queue: Seq<VisitView>, visit: VisitView, depth: usize)
    requires
        visit.depth != depth,
    ensures
        count_at(queue.push(visit), depth) == count_at(queue, depth),
    decreases queue.len(),
{
    let more = queue.push(visit);
    if queue.len() == 0 {
        assert(more.drop_first() =~= Seq::empty());
        reveal_with_fuel(count_at, 2);
    } else {
        lemma_count_at_push(queue.drop_first(), visit, depth);
        assert(more.drop_first() =~= queue.drop_first().push(visit));
        assert(more.first() == queue.first());
    }
}

/// The next page of a layered queue lies at the depth of the layer, of which
/// fewer pages are left then, or begins the layer below it.
proof fn lemma_next_layered(crawl: CrawlView, depth: usize)
    requires
        layered(crawl.queue, depth),
    ensures
        match crawl.next() {
            (after, Some(page)) => {
                ||| page.depth == depth && layered(after.queue, depth) && count_at(
                    after.queue,
                    depth,
                ) < count_at(crawl.queue, depth)
                ||| page.depth == depth + 1 && layered(after.queue, page.depth)
            },
            (_, None) => true,
        },
    decreases crawl.queue.len(),
{
    if crawl.queue.len() > 0 {
        let rest = CrawlView { queue: crawl.queue.drop_first(), ..crawl };
        assert forall|i: int| 0 <= i < rest.queue.len() implies depth <= (
        #[trigger] rest.queue[i]).depth <= depth + 1 && crawl.queue.first().depth
            <= rest.queue[i].depth by {
            assert(rest.queue[i] == crawl.queue[i + 1]);
        }
        assert(layered(rest.queue, depth)) by {
            assert forall|i: int, j: int| 0 <= i <= j < rest.queue.len() implies (
            #[trigger] rest.queue[i]).depth <= (#[trigger] rest.queue[j]).depth by {
                assert(rest.queue[i] == crawl.queue[i + 1]);
                assert(rest.queue[j] == crawl.queue[j + 1]);
            }
        }
        if crawl.seen.contains(crawl.queue.first().url.text) {
            lemma_next_layered(rest, depth);
        }
    }
}

proof fn lemma_follow_all_layered(crawl: CrawlView, depth: usize, links: Seq<UrlView>)
    requires
        layered(crawl.queue, depth),
    ensures
        ({
            let after = crawl.follow_all(depth, links).0;
            &&& layered(after.queue, depth)
            &&& count_at(after.queue, depth) == count_at(crawl.queue, depth)
        }),
    decreases links.len(),
{
    if links.len() > 0 {
        lemma_follow_all_layered(crawl, depth, links.drop_last());
        let before = crawl.follow_all(depth, links.drop_last()).0;
        let after = crawl.follow_all(depth, links).0;
        if after.queue != before.queue {
            lemma_count_at_push(before.queue, after.queue.last(), depth);
        }
    }
}

/// Whether a scan is at work on a page at some depth, with the pages that wait
/// in layers from there on.
spec fn at_work(scan: ScanView, depth: usize) -> bool {
    &&& layered(scan.crawl.queue, depth)
    &&& scan_laws::scan_confined(scan, scan.crawl.planned)
    &&& match scan.stage {
        StageView::Fetching { visit } => visit.depth == depth,
        StageView::Reading { visit } => visit.depth == depth,
        _ => false,
    }
}

/// How much of a page is left to do.
spec fn page_rank(stage: StageView) -> nat {
    if stage is Fetching {
        1
    } else {
        0
    }
}

/// Where a scan stands after it moved on from a page at some depth: past the
/// crawl, at another page of that depth, of which fewer are left then, or at
/// one below.
spec fn nearer(scan: ScanView, depth: usize, after: ScanView) -> bool {
    ||| scan_laws::past_crawl(after.stage)
    ||| at_work(after, depth) && count_at(after.crawl.queue, depth) < count_at(
        scan.crawl.queue,
        depth,
    )
    ||| depth < scan.crawl.max_depth && at_work(after, (depth + 1) as usize)
}

proof fn lemma_moved_on_nearer(
    scan: ScanView,
    depth: usize,
    reports: Seq<FileUpdateView>,
    elapsed_ms: u128,
)
    requires
        scan_laws::confined(scan.crawl, scan.crawl.planned),
        layered(scan.crawl.queue, depth),
    ensures
        nearer(scan, depth, scan.moved_on(reports, elapsed_ms).0),
        scan.moved_on(reports, elapsed_ms).0.crawl.max_depth == scan.crawl.max_depth,
{
    scan_laws::lemma_next(scan.crawl);
    lemma_next_layered(scan.crawl, depth);
    scan_laws::lemma_moved_on_confined(scan, scan.crawl.planned, reports, elapsed_ms);
}

proof fn lemma_page_done_nearer(
    scan: ScanView,
    depth: usize,
    reports: Seq<FileUpdateView>,
    elapsed_ms: u128,
)
    requires
        scan_laws::confined(scan.crawl, scan.crawl.planned),
        layered(scan.crawl.queue, depth),
    ensures
        nearer(scan, depth, scan.page_done(reports, elapsed_ms).0),
        scan.page_done(reports, elapsed_ms).0.crawl.max_depth == scan.crawl.max_depth,
{
    let progress = FileUpdateView::Progress {
        progress: results::progress_of(scan.crawl.counters, scan.crawl.total_hint, elapsed_ms),
    };
    lemma_moved_on_nearer(scan, depth, reports.push(progress), elapsed_ms);
}

proof fn lemma_step_nearer(scan: ScanView, depth: usize, event: EventView, elapsed_ms: u128)
    requires
        at_work(scan, depth),
        scan::awaits(scan.stage, event),
    ensures
        ({
            let after = scan.step(event, elapsed_ms).0;
            ||| nearer(scan, depth, after)
            ||| at_work(after, depth) && count_at(after.crawl.queue, depth) == count_at(
                scan.crawl.queue,
                depth,
            ) && page_rank(after.stage) < page_rank(scan.stage)
        }),
        scan.step(event, elapsed_ms).0.crawl.max_depth == scan.crawl.max_depth,
{
    match (scan.stage, event) {
        (StageView::Fetching { visit }, EventView::Answered { head }) => {
            let (crawl, reports) = scan.crawl.fetched(visit.url, head);
            assert(scan_laws::confined(crawl, crawl.planned));
            lemma_page_done_nearer(ScanView { crawl, ..scan }, depth, reports, elapsed_ms);
        },
        (StageView::Fetching { visit }, EventView::Unanswered { detail }) => {
            let (crawl, reports) = scan.crawl.failed(visit.url, detail);
            assert(scan_laws::confined(crawl, crawl.planned));
            lemma_page_done_nearer(ScanView { crawl, ..scan }, depth, reports, elapsed_ms);
        },
        (StageView::Reading { visit }, EventView::Body { content }) => {
            let links = crawl::page_links(
                scan.crawl.base,
                visit.url,
                content,
                scan.directories,
            );
            let (crawl, reports) = scan.crawl.follow_all(visit.depth, links);
            lemma_follow_all_layered(scan.crawl, visit.depth, links);
            scan_laws::lemma_follow_all_confined(
                scan.crawl,
                scan.crawl.planned,
                visit.depth,
                links,
            );
            assert(scan_laws::confined(crawl, crawl.planned)) by {
                assert forall|i: int| 0 <= i < crawl.planned.len() implies crawl.planned.contains(
                    #[trigger] crawl.planned[i],
                ) by {}
            }
            lemma_page_done_nearer(ScanView { crawl, ..scan }, depth, reports, elapsed_ms);
        },
        (StageView::Reading { visit }, EventView::NoBody) => {
            lemma_page_done_nearer(scan, depth, Seq::empty(), elapsed_ms);
        },
        (_, _) => {},
    }
}

/// The state of a scan after the first of an endless course of events.
pub open spec fn after_events(
    scan: ScanView,
    future: spec_fn(nat) -> (EventView, u128),
    count: nat,
) -> ScanView {
    scan_laws::run(scan, first_events(future, count))
}

/// Whether a scan has come to its end after the first of an endless course of
/// events: it is over, or the next event is one that it does not wait for.
pub open spec fn stops_at(
    scan: ScanView,
    future: spec_fn(nat) -> (EventView, u128),
    count: nat,
) -> bool {
    let now = after_events(scan, future, count);
    now.stage is Over || !scan::awaits(now.stage, future(count).0)
}

proof fn lemma_after_one_more(
    scan: ScanView,
    future: spec_fn(nat) -> (EventView, u128),
    count: nat,
)
    ensures
        after_events(scan, future, count + 1) == after_events(scan, future, count).step(
            future(count).0,
            future(count).1,
        ).0,
{
    assert(first_events(future, count + 1).drop_last() =~= first_events(future, count));
}

/// How much is left to do for the workers of a scan: each counts and ends.
spec fn work_left(stage: StageView) -> nat {
    match stage {
        StageView::Checking { workers } => 2 * workers.at_work + workers.counted(),
        _ => 0,
    }
}

/// The workers of a scan come to their end.
proof fn lemma_workers_end(
    scan: ScanView,
    future: spec_fn(nat) -> (EventView, u128),
    count: nat,
)
    requires
        scan_laws::past_crawl(after_events(scan, future, count).stage),
    ensures
        exists|place: nat| stops_at(scan, future, place),
    decreases work_left(after_events(scan, future, count).stage),
{
    if stops_at(scan, future, count) {
    } else {
        lemma_after_one_more(scan, future, count);
        lemma_workers_end(scan, future, count + 1);
    }
}

/// The pages of a scan come to their end, and so do its workers.
proof fn lemma_work_ends(
    scan: ScanView,
    future: spec_fn(nat) -> (EventView, u128),
    count: nat,
    depth: usize,
)
    requires
        at_work(after_events(scan, future, count), depth),
        depth <= after_events(scan, future, count).crawl.max_depth,
    ensures
        exists|place: nat| stops_at(scan, future, place),
    decreases
            after_events(scan, future, count).crawl.max_depth - depth,
            count_at(after_events(scan, future, count).crawl.queue, depth),
            page_rank(after_events(scan, future, count).stage),
{
    let now = after_events(scan, future, count);
    if stops_at(scan, future, count) {
    } else {
        let (event, elapsed_ms) = future(count);
        lemma_step_nearer(now, depth, event, elapsed_ms);
        lemma_after_one_more(scan, future, count);
        let after = after_events(scan, future, count + 1);
        if scan_laws::past_crawl(after.stage) {
            lemma_workers_end(scan, future, count + 1);
        } else if at_work(after, depth) {
            lemma_work_ends(scan, future, count + 1, depth);
        } else {
            lemma_work_ends(scan, future, count + 1, (depth + 1) as usize);
        }
    }
}

/// Every scan ends: whatever comes from outside, however many links the pages
/// hold, after finitely many of the events that it waits for it is over.
pub proof fn law_scan_ends(
    base: UrlView,
    extensions: Seq<Seq<char>>,
    everything: bool,
    crawl: bool,
    max_depth: usize,
    planned: Seq<UrlView>,
    directories: Seq<Seq<char>>,
    future: spec_fn(nat) -> (EventView, u128),
)
    ensures
        exists|place: nat|
            stops_at(
                scan_laws::fresh(
                    base,
                    extensions,
                    everything,
                    crawl,
                    max_depth,
                    planned,
                    directories,
                ),
                future,
                place,
            ),
{
    let start = scan_laws::fresh(
        base,
        extensions,
        everything,
        crawl,
        max_depth,
        planned,
        directories,
    );
    assert(first_events(future, 0) =~= Seq::empty());
    assert(after_events(start, future, 0) == start);
    if stops_at(start, future, 0) {
    } else {
        assert(scan_laws::confined(start.crawl, start.crawl.planned)) by {
            assert forall|i: int| 0 <= i < planned.len() implies planned.contains(
                #[trigger] planned[i],
            ) by {}
        }
        lemma_moved_on_nearer(start, 0, start.first_reports(), future(0).1);
        lemma_after_one_more(start, future, 0);
        let after = after_events(start, future, 1);
        if scan_laws::past_crawl(after.stage) {
            lemma_workers_end(start, future, 1);
        } else if at_work(after, 0) {
            lemma_work_ends(start, future, 1, 0);
        } else {
            lemma_work_ends(start, future, 1, 1);
        }
    }
}

} // verus!
