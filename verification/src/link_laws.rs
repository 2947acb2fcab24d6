//! Why no link of a page is lost.
use vstd::prelude::*;

use crate::content;
use crate::crawl;
use crate::crawl::{CrawlView, VisitView};
use crate::results;
use crate::results::FileUpdateView;
use crate::scan::{EventView, ScanView, StageView};
use crate::scan_laws;
use crate::text;
use crate::urls;
use crate::urls::UrlView;

verus! {

/// Whether a page with this text waits to be fetched.
pub open spec fn waits(queue: Seq<VisitView>, wanted: Seq<char>) -> bool {
    exists|i: int| 0 <= i < queue.len() && (#[trigger] queue[i]).url.text == wanted
}

/// Whether a URL with this text was requested, or is still to be.
pub open spec fn taken(crawl: CrawlView, wanted: Seq<char>) -> bool {
    ||| crawl.seen.contains(wanted)
    ||| waits(crawl.queue, wanted)
    ||| crawl::texts_of(crawl.planned).contains(wanted)
}

/// Whether a link of a page at some depth is one that the scan is to request: on
/// the origin of its base, and either a page that is not too deep or a file that
/// is worth reporting.
pub open spec fn to_request(crawl: CrawlView, depth: usize, link: UrlView) -> bool {
    &&& urls::on_same_origin(crawl.base, link)
    &&& (urls::crawled_path(link.path) && depth < crawl.max_depth) || content::worth_reporting(
        link.path,
        crawl.extensions,
        crawl.everything,
        Seq::empty(),
    )
}

proof fn lemma_next_keeps(crawl: CrawlView, wanted: Seq<char>)
    requires
        taken(crawl, wanted),
    ensures
        taken(crawl.next().0, wanted),
        crawl.next().1 is None ==> crawl.next().0.queue.len() == 0,
    decreases crawl.queue.len(),
{
    if crawl.queue.len() > 0 {
        let visit = crawl.queue.first();
        let rest = CrawlView { queue: crawl.queue.drop_first(), ..crawl };
        if waits(crawl.queue, wanted) && visit.url.text != wanted {
            let i = choose|i: int|
                0 <= i < crawl.queue.len() && (#[trigger] crawl.queue[i]).url.text == wanted;
            assert(rest.queue[i - 1].url.text == wanted);
        }
        if crawl.seen.contains(visit.url.text) {
            lemma_next_keeps(rest, wanted);
        }
    }
}

proof fn lemma_drained(crawl: CrawlView)
    ensures
        crawl.next().1 is None ==> crawl.next().0.queue.len() == 0,
    decreases crawl.queue.len(),
{
    if crawl.queue.len() > 0 {
        lemma_drained(CrawlView { queue: crawl.queue.drop_first(), ..crawl });
    }
}

proof fn lemma_follow_keeps(
    crawl: CrawlView,
    depth: usize,
    link: UrlView,
    directory: Option<UrlView>,
    wanted: Seq<char>,
)
    requires
        taken(crawl, wanted) || (link.text == wanted && to_request(crawl, depth, link)),
    ensures
        taken(crawl.follow(depth, link, directory).0, wanted),
{
    let after = crawl.follow(depth, link, directory).0;
    if after.queue != crawl.queue {
        assert(after.queue.last().url.text == link.text);
        if waits(crawl.queue, wanted) {
            let i = choose|i: int|
                0 <= i < crawl.queue.len() && (#[trigger] crawl.queue[i]).url.text == wanted;
            assert(after.queue[i].url.text == wanted);
        } else if link.text == wanted {
            assert(after.queue[after.queue.len() - 1].url.text == wanted);
        }
    }
    if after.planned != crawl.planned {
        assert(crawl::texts_of(after.planned) =~= crawl::texts_of(crawl.planned).push(link.text));
        text::lemma_push_contains(crawl::texts_of(crawl.planned), link.text, wanted);
    }
}

/// What links do not change.
proof fn lemma_follow_all_same(crawl: CrawlView, depth: usize, links: Seq<UrlView>)
    ensures
        ({
            let after = crawl.follow_all(depth, links).0;
            &&& after.base == crawl.base
            &&& after.max_depth == crawl.max_depth
            &&& after.extensions == crawl.extensions
            &&& after.everything == crawl.everything
        }),
    decreases links.len(),
{
    if links.len() > 0 {
        lemma_follow_all_same(crawl, depth, links.drop_last());
    }
}

proof fn lemma_follow_all_keeps(
    crawl: CrawlView,
    depth: usize,
    links: Seq<UrlView>,
    wanted: Seq<char>,
)
    requires
        taken(crawl, wanted),
    ensures
        taken(crawl.follow_all(depth, links).0, wanted),
    decreases links.len(),
{
    if links.len() > 0 {
        lemma_follow_all_keeps(crawl, depth, links.drop_last(), wanted);
        lemma_follow_keeps(
            crawl.follow_all(depth, links.drop_last()).0,
            depth,
            links.last(),
            crawl::directory_of(links.last()),
            wanted,
        );
    }
}

proof fn lemma_follow_all_takes(crawl: CrawlView, depth: usize, links: Seq<UrlView>, i: int)
    requires
        0 <= i < links.len(),
        to_request(crawl, depth, links[i]),
    ensures
        taken(crawl.follow_all(depth, links).0, links[i].text),
    decreases links.len(),
{
    let before = crawl.follow_all(depth, links.drop_last()).0;
    lemma_follow_all_same(crawl, depth, links.drop_last());
    if i < links.len() - 1 {
        lemma_follow_all_takes(crawl, depth, links.drop_last(), i);
    }
    lemma_follow_keeps(
        before,
        depth,
        links.last(),
        crawl::directory_of(links.last()),
        links[i].text,
    );
}

/// A scan that is past its crawl has nothing left to request.
spec fn settled(scan: ScanView) -> bool {
    scan_laws::past_crawl(scan.stage) ==> scan.crawl.queue.len() == 0 && scan.crawl.planned.len() == 0
}

proof fn lemma_moved_on_keeps(
    scan: ScanView,
    reports: Seq<FileUpdateView>,
    elapsed_ms: u128,
    wanted: Seq<char>,
)
    requires
        taken(scan.crawl, wanted),
    ensures
        taken(scan.moved_on(reports, elapsed_ms).0.crawl, wanted),
{
    lemma_next_keeps(scan.crawl, wanted);
    let after = scan.crawl.next().0;
    if crawl::texts_of(after.planned).contains(wanted) {
        assert(after.handed_out().0.seen.contains(wanted));
    }
}

proof fn lemma_page_done_keeps(
    scan: ScanView,
    reports: Seq<FileUpdateView>,
    elapsed_ms: u128,
    wanted: Seq<char>,
)
    requires
        taken(scan.crawl, wanted),
    ensures
        taken(scan.page_done(reports, elapsed_ms).0.crawl, wanted),
{
    let progress = FileUpdateView::Progress {
        progress: results::progress_of(scan.crawl.counters, scan.crawl.total_hint, elapsed_ms),
    };
    lemma_moved_on_keeps(scan, reports.push(progress), elapsed_ms, wanted);
}

/// What is taken stays taken, whatever happens.
proof fn lemma_step_keeps(scan: ScanView, event: EventView, elapsed_ms: u128, wanted: Seq<char>)
    requires
        taken(scan.crawl, wanted),
    ensures
        taken(scan.step(event, elapsed_ms).0.crawl, wanted),
{
    match (scan.stage, event) {
        (StageView::Idle, EventView::Begin) => {
            lemma_moved_on_keeps(scan, scan.first_reports(), elapsed_ms, wanted);
        },
        (StageView::Fetching { visit }, EventView::Answered { head }) => {
            let (crawl, reports) = scan.crawl.fetched(visit.url, head);
            assert(taken(crawl, wanted));
            lemma_page_done_keeps(ScanView { crawl, ..scan }, reports, elapsed_ms, wanted);
        },
        (StageView::Fetching { visit }, EventView::Unanswered { detail }) => {
            let (crawl, reports) = scan.crawl.failed(visit.url, detail);
            assert(taken(crawl, wanted));
            lemma_page_done_keeps(ScanView { crawl, ..scan }, reports, elapsed_ms, wanted);
        },
        (StageView::Reading { visit }, EventView::Body { content }) => {
            let links = crawl::page_links(
                scan.crawl.base,
                visit.url,
                content,
                scan.directories,
            );
            let (crawl, reports) = scan.crawl.follow_all(visit.depth, links);
            lemma_follow_all_keeps(scan.crawl, visit.depth, links, wanted);
            lemma_page_done_keeps(ScanView { crawl, ..scan }, reports, elapsed_ms, wanted);
        },
        (StageView::Reading { visit }, EventView::NoBody) => {
            lemma_page_done_keeps(scan, Seq::empty(), elapsed_ms, wanted);
        },
        (StageView::Checking { workers }, EventView::Counted { found }) => {
            assert(taken(scan.counted(workers, found).crawl, wanted));
        },
        (_, _) => {},
    }
}

/// All that a step adds to what was seen it requests.
proof fn lemma_step_sees(scan: ScanView, event: EventView, elapsed_ms: u128)
    requires
        settled(scan),
    ensures
        ({
            let (after, _, action) = scan.step(event, elapsed_ms);
            &&& settled(after)
            &&& forall|one: Seq<char>| #[trigger]
                after.crawl.seen.contains(one) ==> scan.crawl.seen.contains(one)
                    || scan_laws::action_texts(action).contains(one)
        }),
{
    let moved = match (scan.stage, event) {
        (StageView::Fetching { visit }, EventView::Answered { head }) => scan.crawl.fetched(
            visit.url,
            head,
        ).0,
        (StageView::Fetching { visit }, EventView::Unanswered { detail }) => scan.crawl.failed(
            visit.url,
            detail,
        ).0,
        (StageView::Reading { visit }, EventView::Body { content }) => scan.crawl.follow_all(
            visit.depth,
            crawl::page_links(
                scan.crawl.base,
                visit.url,
                content,
                scan.directories,
            ),
        ).0,
        (_, _) => scan.crawl,
    };
    if let (StageView::Reading { visit }, EventView::Body { content }) = (scan.stage, event) {
        scan_laws::lemma_follow_all_seen(
            scan.crawl,
            visit.depth,
            crawl::page_links(
                scan.crawl.base,
                visit.url,
                content,
                scan.directories,
            ),
        );
    }
    assert(moved.seen == scan.crawl.seen);
    scan_laws::lemma_next(moved);
    lemma_drained(moved);
    let (after, visit) = moved.next();
    scan_laws::lemma_unseen_once(after.planned, after.seen);
    let candidates = crawl::texts_of(after.handed_out().1);
    assert forall|one: Seq<char>| #[trigger] after.handed_out().0.seen.contains(one) implies (
    after.seen.contains(one) || candidates.contains(one)) by {
        if !after.seen.contains(one) {
            assert(crawl::texts_of(after.planned).contains(one));
        }
    }
    if after.handed_out().1.len() == 0 {
        assert(candidates.len() == 0);
    }
    if let Some(page) = visit {
        assert(seq![page.url.text].contains(page.url.text)) by {
            assert(seq![page.url.text][0] == page.url.text);
        }
    }
}

/// All that a scan has seen it has requested, where it had seen nothing before.
proof fn lemma_seen_is_requested(scan: ScanView, events: Seq<(EventView, u128)>)
    requires
        settled(scan),
        scan.crawl.seen == Set::<Seq<char>>::empty(),
    ensures
        settled(scan_laws::run(scan, events)),
        forall|one: Seq<char>| #[trigger]
            scan_laws::run(scan, events).crawl.seen.contains(one) ==> scan_laws::requested(
                scan,
                events,
            ).contains(one),
    decreases events.len(),
{
    if events.len() > 0 {
        let earlier = events.drop_last();
        lemma_seen_is_requested(scan, earlier);
        let middle = scan_laws::run(scan, earlier);
        let (event, elapsed_ms) = events.last();
        lemma_step_sees(middle, event, elapsed_ms);
        let before = scan_laws::requested(scan, earlier);
        let more = scan_laws::action_texts(middle.step(event, elapsed_ms).2);
        assert forall|one: Seq<char>| #[trigger]
            scan_laws::run(scan, events).crawl.seen.contains(one) implies scan_laws::requested(
            scan,
            events,
        ).contains(one) by {
            text::lemma_add_contains(before, more, one);
        }
    }
}

/// What is taken at some time stays taken.
proof fn lemma_run_keeps(scan: ScanView, events: Seq<(EventView, u128)>, from: int, wanted: Seq<char>)
    requires
        0 <= from <= events.len(),
        taken(scan_laws::run(scan, events.take(from)).crawl, wanted),
    ensures
        taken(scan_laws::run(scan, events).crawl, wanted),
    decreases events.len(),
{
    if from == events.len() {
        assert(events.take(from) =~= events);
    } else {
        let earlier = events.drop_last();
        assert(earlier.take(from) =~= events.take(from));
        lemma_run_keeps(scan, earlier, from, wanted);
        lemma_step_keeps(
            scan_laws::run(scan, earlier),
            events.last().0,
            events.last().1,
            wanted,
        );
    }
}

/// No link is lost: when a scan is past its crawl, it has requested every link
/// of every page that it has read, as far as the link stays on the origin and is
/// a page that is not too deep or a file that is worth reporting.
pub proof fn law_links_are_requested(
    base: UrlView,
    extensions: Seq<Seq<char>>,
    everything: bool,
    crawl: bool,
    max_depth: usize,
    planned: Seq<UrlView>,
    directories: Seq<Seq<char>>,
    events: Seq<(EventView, u128)>,
    place: int,
    link: int,
)
    requires
        ({
            let start = scan_laws::fresh(
                base,
                extensions,
                everything,
                crawl,
                max_depth,
                planned,
                directories,
            );
            let before = scan_laws::run(start, events.take(place));
            &&& 0 <= place < events.len()
            &&& scan_laws::past_crawl(scan_laws::run(start, events).stage)
            &&& match (before.stage, events[place].0) {
                (StageView::Reading { visit }, EventView::Body { content }) => {
                    let links = crawl::page_links(
                        before.crawl.base,
                        visit.url,
                        content,
                        before.directories,
                    );
                    0 <= link < links.len() && to_request(before.crawl, visit.depth, links[link])
                },
                (_, _) => false,
            }
        }),
    ensures
        ({
            let start = scan_laws::fresh(
                base,
                extensions,
                everything,
                crawl,
                max_depth,
                planned,
                directories,
            );
            let before = scan_laws::run(start, events.take(place));
            match (before.stage, events[place].0) {
                (StageView::Reading { visit }, EventView::Body { content }) => {
                    let links = crawl::page_links(
                        before.crawl.base,
                        visit.url,
                        content,
                        before.directories,
                    );
                    scan_laws::requested(start, events).contains(links[link].text)
                },
                (_, _) => true,
            }
        }),
{
    let start = scan_laws::fresh(
        base,
        extensions,
        everything,
        crawl,
        max_depth,
        planned,
        directories,
    );
    let before = scan_laws::run(start, events.take(place));
    let (event, elapsed_ms) = events[place];
    if let (StageView::Reading { visit }, EventView::Body { content }) = (before.stage, event) {
        let links = crawl::page_links(
            before.crawl.base,
            visit.url,
            content,
            before.directories,
        );
        let wanted = links[link].text;
        let (followed, reports) = before.crawl.follow_all(visit.depth, links);
        lemma_follow_all_takes(before.crawl, visit.depth, links, link);
        lemma_page_done_keeps(
            ScanView { crawl: followed, ..before },
            reports,
            elapsed_ms,
            wanted,
        );
        assert(events.take(place + 1).drop_last() =~= events.take(place));
        assert(events.take(place + 1).last() == events[place]);
        lemma_run_keeps(start, events, place + 1, wanted);
        lemma_seen_is_requested(start, events);
    }
}

/// No planned file is lost: when a scan is past its crawl, it has requested every
/// file that was planned at its start.
pub proof fn law_planned_files_are_requested(
    base: UrlView,
    extensions: Seq<Seq<char>>,
    everything: bool,
    crawl: bool,
    max_depth: usize,
    planned: Seq<UrlView>,
    directories: Seq<Seq<char>>,
    events: Seq<(EventView, u128)>,
    i: int,
)
    requires
        0 <= i < planned.len(),
        scan_laws::past_crawl(
            scan_laws::run(
                scan_laws::fresh(
                    base,
                    extensions,
                    everything,
                    crawl,
                    max_depth,
                    planned,
                    directories,
                ),
                events,
            ).stage,
        ),
    ensures
        scan_laws::requested(
            scan_laws::fresh(base, extensions, everything, crawl, max_depth, planned, directories),
            events,
        ).contains(planned[i].text),
{
    let start = scan_laws::fresh(
        base,
        extensions,
        everything,
        crawl,
        max_depth,
        planned,
        directories,
    );
    assert(crawl::texts_of(planned)[i] == planned[i].text);
    assert(taken(start.crawl, planned[i].text));
    assert(scan_laws::run(start, events.take(0)) == start);
    lemma_run_keeps(start, events, 0, planned[i].text);
    lemma_seen_is_requested(start, events);
}

} // verus!
