//! What holds of the reports of a whole scan.
use vstd::prelude::*;

use crate::crawl;
use crate::crawl::CrawlView;
use crate::results;
use crate::results::{FileUpdateView, ScanCounters, WorkerOutcome};
use crate::scan::{EventView, ScanView, StageView};
use crate::scan_laws;
use crate::urls::UrlView;
use crate::workers::WorkersView;

verus! {

/// The reports of a scan while some events happen.
pub open spec fn reported(scan: ScanView, events: Seq<(EventView, u128)>) -> Seq<FileUpdateView>
    decreases events.len(),
{
    if events.len() == 0 {
        Seq::empty()
    } else {
        reported(scan, events.drop_last()) + scan_laws::run(scan, events.drop_last()).step(
            events.last().0,
            events.last().1,
        ).1
    }
}

/// The kinds of reports.
pub enum Kind {
    Started,
    Result,
    Progress,
    Finished,
    Error,
}

/// The kind of a report.
pub open spec fn kind_of(update: FileUpdateView) -> Kind {
    match update {
        FileUpdateView::Started { .. } => Kind::Started,
        FileUpdateView::Result { .. } => Kind::Result,
        FileUpdateView::Progress { .. } => Kind::Progress,
        FileUpdateView::Finished { .. } => Kind::Finished,
        FileUpdateView::Error { .. } => Kind::Error,
    }
}

/// How many of some reports are of a kind.
pub open spec fn count_of(reports: Seq<FileUpdateView>, kind: Kind) -> nat
    decreases reports.len(),
{
    if reports.len() == 0 {
        0
    } else {
        count_of(reports.drop_last(), kind) + if kind_of(reports.last()) == kind {
            1nat
        } else {
            0nat
        }
    }
}

proof fn lemma_count_add(a: Seq<FileUpdateView>, b: Seq<FileUpdateView>, kind: Kind)
    ensures
        count_of(a + b, kind) == count_of(a, kind) + count_of(b, kind),
    decreases b.len(),
{
    if b.len() == 0 {
        assert(a + b =~= a);
    } else {
        lemma_count_add(a, b.drop_last(), kind);
        assert((a + b).drop_last() =~= a + b.drop_last());
        assert((a + b).last() == b.last());
    }
}

proof fn lemma_count_push(reports: Seq<FileUpdateView>, last: FileUpdateView, kind: Kind)
    ensures
        count_of(reports.push(last), kind) == count_of(reports, kind) + if kind_of(last) == kind {
            1nat
        } else {
            0nat
        },
{
    assert(reports.push(last).drop_last() =~= reports);
}

/// The count after `more` times counting up from `n`.
pub open spec fn counted_by(n: usize, more: nat) -> usize
    decreases more,
{
    if more == 0 {
        n
    } else {
        results::counted_up(counted_by(n, (more - 1) as nat))
    }
}

proof fn lemma_counted_by_add(n: usize, a: nat, b: nat)
    ensures
        counted_by(counted_by(n, a), b) == counted_by(n, a + b),
    decreases b,
{
    if b > 0 {
        lemma_counted_by_add(n, a, (b - 1) as nat);
        assert((a + b - 1) as nat == a + ((b - 1) as nat));
    }
}

proof fn lemma_counted_by_sum(n: usize, more: nat)
    requires
        n + more <= usize::MAX,
    ensures
        counted_by(n, more) == n + more,
    decreases more,
{
    if more > 0 {
        lemma_counted_by_sum(n, (more - 1) as nat);
    }
}

/// Whether the counters went from `before` to `after` with `done` pages and
/// candidates done and `found` results.
spec fn counts(before: ScanCounters, after: ScanCounters, done: nat, found: nat) -> bool {
    &&& after.checked == counted_by(before.checked, done)
    &&& after.found == counted_by(before.found, found)
}

/// Whether some reports are results alone.
spec fn only_results(reports: Seq<FileUpdateView>) -> bool {
    forall|i: int| 0 <= i < reports.len() ==> #[trigger] reports[i] is Result
}

proof fn lemma_only_results(reports: Seq<FileUpdateView>, kind: Kind)
    requires
        only_results(reports),
    ensures
        count_of(reports, kind) == if kind is Result {
            reports.len()
        } else {
            0nat
        },
    decreases reports.len(),
{
    if reports.len() > 0 {
        lemma_only_results(reports.drop_last(), kind);
        assert(reports[reports.len() - 1] is Result);
    }
}

/// Links that are reported are counted as results, and nothing else.
spec fn counts_links(
    before: ScanCounters,
    after: ScanCounters,
    reports: Seq<FileUpdateView>,
) -> bool {
    &&& counts(before, after, 0, reports.len())
    &&& only_results(reports)
}

proof fn lemma_counts_links_add(
    start: ScanCounters,
    first: Seq<FileUpdateView>,
    middle: ScanCounters,
    second: Seq<FileUpdateView>,
    end: ScanCounters,
)
    requires
        counts_links(start, middle, first),
        counts_links(middle, end, second),
    ensures
        counts_links(start, end, first + second),
{
    lemma_counted_by_add(start.found, first.len(), second.len());
}

proof fn lemma_infer_counts(crawl: CrawlView, text: Seq<char>, result: results::FileResultView)
    ensures
        ({
            let (after, reports) = crawl.infer(text, result);
            counts_links(crawl.counters, after.counters, reports)
        }),
{
    reveal_with_fuel(counted_by, 2);
}

proof fn lemma_follow_counts(
    crawl: CrawlView,
    depth: usize,
    link: UrlView,
    directory: Option<UrlView>,
)
    ensures
        ({
            let (after, reports) = crawl.follow(depth, link, directory);
            counts_links(crawl.counters, after.counters, reports)
        }),
{
    let (middle, api) = crawl.infer_api(link);
    let (later, parent) = middle.infer_directory(link, directory);
    lemma_infer_counts(crawl, link.text, results::inferred_api(link));
    if let Some(found) = directory {
        lemma_infer_counts(middle, found.text, results::inferred_directory(found));
    }
    lemma_counts_links_add(crawl.counters, api, middle.counters, parent, later.counters);
}

proof fn lemma_follow_all_counts(crawl: CrawlView, depth: usize, links: Seq<UrlView>)
    ensures
        ({
            let (after, reports) = crawl.follow_all(depth, links);
            counts_links(crawl.counters, after.counters, reports)
        }),
    decreases links.len(),
{
    if links.len() > 0 {
        let (before, reports) = crawl.follow_all(depth, links.drop_last());
        lemma_follow_all_counts(crawl, depth, links.drop_last());
        let directory = crawl::directory_of(links.last());
        let (after, more) = before.follow(depth, links.last(), directory);
        lemma_follow_counts(before, depth, links.last(), directory);
        lemma_counts_links_add(crawl.counters, reports, before.counters, more, after.counters);
    }
}

/// Whether all progress among some reports shows these counters, and stays in
/// its total.
spec fn shows(reports: Seq<FileUpdateView>, counters: ScanCounters) -> bool {
    forall|i: int|
        0 <= i < reports.len() ==> match #[trigger] reports[i] {
            FileUpdateView::Progress { progress } => progress.checked == counters.checked
                && progress.found == counters.found && progress.checked <= progress.total,
            _ => true,
        }
}

/// A move counts nothing, and ends the scan with a report where it ends it.
spec fn moves(
    scan: ScanView,
    reports: Seq<FileUpdateView>,
    after: ScanView,
    more: Seq<FileUpdateView>,
    elapsed_ms: u128,
) -> bool {
    &&& after.crawl.counters == scan.crawl.counters
    &&& !(after.stage is Idle) && !(after.stage is Reading)
    &&& forall|kind: Kind| #[trigger]
        count_of(more, kind) == count_of(reports, kind) + if kind is Finished && after.stage is Over {
            1nat
        } else {
            0nat
        }
    &&& after.stage is Over ==> more.len() > 0 && more.last() == after.last_report(elapsed_ms)
    &&& reports.len() > 0 ==> more.len() > 0 && more.first() == reports.first()
    &&& shows(reports, scan.crawl.counters) ==> shows(more, scan.crawl.counters)
}

proof fn lemma_moved_on_reports(
    scan: ScanView,
    reports: Seq<FileUpdateView>,
    elapsed_ms: u128,
)
    ensures
        ({
            let (after, more, _) = scan.moved_on(reports, elapsed_ms);
            moves(scan, reports, after, more, elapsed_ms)
        }),
{
    scan_laws::lemma_next(scan.crawl);
    let (after, more, _) = scan.moved_on(reports, elapsed_ms);
    assert forall|kind: Kind| #[trigger]
        count_of(more, kind) == count_of(reports, kind) + if kind is Finished && after.stage is Over {
            1nat
        } else {
            0nat
        } by {
        lemma_count_push(reports, scan.last_report(elapsed_ms), kind);
    }
}

/// The progress of a scan.
spec fn progress_report(scan: ScanView, elapsed_ms: u128) -> FileUpdateView {
    FileUpdateView::Progress {
        progress: results::progress_of(scan.crawl.counters, scan.crawl.total_hint, elapsed_ms),
    }
}

proof fn lemma_page_done_reports(
    scan: ScanView,
    reports: Seq<FileUpdateView>,
    elapsed_ms: u128,
)
    requires
        shows(reports, scan.crawl.counters),
    ensures
        ({
            let (after, more, _) = scan.page_done(reports, elapsed_ms);
            &&& moves(scan, reports.push(progress_report(scan, elapsed_ms)), after, more, elapsed_ms)
            &&& shows(more, scan.crawl.counters)
            &&& forall|kind: Kind| #[trigger]
                count_of(more, kind) == count_of(reports, kind) + if kind is Progress || (kind
                    is Finished && after.stage is Over) {
                    1nat
                } else {
                    0nat
                }
        }),
{
    let shown = reports.push(progress_report(scan, elapsed_ms));
    lemma_moved_on_reports(scan, shown, elapsed_ms);
    let (after, more, _) = scan.page_done(reports, elapsed_ms);
    assert forall|kind: Kind| #[trigger]
        count_of(more, kind) == count_of(reports, kind) + if kind is Progress || (kind is Finished
            && after.stage is Over) {
            1nat
        } else {
            0nat
        } by {
        lemma_count_push(reports, progress_report(scan, elapsed_ms), kind);
    }
}

/// How many pages or candidates an event is the answer to: one or none.
pub open spec fn done_in(scan: ScanView, event: EventView) -> nat {
    match (scan.stage, event) {
        (StageView::Fetching { .. }, EventView::Answered { .. }) => 1,
        (StageView::Fetching { .. }, EventView::Unanswered { .. }) => 1,
        (StageView::Checking { workers }, EventView::Counted { .. }) => if workers.at_work > 0 {
            1
        } else {
            0
        },
        (_, _) => 0,
    }
}

/// How many pages were answered or were not, and how many candidates were
/// checked, while some events happened.
pub open spec fn done(scan: ScanView, events: Seq<(EventView, u128)>) -> nat
    decreases events.len(),
{
    if events.len() == 0 {
        0
    } else {
        done(scan, events.drop_last()) + done_in(
            scan_laws::run(scan, events.drop_last()),
            events.last().0,
        )
    }
}

/// How many workers an event is the failure of: one or none.
pub open spec fn failed_in(scan: ScanView, event: EventView) -> nat {
    match (scan.stage, event) {
        (StageView::Checking { workers }, EventView::Joined { outcome }) => if outcome is Failed
            && workers.at_work > 0 {
            1
        } else {
            0
        },
        (_, _) => 0,
    }
}

/// How many workers failed while some events happened.
pub open spec fn failed(scan: ScanView, events: Seq<(EventView, u128)>) -> nat
    decreases events.len(),
{
    if events.len() == 0 {
        0
    } else {
        failed(scan, events.drop_last()) + failed_in(
            scan_laws::run(scan, events.drop_last()),
            events.last().0,
        )
    }
}

/// How many files are counted as found whose workers have not ended yet.
pub open spec fn found_early(stage: StageView) -> nat {
    match stage {
        StageView::Checking { workers } => workers.found,
        _ => 0,
    }
}

/// How many pages and candidates are counted as checked whose progress is not
/// reported yet.
pub open spec fn done_early(stage: StageView) -> nat {
    match stage {
        StageView::Reading { .. } => 1,
        StageView::Checking { workers } => workers.counted(),
        _ => 0,
    }
}

/// What a step does to counters and reports, whatever stage it starts from.
spec fn steps(scan: ScanView, event: EventView, elapsed_ms: u128) -> bool {
    let (after, reports, _) = scan.step(event, elapsed_ms);
    let results = count_of(reports, Kind::Result);
    &&& results + found_early(after.stage) >= found_early(scan.stage)
    &&& counts(
        scan.crawl.counters,
        after.crawl.counters,
        done_in(scan, event),
        (results + found_early(after.stage) - found_early(scan.stage)) as nat,
    )
    &&& shows(reports, after.crawl.counters)
    &&& count_of(reports, Kind::Progress) + done_early(after.stage) == done_in(scan, event)
        + failed_in(scan, event) + done_early(scan.stage)
    &&& count_of(reports, Kind::Finished) == if after.stage is Over && !(scan.stage is Over) {
        1nat
    } else {
        0nat
    }
    &&& count_of(reports, Kind::Started) == if scan.stage is Idle && !(after.stage is Idle) {
        1nat
    } else {
        0nat
    }
    &&& after.stage is Over && !(scan.stage is Over) ==> reports.len() > 0 && reports.last()
        == after.last_report(elapsed_ms)
    &&& scan.stage is Over ==> after == scan && reports.len() == 0
    &&& scan.stage is Idle && after.stage is Idle ==> after == scan && reports.len() == 0
    &&& scan.stage is Idle && !(after.stage is Idle) ==> reports.len() > 0 && reports.first()
        == scan.first_reports()[0]
    &&& !(scan.stage is Idle) ==> !(after.stage is Idle)
}

proof fn lemma_joined_reports(
    scan: ScanView,
    workers: WorkersView,
    outcome: WorkerOutcome,
    elapsed_ms: u128,
)
    ensures
        ({
            let (after, reports, _) = scan.joined(workers, outcome, elapsed_ms);
            &&& after.crawl == scan.crawl
            &&& count_of(reports, Kind::Result) == if outcome is Found {
                1nat
            } else {
                0nat
            }
            &&& count_of(reports, Kind::Progress) == 1
            &&& count_of(reports, Kind::Started) == 0
            &&& count_of(reports, Kind::Finished) == if after.stage is Over {
                1nat
            } else {
                0nat
            }
            &&& shows(reports, scan.crawl.counters)
            &&& after.stage is Over ==> reports.len() > 0 && reports.last() == after.last_report(
                elapsed_ms,
            )
        }),
{
    reveal_with_fuel(count_of, 3);
    let first = results::worker_reports(
        outcome,
        scan.crawl.counters,
        scan.crawl.total_hint,
        elapsed_ms,
    );
    let last = scan.last_report(elapsed_ms);
    lemma_count_push(first, last, Kind::Result);
    lemma_count_push(first, last, Kind::Progress);
    lemma_count_push(first, last, Kind::Started);
    lemma_count_push(first, last, Kind::Finished);
    let none: Seq<FileUpdateView> = Seq::empty();
    if outcome is Nothing {
        assert(first.drop_last() =~= none);
    } else {
        assert(first.drop_last().drop_last() =~= none);
    }
}

proof fn lemma_steps(scan: ScanView, event: EventView, elapsed_ms: u128)
    ensures
        steps(scan, event, elapsed_ms),
{
    reveal_with_fuel(count_of, 2);
    reveal_with_fuel(counted_by, 2);
    match (scan.stage, event) {
        (StageView::Idle, EventView::Begin) => {
            lemma_moved_on_reports(scan, scan.first_reports(), elapsed_ms);
        },
        (StageView::Fetching { visit }, EventView::Answered { head }) => {
            let (crawl, reports) = scan.crawl.fetched(visit.url, head);
            lemma_page_done_reports(ScanView { crawl, ..scan }, reports, elapsed_ms);
        },
        (StageView::Fetching { visit }, EventView::Unanswered { detail }) => {
            let (crawl, reports) = scan.crawl.failed(visit.url, detail);
            lemma_page_done_reports(ScanView { crawl, ..scan }, reports, elapsed_ms);
        },
        (StageView::Reading { visit }, EventView::Body { content }) => {
            let links = crawl::page_links(
                scan.crawl.base,
                visit.url,
                content,
                scan.directories,
            );
            let (crawl, reports) = scan.crawl.follow_all(visit.depth, links);
            lemma_follow_all_counts(scan.crawl, visit.depth, links);
            lemma_only_results(reports, Kind::Result);
            lemma_only_results(reports, Kind::Progress);
            lemma_only_results(reports, Kind::Started);
            lemma_only_results(reports, Kind::Finished);
            lemma_page_done_reports(ScanView { crawl, ..scan }, reports, elapsed_ms);
        },
        (StageView::Reading { visit }, EventView::NoBody) => {
            lemma_page_done_reports(scan, Seq::empty(), elapsed_ms);
        },
        (StageView::Checking { workers }, EventView::Joined { outcome }) => {
            lemma_joined_reports(scan, workers, outcome, elapsed_ms);
        },
        (_, _) => {},
    }
}

proof fn lemma_run_counts(scan: ScanView, events: Seq<(EventView, u128)>)
    requires
        scan.stage is Idle,
    ensures
        ({
            let after = scan_laws::run(scan, events);
            &&& counts(
                scan.crawl.counters,
                after.crawl.counters,
                done(scan, events),
                count_of(reported(scan, events), Kind::Result) + found_early(after.stage),
            )
            &&& count_of(reported(scan, events), Kind::Progress) + done_early(after.stage) == done(
                scan,
                events,
            ) + failed(scan, events)
        }),
    decreases events.len(),
{
    if events.len() > 0 {
        let earlier = events.drop_last();
        lemma_run_counts(scan, earlier);
        let before = scan_laws::run(scan, earlier);
        let (event, elapsed_ms) = events.last();
        let (after, more, _) = before.step(event, elapsed_ms);
        lemma_steps(before, event, elapsed_ms);
        lemma_count_add(reported(scan, earlier), more, Kind::Result);
        lemma_count_add(reported(scan, earlier), more, Kind::Progress);
        let found = count_of(reported(scan, earlier), Kind::Result) + found_early(before.stage);
        lemma_counted_by_add(
            scan.crawl.counters.found,
            found,
            (count_of(more, Kind::Result) + found_early(after.stage) - found_early(
                before.stage,
            )) as nat,
        );
        lemma_counted_by_add(
            scan.crawl.counters.checked,
            done(scan, earlier),
            done_in(before, event),
        );
    }
}

/// The counters of a scan tell the truth at every time: what it has found is the
/// number of results that it has reported, and of those that its workers are
/// about to hand over; what it has checked is the number of pages and candidates
/// that are done; as long as these numbers fit.
pub proof fn law_counters_count(scan: ScanView, events: Seq<(EventView, u128)>)
    requires
        scan.stage is Idle,
        scan.crawl.counters == ScanCounters::zero(),
    ensures
        ({
            let after = scan_laws::run(scan, events);
            let found = count_of(reported(scan, events), Kind::Result) + found_early(after.stage);
            &&& found <= usize::MAX ==> after.crawl.counters.found == found
            &&& done(scan, events) <= usize::MAX ==> after.crawl.counters.checked == done(
                scan,
                events,
            )
        }),
{
    lemma_run_counts(scan, events);
    let after = scan_laws::run(scan, events);
    let found = count_of(reported(scan, events), Kind::Result) + found_early(after.stage);
    if found <= usize::MAX {
        lemma_counted_by_sum(0, found);
    }
    if done(scan, events) <= usize::MAX {
        lemma_counted_by_sum(0, done(scan, events));
    }
}

/// A scan that has begun has said so once, in its first report. A scan that is
/// over has said so once, in its last report, with what has been counted; one
/// that is not over has not said so.
pub proof fn law_ends_are_reported_once(scan: ScanView, events: Seq<(EventView, u128)>)
    requires
        scan.stage is Idle,
    ensures
        ({
            let after = scan_laws::run(scan, events);
            let reports = reported(scan, events);
            &&& count_of(reports, Kind::Started) == if after.stage is Idle {
                0nat
            } else {
                1nat
            }
            &&& after.stage is Idle ==> after == scan && reports.len() == 0
            &&& !(after.stage is Idle) ==> reports.len() > 0 && reports.first()
                == scan.first_reports()[0]
            &&& count_of(reports, Kind::Finished) == if after.stage is Over {
                1nat
            } else {
                0nat
            }
            &&& after.stage is Over ==> reports.len() > 0 && exists|elapsed_ms: u128|
                reports.last() == #[trigger] after.last_report(elapsed_ms)
        }),
    decreases events.len(),
{
    if events.len() > 0 {
        let earlier = events.drop_last();
        law_ends_are_reported_once(scan, earlier);
        let middle = scan_laws::run(scan, earlier);
        let (event, elapsed_ms) = events.last();
        let before = reported(scan, earlier);
        let more = middle.step(event, elapsed_ms).1;
        lemma_steps(middle, event, elapsed_ms);
        lemma_count_add(before, more, Kind::Started);
        lemma_count_add(before, more, Kind::Finished);
        let all = reported(scan, events);
        if more.len() == 0 {
            assert(all =~= before);
        } else {
            assert(all.last() == more.last());
            if before.len() == 0 {
                assert(all =~= more);
            } else {
                assert(all.first() == before.first());
            }
        }
    }
}

/// A scan that is over ends with the number of results that it has reported, and
/// with as many pages and candidates checked as it has reported progress, but for
/// workers that failed; as long as these numbers fit.
pub proof fn law_end_sums_up(scan: ScanView, events: Seq<(EventView, u128)>)
    requires
        scan.stage is Idle,
        scan.crawl.counters == ScanCounters::zero(),
        scan_laws::run(scan, events).stage is Over,
        count_of(reported(scan, events), Kind::Result) <= usize::MAX,
        count_of(reported(scan, events), Kind::Progress) <= usize::MAX,
    ensures
        reported(scan, events).last() matches FileUpdateView::Finished { checked, found, .. }
            && found == count_of(reported(scan, events), Kind::Result) && checked + failed(
            scan,
            events,
        ) == count_of(reported(scan, events), Kind::Progress),
{
    law_ends_are_reported_once(scan, events);
    lemma_run_counts(scan, events);
    law_counters_count(scan, events);
}

/// Whether the counts of all progress among some reports never fall, and stay
/// in their totals.
pub open spec fn in_order(reports: Seq<FileUpdateView>) -> bool {
    &&& forall|i: int|
        0 <= i < reports.len() ==> match #[trigger] reports[i] {
            FileUpdateView::Progress { progress } => progress.checked <= progress.total,
            _ => true,
        }
    &&& forall|i: int, j: int|
        0 <= i < j < reports.len() ==> match (#[trigger] reports[i], #[trigger] reports[j]) {
            (
                FileUpdateView::Progress { progress: earlier },
                FileUpdateView::Progress { progress: later },
            ) => earlier.checked <= later.checked && earlier.found <= later.found,
            (_, _) => true,
        }
}

/// Whether no progress among some reports is beyond these counters.
spec fn up_to(reports: Seq<FileUpdateView>, counters: ScanCounters) -> bool {
    forall|i: int|
        0 <= i < reports.len() ==> match #[trigger] reports[i] {
            FileUpdateView::Progress { progress } => progress.checked <= counters.checked
                && progress.found <= counters.found,
            _ => true,
        }
}

proof fn lemma_in_order(scan: ScanView, events: Seq<(EventView, u128)>)
    requires
        scan.stage is Idle,
        scan.crawl.counters == ScanCounters::zero(),
        count_of(reported(scan, events), Kind::Result) + found_early(
            scan_laws::run(scan, events).stage,
        ) <= usize::MAX,
        done(scan, events) <= usize::MAX,
    ensures
        in_order(reported(scan, events)),
        up_to(reported(scan, events), scan_laws::run(scan, events).crawl.counters),
    decreases events.len(),
{
    if events.len() > 0 {
        let earlier = events.drop_last();
        let middle = scan_laws::run(scan, earlier);
        let (event, elapsed_ms) = events.last();
        let before = reported(scan, earlier);
        let more = middle.step(event, elapsed_ms).1;
        let after = scan_laws::run(scan, events);
        lemma_steps(middle, event, elapsed_ms);
        lemma_count_add(before, more, Kind::Result);
        lemma_in_order(scan, earlier);
        assert(middle.crawl.counters.checked <= after.crawl.counters.checked
            && middle.crawl.counters.found <= after.crawl.counters.found) by {
            law_counters_count(scan, earlier);
            law_counters_count(scan, events);
        }
        let all = reported(scan, events);
        assert forall|i: int| 0 <= i < all.len() implies match #[trigger] all[i] {
            FileUpdateView::Progress { progress } => progress.checked <= progress.total
                && progress.checked <= after.crawl.counters.checked && progress.found
                <= after.crawl.counters.found,
            _ => true,
        } by {
            if i < before.len() {
                assert(all[i] == before[i]);
            } else {
                assert(all[i] == more[i - before.len()]);
            }
        }
        assert forall|i: int, j: int| 0 <= i < j < all.len() implies match (
            #[trigger] all[i],
            #[trigger] all[j],
        ) {
            (
                FileUpdateView::Progress { progress: first },
                FileUpdateView::Progress { progress: later },
            ) => first.checked <= later.checked && first.found <= later.found,
            (_, _) => true,
        } by {
            if j < before.len() {
                assert(all[i] == before[i] && all[j] == before[j]);
            } else {
                assert(all[j] == more[j - before.len()]);
                if i < before.len() {
                    assert(all[i] == before[i]);
                } else {
                    assert(all[i] == more[i - before.len()]);
                }
            }
        }
    }
}

/// The progress of a scan only goes on: no report of it has checked more than its
/// total, and what is checked and found never falls from one to the next; as long
/// as these numbers fit.
pub proof fn law_progress_goes_on(scan: ScanView, events: Seq<(EventView, u128)>)
    requires
        scan.stage is Idle,
        scan.crawl.counters == ScanCounters::zero(),
        count_of(reported(scan, events), Kind::Result) + found_early(
            scan_laws::run(scan, events).stage,
        ) <= usize::MAX,
        done(scan, events) <= usize::MAX,
    ensures
        in_order(reported(scan, events)),
{
    lemma_in_order(scan, events);
}

} // verus!
