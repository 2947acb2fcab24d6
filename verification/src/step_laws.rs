//! What each event does to a file scan.
use vstd::prelude::*;

use crate::crawl;
use crate::crawl::{
    CrawlView, FileCrawl, FileWordlists, PageHead, PageHeadView, PageVisit, VisitView,
};
use crate::crawl_laws;
use crate::options::FileScanOptions;
use crate::results;
use crate::results::{FileScanUpdate, FileUpdateView, WorkerOutcome};
use crate::scan;
use crate::scan::{
    ActionView, EventView, FileScan, ScanAction, ScanEvent, ScanStage, ScanView, StageView,
};
use crate::text;
use crate::urls;
use crate::urls::{PageUrl, UrlView};
use crate::workers::{Workers, WorkersView};

verus! {

/// Stages read as their fields stand.
pub proof fn law_stage_views(visit: PageVisit, workers: Workers)
    ensures
        ScanStage::Idle.view() is Idle,
        (ScanStage::Fetching { visit }).view() == (StageView::Fetching {
            visit: visit.deep_view(),
        }),
        (ScanStage::Reading { visit }).view() == (StageView::Reading { visit: visit.deep_view() }),
        (ScanStage::Checking { workers }).view() == (StageView::Checking { workers: workers@ }),
        ScanStage::Over.view() is Over,
{
}

/// Events read as their fields stand.
pub proof fn law_event_views(
    head: PageHead,
    detail: String,
    content: String,
    found: bool,
    outcome: WorkerOutcome,
)
    ensures
        ScanEvent::Begin.view() is Begin,
        (ScanEvent::Answered { head }).view() == (EventView::Answered { head: head@ }),
        (ScanEvent::Unanswered { detail }).view() == (EventView::Unanswered { detail: detail@ }),
        (ScanEvent::Body { content }).view() == (EventView::Body { content: content@ }),
        ScanEvent::NoBody.view() is NoBody,
        (ScanEvent::Counted { found }).view() == (EventView::Counted { found }),
        (ScanEvent::Joined { outcome }).view() == (EventView::Joined { outcome }),
{
}

/// Actions read as their fields stand.
pub proof fn law_action_views(url: PageUrl, candidates: Vec<PageUrl>)
    ensures
        (ScanAction::Fetch { url }).view() == (ActionView::Fetch { url: url@ }),
        ScanAction::ReadBody.view() is ReadBody,
        (ScanAction::Check { candidates }).view() == (ActionView::Check {
            candidates: candidates.deep_view(),
        }),
        ScanAction::Await.view() is Await,
        ScanAction::Done.view() is Done,
{
}

/// Each stage awaits its own events: the first that the scan is to begin, a request an
/// answer or none, a page its body, of bounded length, or none, and the workers what
/// those that are left can do.
pub proof fn law_awaited(stage: StageView, event: EventView)
    ensures
        event is Begin ==> (scan::awaits(stage, event) <==> stage is Idle),
        event is Answered || event is Unanswered ==> (scan::awaits(stage, event) <==> stage is
            Fetching),
        event is Body ==> (scan::awaits(stage, event) <==> stage is Reading && text::byte_len(
            event->Body_content,
        ) <= 0x2000_0000),
        event is NoBody ==> (scan::awaits(stage, event) <==> stage is Reading),
        event is Counted ==> (scan::awaits(stage, event) <==> stage is Checking
            && stage->workers.at_work > 0),
        event is Joined ==> (scan::awaits(stage, event) <==> stage is Checking
            && stage->workers.can_end(event->outcome.kind())),
        stage is Over ==> !scan::awaits(stage, event),
{
}

/// A scan that is made of a crawl has done nothing yet.
pub proof fn law_scan_is_made(
    crawl: FileCrawl,
    directories: Vec<String>,
    scan: FileScan,
    inner: &FileCrawl,
)
    requires
        call_ensures(FileScan::new, (crawl, directories), scan),
        call_ensures(FileScan::crawl, (&scan,), inner),
    ensures
        scan@.crawl == crawl@,
        scan@.stage is Idle,
        scan@.directories == directories.deep_view(),
        inner@ == crawl@,
{
}

/// A scan starts just where the text of its base parses as a URL; it then stands where
/// its options have it begin. Else there is the message for that base.
pub proof fn law_scan_starts(
    options: FileScanOptions,
    wordlists: FileWordlists,
    scan: Result<FileScan, String>,
    crawl: Result<FileCrawl, String>,
)
    requires
        call_ensures(FileScan::start, (&options, &wordlists), scan),
        call_ensures(FileCrawl::start, (&options, &wordlists), crawl),
    ensures
        ({
            let parsed = urls::parsed_url(urls::base_text(options.base_url@));
            &&& scan is Ok <==> parsed is Ok
            &&& crawl is Ok <==> parsed is Ok
            &&& parsed is Ok ==> crawl_laws::begins(
                parsed->Ok_0,
                options,
                wordlists,
                scan->Ok_0@.crawl,
            )
            &&& parsed is Ok ==> scan->Ok_0@.stage is Idle && scan->Ok_0@.directories
                == wordlists.media_directories.deep_view()
            &&& parsed is Ok ==> crawl_laws::begins(
                parsed->Ok_0,
                options,
                wordlists,
                crawl->Ok_0@,
            )
            &&& parsed is Err ==> scan->Err_0@ == "Enter a valid URL: "@ + parsed->Err_0
            &&& parsed is Err ==> crawl->Err_0@ == "Enter a valid URL: "@ + parsed->Err_0
        }),
{
    if let Ok(base) = urls::parsed_url(urls::base_text(options.base_url@)) {
        crawl_laws::lemma_begins(base, options, wordlists, scan->Ok_0@.crawl);
        crawl_laws::lemma_begins(base, options, wordlists, crawl->Ok_0@);
    }
}

/// A step gives what the event brings: the reports and what is to be done next.
pub proof fn law_step(
    scan: &mut FileScan,
    event: ScanEvent,
    elapsed_ms: u128,
    outcome: (Vec<FileScanUpdate>, ScanAction),
)
    requires
        call_ensures(FileScan::step, (scan, event, elapsed_ms), outcome),
    ensures
        final(scan)@ == old(scan)@.step(event@, elapsed_ms).0,
        outcome.0.deep_view() == old(scan)@.step(event@, elapsed_ms).1,
        outcome.1@ == old(scan)@.step(event@, elapsed_ms).2,
        final(scan)@.directories == old(scan)@.directories,
{
    law_event_that_is_not_awaited(old(scan)@, event@, elapsed_ms);
}

/// No event changes the directories; one that is not awaited changes nothing, is not
/// reported, and leaves the scan waiting.
pub proof fn law_event_that_is_not_awaited(scan: ScanView, event: EventView, elapsed_ms: u128)
    ensures
        scan.step(event, elapsed_ms).0.directories == scan.directories,
        !scan::awaits(scan.stage, event) && !(scan.stage is Reading && event is Body) ==> scan.step(
            event,
            elapsed_ms,
        ) == (scan, Seq::<FileUpdateView>::empty(), ActionView::Await),
{
}

/// Where a page of the queue was not seen, a scan that moves on fetches the first such
/// page.
pub proof fn law_moves_on_to_a_page(
    scan: ScanView,
    reports: Seq<FileUpdateView>,
    elapsed_ms: u128,
    i: int,
)
    requires
        0 <= i < scan.crawl.queue.len(),
        !scan.crawl.seen.contains(scan.crawl.queue[i].url.text),
        forall|j: int|
            0 <= j < i ==> scan.crawl.seen.contains((#[trigger] scan.crawl.queue[j]).url.text),
    ensures
        ({
            let (after, told, action) = scan.moved_on(reports, elapsed_ms);
            &&& after.crawl == (CrawlView {
                queue: scan.crawl.queue.skip(i + 1),
                seen: scan.crawl.seen.insert(scan.crawl.queue[i].url.text),
                ..scan.crawl
            })
            &&& after.stage == (StageView::Fetching { visit: scan.crawl.queue[i] })
            &&& after.directories == scan.directories
            &&& told == reports
            &&& action == (ActionView::Fetch { url: scan.crawl.queue[i].url })
        }),
{
    crawl_laws::lemma_next_at(scan.crawl, i);
}

/// Where no page is left, a scan that moves on has the planned files checked that were
/// not seen, with a worker for each; where there is none of those either it ends, with
/// its counters as the last report.
pub proof fn law_moves_on_to_the_files(
    scan: ScanView,
    reports: Seq<FileUpdateView>,
    elapsed_ms: u128,
)
    requires
        forall|j: int|
            0 <= j < scan.crawl.queue.len() ==> scan.crawl.seen.contains(
                (#[trigger] scan.crawl.queue[j]).url.text,
            ),
    ensures
        ({
            let (after, told, action) = scan.moved_on(reports, elapsed_ms);
            let files = crawl::unseen_once(scan.crawl.planned, scan.crawl.seen);
            &&& after.crawl == (CrawlView {
                queue: Seq::empty(),
                planned: Seq::empty(),
                seen: scan.crawl.seen.union(crawl::texts_of(scan.crawl.planned).to_set()),
                ..scan.crawl
            })
            &&& after.directories == scan.directories
            &&& files.len() > 0 ==> after.stage == (StageView::Checking {
                workers: WorkersView::begun(files.len()),
            }) && told == reports && action == (ActionView::Check { candidates: files })
            &&& files.len() == 0 ==> after.stage is Over && action is Done && told == reports.push(
                FileUpdateView::Finished {
                    checked: scan.crawl.counters.checked,
                    found: scan.crawl.counters.found,
                    elapsed_ms,
                },
            )
        }),
{
    crawl_laws::lemma_next_none(scan.crawl);
}

/// A page that is done is followed by the progress behind its reports, and the scan
/// moves on.
pub proof fn law_page_is_done(scan: ScanView, reports: Seq<FileUpdateView>, elapsed_ms: u128)
    ensures
        scan.page_done(reports, elapsed_ms) == scan.moved_on(
            reports.push(
                FileUpdateView::Progress {
                    progress: results::progress_of(
                        scan.crawl.counters,
                        scan.crawl.total_hint,
                        elapsed_ms,
                    ),
                },
            ),
            elapsed_ms,
        ),
{
}

/// A scan begins by telling what it expects, and moves on.
pub proof fn law_begin(scan: ScanView, elapsed_ms: u128)
    requires
        scan.stage is Idle,
    ensures
        scan.step(EventView::Begin, elapsed_ms) == scan.moved_on(
            seq![FileUpdateView::Started { total: scan.crawl.total_hint }],
            elapsed_ms,
        ),
{
}

/// A page that was answered is taken note of. Where its body is to be read the scan
/// waits for that, without telling any progress; else the page is done.
pub proof fn law_answered(scan: ScanView, visit: VisitView, head: PageHeadView, elapsed_ms: u128)
    requires
        scan.stage == (StageView::Fetching { visit }),
    ensures
        ({
            let (crawl, reports) = scan.crawl.fetched(visit.url, head);
            let read = scan.crawl.reads_body(visit, head);
            &&& read ==> scan.step(EventView::Answered { head }, elapsed_ms) == (
                ScanView { crawl, stage: StageView::Reading { visit }, ..scan },
                reports,
                ActionView::ReadBody,
            )
            &&& !read ==> scan.step(EventView::Answered { head }, elapsed_ms) == (ScanView {
                crawl,
                ..scan
            }).page_done(reports, elapsed_ms)
        }),
{
}

/// A page that was not answered, or whose body could not be read, is done; of the first
/// the reason is told.
pub proof fn law_unanswered(
    scan: ScanView,
    visit: VisitView,
    detail: Seq<char>,
    elapsed_ms: u128,
)
    ensures
        scan.stage == (StageView::Fetching { visit }) ==> scan.step(
            EventView::Unanswered { detail },
            elapsed_ms,
        ) == (ScanView {
            crawl: CrawlView { counters: scan.crawl.counters.with_outcome(false), ..scan.crawl },
            ..scan
        }).page_done(
            seq![
                FileUpdateView::Error {
                    message: "Failed to fetch "@ + visit.url.text + ": "@ + detail,
                },
            ],
            elapsed_ms,
        ),
        scan.stage == (StageView::Reading { visit }) ==> scan.step(EventView::NoBody, elapsed_ms)
            == scan.page_done(Seq::empty(), elapsed_ms),
{
}

/// The links of a body that was read are followed, all of them, at the depth of the
/// page, and the page is done.
pub proof fn law_body(scan: ScanView, visit: VisitView, content: Seq<char>, elapsed_ms: u128)
    requires
        scan.stage == (StageView::Reading { visit }),
    ensures
        ({
            let (crawl, reports) = scan.crawl.follow_all(
                visit.depth,
                crawl::page_links(scan.crawl.base, visit.url, content, scan.directories),
            );
            scan.step(EventView::Body { content }, elapsed_ms) == (ScanView {
                crawl,
                ..scan
            }).page_done(reports, elapsed_ms)
        }),
{
}

/// A worker that has checked its file is counted, with what came of it. Nothing is told
/// of that, and nothing else changes.
pub proof fn law_counted(scan: ScanView, workers: WorkersView, found: bool, elapsed_ms: u128)
    requires
        scan.stage == (StageView::Checking { workers }),
        workers.at_work > 0,
    ensures
        scan.step(EventView::Counted { found }, elapsed_ms) == (
            ScanView {
                crawl: CrawlView {
                    counters: scan.crawl.counters.with_outcome(found),
                    ..scan.crawl
                },
                stage: StageView::Checking { workers: workers.after_count(found) },
                ..scan
            },
            Seq::<FileUpdateView>::empty(),
            ActionView::Await,
        ),
{
}

/// The end of a worker is told, with the counters as they stand. The scan waits while
/// another is left; with the last one it ends.
pub proof fn law_joined(
    scan: ScanView,
    workers: WorkersView,
    outcome: WorkerOutcome,
    elapsed_ms: u128,
)
    requires
        scan.stage == (StageView::Checking { workers }),
        workers.can_end(outcome.kind()),
    ensures
        ({
            let told = results::worker_reports(
                outcome,
                scan.crawl.counters,
                scan.crawl.total_hint,
                elapsed_ms,
            );
            let last = workers.at_work + workers.found + workers.nothing == 1;
            &&& !last ==> scan.step(EventView::Joined { outcome }, elapsed_ms) == (
                ScanView {
                    stage: StageView::Checking { workers: workers.after_end(outcome.kind()) },
                    ..scan
                },
                told,
                ActionView::Await,
            )
            &&& last ==> scan.step(EventView::Joined { outcome }, elapsed_ms) == (
                ScanView { stage: StageView::Over, ..scan },
                told.push(
                    FileUpdateView::Finished {
                        checked: scan.crawl.counters.checked,
                        found: scan.crawl.counters.found,
                        elapsed_ms,
                    },
                ),
                ActionView::Done,
            )
        }),
{
}

/// A fresh scan that is to crawl first fetches its base; one that is not has the files
/// checked that are tried, each once.
pub proof fn law_first_action(
    options: FileScanOptions,
    wordlists: FileWordlists,
    base: UrlView,
    scan: ScanView,
    elapsed_ms: u128,
)
    requires
        scan.stage is Idle,
        crawl_laws::begins(base, options, wordlists, scan.crawl),
    ensures
        options.crawl ==> scan.step(EventView::Begin, elapsed_ms).2 == (ActionView::Fetch {
            url: base,
        }),
        !options.crawl && !options.brute_force ==> scan.step(EventView::Begin, elapsed_ms).2
            is Done,
        !options.crawl && crawl::unseen_once(scan.crawl.planned, Set::empty()).len() > 0
            ==> scan.step(EventView::Begin, elapsed_ms).2 == (ActionView::Check {
            candidates: crawl::unseen_once(scan.crawl.planned, Set::empty()),
        }),
        scan.step(EventView::Begin, elapsed_ms).1[0] == (FileUpdateView::Started {
            total: scan.crawl.planned.len() as usize,
        }),
{
    let told = seq![FileUpdateView::Started { total: scan.crawl.total_hint }];
    law_begin(scan, elapsed_ms);
    assert(scan.crawl.seen =~= Set::empty());
    if options.crawl {
        law_moves_on_to_a_page(scan, told, elapsed_ms, 0);
    } else {
        law_moves_on_to_the_files(scan, told, elapsed_ms);
    }
}

} // verus!
