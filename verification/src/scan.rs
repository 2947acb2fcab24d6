//! The course of a file scan: each event of the outside world brings reports
//! and says what to do next.
use vstd::prelude::*;

use crate::crawl;
use crate::crawl::{
    CrawlView, FileCrawl, FileWordlists, PageHead, PageHeadView, PageVisit, VisitView,
};
use crate::html;
use crate::options::FileScanOptions;
use crate::results;
use crate::results::{
    finished, worker_updates, FileScanUpdate, FileUpdateView, WorkerOutcome,
};
use crate::text;
use crate::text::copy_texts;
use crate::urls;
use crate::urls::{PageUrl, UrlView};
use crate::workers::{Workers, WorkersView};

verus! {

/// What a scan is waiting for.
#[derive(Debug)]
pub enum ScanStage {
    /// Nothing.
    Idle,
    /// The answer to a request for a page.
    Fetching { visit: PageVisit },
    /// The body of a page.
    Reading { visit: PageVisit },
    /// The ends of workers, each of which checks a file.
    Checking { workers: Workers },
    /// Nothing any more.
    Over,
}

/// What a [`ScanStage`] stands for.
pub enum StageView {
    Idle,
    Fetching { visit: VisitView },
    Reading { visit: VisitView },
    Checking { workers: WorkersView },
    Over,
}

impl View for ScanStage {
    type V = StageView;

    open spec fn view(&self) -> StageView {
        match *self {
            ScanStage::Idle => StageView::Idle,
            ScanStage::Fetching { visit } => StageView::Fetching { visit: visit.deep_view() },
            ScanStage::Reading { visit } => StageView::Reading { visit: visit.deep_view() },
            ScanStage::Checking { workers } => StageView::Checking { workers: workers@ },
            ScanStage::Over => StageView::Over,
        }
    }
}

/// What happened outside.
#[derive(Debug)]
pub enum ScanEvent {
    /// The scan is to begin.
    Begin,
    /// The page was answered.
    Answered { head: PageHead },
    /// The page was not answered, for this reason.
    Unanswered { detail: String },
    /// The body of the page was read.
    Body { content: String },
    /// The body of the page could not be read.
    NoBody,
    /// A worker has checked its file, with or without success, and counts it.
    Counted { found: bool },
    /// A worker ended.
    Joined { outcome: WorkerOutcome },
}

/// What a [`ScanEvent`] stands for.
pub enum EventView {
    Begin,
    Answered { head: PageHeadView },
    Unanswered { detail: Seq<char> },
    Body { content: Seq<char> },
    NoBody,
    Counted { found: bool },
    Joined { outcome: WorkerOutcome },
}

impl View for ScanEvent {
    type V = EventView;

    open spec fn view(&self) -> EventView {
        match *self {
            ScanEvent::Begin => EventView::Begin,
            ScanEvent::Answered { head } => EventView::Answered { head: head@ },
            ScanEvent::Unanswered { detail } => EventView::Unanswered { detail: detail@ },
            ScanEvent::Body { content } => EventView::Body { content: content@ },
            ScanEvent::NoBody => EventView::NoBody,
            ScanEvent::Counted { found } => EventView::Counted { found },
            ScanEvent::Joined { outcome } => EventView::Joined { outcome },
        }
    }
}

/// What is to be done next.
#[derive(Debug)]
pub enum ScanAction {
    /// Request this page.
    Fetch { url: PageUrl },
    /// Read the body of the page that was answered.
    ReadBody,
    /// The crawl is over: let a worker check each of these files.
    Check { candidates: Vec<PageUrl> },
    /// Wait for the end of a worker.
    Await,
    /// The scan is over.
    Done,
}

/// What a [`ScanAction`] stands for.
pub enum ActionView {
    Fetch { url: UrlView },
    ReadBody,
    Check { candidates: Seq<UrlView> },
    Await,
    Done,
}

impl View for ScanAction {
    type V = ActionView;

    open spec fn view(&self) -> ActionView {
        match *self {
            ScanAction::Fetch { url } => ActionView::Fetch { url: url@ },
            ScanAction::ReadBody => ActionView::ReadBody,
            ScanAction::Check { candidates } => ActionView::Check {
                candidates: candidates.deep_view(),
            },
            ScanAction::Await => ActionView::Await,
            ScanAction::Done => ActionView::Done,
        }
    }
}

/// Whether a stage is one in which an event can happen.
pub open spec fn awaits(stage: StageView, event: EventView) -> bool {
    match event {
        EventView::Begin => stage is Idle,
        EventView::Answered { .. } => stage is Fetching,
        EventView::Unanswered { .. } => stage is Fetching,
        EventView::Body { content } => stage is Reading && text::byte_len(content)
            <= html::MAX_DOCUMENT_BYTES,
        EventView::NoBody => stage is Reading,
        EventView::Counted { .. } => stage matches StageView::Checking { workers }
            && workers.at_work > 0,
        EventView::Joined { outcome } => stage matches StageView::Checking { workers }
            && workers.can_end(outcome.kind()),
    }
}

/// The state of a scan.
pub struct ScanView {
    pub crawl: CrawlView,
    pub stage: StageView,
    /// The directories that media files are looked for in.
    pub directories: Seq<Seq<char>>,
}

impl ScanView {
    /// The report that begins the scan.
    pub open spec fn first_reports(self) -> Seq<FileUpdateView> {
        seq![FileUpdateView::Started { total: self.crawl.total_hint }]
    }

    /// The report that ends the scan.
    pub open spec fn last_report(self, elapsed_ms: u128) -> FileUpdateView {
        FileUpdateView::Finished {
            checked: self.crawl.counters.checked,
            found: self.crawl.counters.found,
            elapsed_ms,
        }
    }

    /// The next page is fetched; where there is none, the files that are left
    /// are checked; where there is none of those either, the scan is over.
    pub open spec fn moved_on(self, reports: Seq<FileUpdateView>, elapsed_ms: u128) -> (
        ScanView,
        Seq<FileUpdateView>,
        ActionView,
    ) {
        let (after, visit) = self.crawl.next();
        let (crawl, candidates) = after.handed_out();
        match visit {
            Some(page) => (
                ScanView { crawl: after, stage: StageView::Fetching { visit: page }, ..self },
                reports,
                ActionView::Fetch { url: page.url },
            ),
            None => if candidates.len() == 0 {
                (
                    ScanView { crawl, stage: StageView::Over, ..self },
                    reports.push(self.last_report(elapsed_ms)),
                    ActionView::Done,
                )
            } else {
                (
                    ScanView {
                        crawl,
                        stage: StageView::Checking {
                            workers: WorkersView::begun(candidates.len()),
                        },
                        ..self
                    },
                    reports,
                    ActionView::Check { candidates },
                )
            },
        }
    }

    /// A page is done: its progress is reported and the scan moves on.
    pub open spec fn page_done(self, reports: Seq<FileUpdateView>, elapsed_ms: u128) -> (
        ScanView,
        Seq<FileUpdateView>,
        ActionView,
    ) {
        let progress = FileUpdateView::Progress {
            progress: results::progress_of(
                self.crawl.counters,
                self.crawl.total_hint,
                elapsed_ms,
            ),
        };
        self.moved_on(reports.push(progress), elapsed_ms)
    }

    /// A worker has counted.
    pub open spec fn counted(self, workers: WorkersView, found: bool) -> ScanView {
        ScanView {
            crawl: CrawlView { counters: self.crawl.counters.with_outcome(found), ..self.crawl },
            stage: StageView::Checking { workers: workers.after_count(found) },
            ..self
        }
    }

    /// A worker ended: its end is reported, and after the last one the scan is
    /// over.
    pub open spec fn joined(
        self,
        workers: WorkersView,
        outcome: WorkerOutcome,
        elapsed_ms: u128,
    ) -> (ScanView, Seq<FileUpdateView>, ActionView) {
        let left = workers.after_end(outcome.kind());
        let reports = results::worker_reports(
            outcome,
            self.crawl.counters,
            self.crawl.total_hint,
            elapsed_ms,
        );
        if left.left() == 0 {
            (
                ScanView { stage: StageView::Over, ..self },
                reports.push(self.last_report(elapsed_ms)),
                ActionView::Done,
            )
        } else {
            (
                ScanView { stage: StageView::Checking { workers: left }, ..self },
                reports,
                ActionView::Await,
            )
        }
    }

    /// What an event brings: the state after it, the reports, and what is to be
    /// done next. An event that is not awaited changes nothing.
    pub open spec fn step(self, event: EventView, elapsed_ms: u128) -> (
        ScanView,
        Seq<FileUpdateView>,
        ActionView,
    ) {
        match (self.stage, event) {
            (StageView::Idle, EventView::Begin) => self.moved_on(self.first_reports(), elapsed_ms),
            (StageView::Fetching { visit }, EventView::Answered { head }) => {
                let (crawl, reports) = self.crawl.fetched(visit.url, head);
                if crawl.reads_body(visit, head) {
                    (
                        ScanView { crawl, stage: StageView::Reading { visit }, ..self },
                        reports,
                        ActionView::ReadBody,
                    )
                } else {
                    (ScanView { crawl, ..self }).page_done(reports, elapsed_ms)
                }
            },
            (StageView::Fetching { visit }, EventView::Unanswered { detail }) => {
                let (crawl, reports) = self.crawl.failed(visit.url, detail);
                (ScanView { crawl, ..self }).page_done(reports, elapsed_ms)
            },
            (StageView::Reading { visit }, EventView::Body { content }) => {
                let (crawl, reports) = self.crawl.follow_all(
                    visit.depth,
                    crawl::page_links(
                        self.crawl.base,
                        visit.url,
                        content,
                        self.directories,
                    ),
                );
                (ScanView { crawl, ..self }).page_done(reports, elapsed_ms)
            },
            (StageView::Reading { visit }, EventView::NoBody) => self.page_done(
                Seq::empty(),
                elapsed_ms,
            ),
            (StageView::Checking { workers }, EventView::Counted { found }) => if workers.at_work
                > 0 {
                (self.counted(workers, found), Seq::empty(), ActionView::Await)
            } else {
                (self, Seq::empty(), ActionView::Await)
            },
            (StageView::Checking { workers }, EventView::Joined { outcome }) => if workers.can_end(
                outcome.kind(),
            ) {
                self.joined(workers, outcome, elapsed_ms)
            } else {
                (self, Seq::empty(), ActionView::Await)
            },
            (_, _) => (self, Seq::empty(), ActionView::Await),
        }
    }
}

/// A file scan. It says what to do next and takes what came of it; requests
/// and workers are made elsewhere.
pub struct FileScan {
    crawl: FileCrawl,
    stage: ScanStage,
    media_directories: Vec<String>,
}

impl View for FileScan {
    type V = ScanView;

    closed spec fn view(&self) -> ScanView {
        ScanView {
            crawl: self.crawl@,
            stage: self.stage@,
            directories: self.media_directories.deep_view(),
        }
    }
}

impl FileScan {
    /// A scan that is about to begin with a crawl.
    pub fn new(crawl: FileCrawl, media_directories: Vec<String>) -> (scan: FileScan)
        ensures
            scan@ == (ScanView {
                crawl: crawl@,
                stage: StageView::Idle,
                directories: media_directories.deep_view(),
            }),
    {
        FileScan { crawl, stage: ScanStage::Idle, media_directories }
    }

    /// A scan of the URL that the options name, or a message that says why
    /// there is none.
    pub fn start(options: &FileScanOptions, wordlists: &FileWordlists) -> (scan: Result<
        FileScan,
        String,
    >)
        ensures
            match urls::base_outcome(urls::parsed_url(urls::base_text(options.base_url@))) {
                Ok(base) => scan matches Ok(started) && crawl::starts_from(
                    started@.crawl,
                    base,
                    *options,
                    wordlists.paths.deep_view(),
                    wordlists.presets.deep_view(),
                ) && started@.stage is Idle && started@.directories
                    == wordlists.media_directories.deep_view(),
                Err(message) => scan matches Err(given) && given@ == message,
            },
            scan matches Ok(started) ==> urls::on_web(started@.crawl.base),
    {
        match FileCrawl::start(options, wordlists) {
            Ok(crawl) => Ok(FileScan::new(crawl, copy_texts(&wordlists.media_directories))),
            Err(message) => Err(message),
        }
    }

    /// The crawl of the scan.
    pub fn crawl(&self) -> (crawl: &FileCrawl)
        ensures
            crawl@ == self@.crawl,
    {
        &self.crawl
    }

    /// Moves on to the next page, to the files that are left, or to the end.
    fn move_on(&mut self, updates: Vec<FileScanUpdate>, elapsed_ms: u128) -> (outcome: (
        Vec<FileScanUpdate>,
        ScanAction,
    ))
        ensures
            old(self)@.moved_on(updates.deep_view(), elapsed_ms) == (
                final(self)@,
                outcome.0.deep_view(),
                outcome.1@,
            ),
    {
        let ghost reports = updates.deep_view();
        let mut updates = updates;
        match self.crawl.next_page() {
            Some(visit) => {
                let url = visit.url.clone();
                self.stage = ScanStage::Fetching { visit };
                (updates, ScanAction::Fetch { url })
            },
            None => {
                let candidates = self.crawl.take_candidates();
                if candidates.len() == 0 {
                    self.stage = ScanStage::Over;
                    updates.push(finished(self.crawl.counters(), elapsed_ms));
                    proof {
                        lemma_next_counters(old(self)@.crawl);
                    }
                    assert(updates.deep_view() =~= reports.push(
                        old(self)@.last_report(elapsed_ms),
                    ));
                    (updates, ScanAction::Done)
                } else {
                    self.stage = ScanStage::Checking { workers: Workers::begin(candidates.len()) };
                    (updates, ScanAction::Check { candidates })
                }
            },
        }
    }

    /// Reports the progress of a page that is done, and moves on.
    fn finish_page(&mut self, updates: Vec<FileScanUpdate>, elapsed_ms: u128) -> (outcome: (
        Vec<FileScanUpdate>,
        ScanAction,
    ))
        ensures
            old(self)@.page_done(updates.deep_view(), elapsed_ms) == (
                final(self)@,
                outcome.0.deep_view(),
                outcome.1@,
            ),
    {
        let ghost reports = updates.deep_view();
        let mut updates = updates;
        let progress = self.crawl.progress(elapsed_ms);
        let ghost shown = progress@;
        updates.push(progress);
        assert(updates.deep_view() =~= reports.push(shown));
        self.move_on(updates, elapsed_ms)
    }

    /// Reports the end of a worker.
    fn worker_joined(&mut self, workers: Workers, worker: WorkerOutcome, elapsed_ms: u128) -> (
    outcome: (Vec<FileScanUpdate>, ScanAction))
        requires
            workers@.can_end(worker.kind()),
        ensures
            old(self)@.joined(workers@, worker, elapsed_ms) == (
                final(self)@,
                outcome.0.deep_view(),
                outcome.1@,
            ),
    {
        let left = workers.end(worker.ending());
        let counters = self.crawl.counters();
        let mut updates = worker_updates(worker, counters, self.crawl.total_hint(), elapsed_ms);
        let ghost reports = updates.deep_view();
        if left.all_ended() {
            self.stage = ScanStage::Over;
            updates.push(finished(counters, elapsed_ms));
            assert(updates.deep_view() =~= reports.push(old(self)@.last_report(elapsed_ms)));
            (updates, ScanAction::Done)
        } else {
            self.stage = ScanStage::Checking { workers: left };
            (updates, ScanAction::Await)
        }
    }

    /// Takes an event; gives the reports that it brings and says what to do
    /// next. The time is what has passed since the scan began. What the body of a
    /// page lets the scan infer lies on the origin of the base.
    pub fn step(&mut self, event: ScanEvent, elapsed_ms: u128) -> (outcome: (
        Vec<FileScanUpdate>,
        ScanAction,
    ))
        requires
            awaits(old(self)@.stage, event@),
        ensures
            old(self)@.step(event@, elapsed_ms) == (
                final(self)@,
                outcome.0.deep_view(),
                outcome.1@,
            ),
            event@ is Body && urls::on_web(old(self)@.crawl.base) ==> crawl::results_on_origin(
                old(self)@.crawl.base,
                outcome.0.deep_view(),
            ),
    {
        let none: Vec<FileScanUpdate> = Vec::new();
        assert(none.deep_view() =~= Seq::empty());
        let mut stage = ScanStage::Idle;
        std::mem::swap(&mut stage, &mut self.stage);
        match (stage, event) {
            (ScanStage::Idle, ScanEvent::Begin) => {
                let mut updates = none;
                updates.push(self.crawl.started());
                assert(updates.deep_view() =~= old(self)@.first_reports());
                self.move_on(updates, elapsed_ms)
            },
            (ScanStage::Fetching { visit }, ScanEvent::Answered { head }) => {
                let updates = self.crawl.page_fetched(&visit.url, &head);
                if self.crawl.wants_body(&visit, &head) {
                    self.stage = ScanStage::Reading { visit };
                    (updates, ScanAction::ReadBody)
                } else {
                    self.stage = ScanStage::Fetching { visit };
                    self.finish_page(updates, elapsed_ms)
                }
            },
            (ScanStage::Fetching { visit }, ScanEvent::Unanswered { detail }) => {
                let updates = self.crawl.page_failed(&visit.url, detail.as_str());
                self.stage = ScanStage::Fetching { visit };
                self.finish_page(updates, elapsed_ms)
            },
            (ScanStage::Reading { visit }, ScanEvent::Body { content }) => {
                let updates = self.crawl.page_body(
                    &visit,
                    content.as_str(),
                    &self.media_directories,
                );
                self.stage = ScanStage::Reading { visit };
                self.finish_page(updates, elapsed_ms)
            },
            (ScanStage::Reading { visit }, ScanEvent::NoBody) => {
                self.stage = ScanStage::Reading { visit };
                self.finish_page(none, elapsed_ms)
            },
            (ScanStage::Checking { workers }, ScanEvent::Counted { found }) => {
                self.crawl.count_candidate(found);
                self.stage = ScanStage::Checking { workers: workers.count(found) };
                (none, ScanAction::Await)
            },
            (ScanStage::Checking { workers }, ScanEvent::Joined { outcome }) => {
                self.worker_joined(workers, outcome, elapsed_ms)
            },
            (awaiting, _) => {
                self.stage = awaiting;
                (none, ScanAction::Await)
            },
        }
    }
}

/// The choice of the next page counts nothing.
proof fn lemma_next_counters(crawl: CrawlView)
    ensures
        crawl.next().0.counters == crawl.counters,
    decreases crawl.queue.len(),
{
    if crawl.queue.len() > 0 {
        lemma_next_counters(CrawlView { queue: crawl.queue.drop_first(), ..crawl });
    }
}

} // verus!
