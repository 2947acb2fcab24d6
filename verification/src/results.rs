//! What a file scan reports.
use vstd::prelude::*;

use crate::extension;
use crate::text::concat3;
use crate::urls::{url_extension, PageUrl, UrlView};
use crate::workers::Ending;

verus! {

/// A file that a scan has found.
#[derive(Debug)]
pub struct FileResult {
    pub url: String,
    pub status: u16,
    pub content_type: String,
    pub size: Option<u64>,
    pub extension: String,
}

/// What a [`FileResult`] stands for.
pub struct FileResultView {
    pub url: Seq<char>,
    pub status: u16,
    pub content_type: Seq<char>,
    pub size: Option<u64>,
    pub extension: Seq<char>,
}

impl View for FileResult {
    type V = FileResultView;

    open spec fn view(&self) -> FileResultView {
        FileResultView {
            url: self.url@,
            status: self.status,
            content_type: self.content_type@,
            size: self.size,
            extension: self.extension@,
        }
    }
}

impl DeepView for FileResult {
    type V = FileResultView;

    open spec fn deep_view(&self) -> FileResultView {
        self@
    }
}

impl Clone for FileResult {
    fn clone(&self) -> (copy: FileResult)
        ensures
            copy@ == self@,
    {
        FileResult {
            url: self.url.clone(),
            status: self.status,
            content_type: self.content_type.clone(),
            size: self.size,
            extension: self.extension.clone(),
        }
    }
}

/// How far a file scan has come.
#[derive(Clone, Copy, Debug, PartialEq, Eq, Structural)]
pub struct FileProgress {
    pub checked: usize,
    pub found: usize,
    pub total: usize,
    pub elapsed_ms: u128,
}

/// A report of a file scan.
#[derive(Debug)]
pub enum FileScanUpdate {
    Started { total: usize },
    Result { result: FileResult },
    Progress { progress: FileProgress },
    Finished { checked: usize, found: usize, elapsed_ms: u128 },
    Error { message: String },
}

/// What a [`FileScanUpdate`] stands for.
pub enum FileUpdateView {
    Started { total: usize },
    Result { result: FileResultView },
    Progress { progress: FileProgress },
    Finished { checked: usize, found: usize, elapsed_ms: u128 },
    Error { message: Seq<char> },
}

impl View for FileScanUpdate {
    type V = FileUpdateView;

    open spec fn view(&self) -> FileUpdateView {
        match *self {
            FileScanUpdate::Started { total } => FileUpdateView::Started { total },
            FileScanUpdate::Result { result } => FileUpdateView::Result { result: result@ },
            FileScanUpdate::Progress { progress } => FileUpdateView::Progress { progress },
            FileScanUpdate::Finished { checked, found, elapsed_ms } => FileUpdateView::Finished {
                checked,
                found,
                elapsed_ms,
            },
            FileScanUpdate::Error { message } => FileUpdateView::Error { message: message@ },
        }
    }
}

impl DeepView for FileScanUpdate {
    type V = FileUpdateView;

    open spec fn deep_view(&self) -> FileUpdateView {
        self@
    }
}

/// How many candidates a scan has checked and how many of them it has found.
/// Both counts start over after the largest number of their type.
#[derive(Clone, Copy, Debug, PartialEq, Eq, Structural)]
pub struct ScanCounters {
    pub checked: usize,
    pub found: usize,
}

/// The count that follows `n`.
pub open spec fn counted_up(n: usize) -> usize {
    if n == usize::MAX {
        0
    } else {
        (n + 1) as usize
    }
}

/// The count that follows `n`.
fn count_up(n: usize) -> (next: usize)
    ensures
        next == counted_up(n),
{
    if n == usize::MAX {
        0
    } else {
        n + 1
    }
}

impl ScanCounters {
    pub open spec fn zero() -> ScanCounters {
        ScanCounters { checked: 0, found: 0 }
    }

    pub open spec fn with_checked(self) -> ScanCounters {
        ScanCounters { checked: counted_up(self.checked), found: self.found }
    }

    pub open spec fn with_found(self) -> ScanCounters {
        ScanCounters { checked: self.checked, found: counted_up(self.found) }
    }

    /// The counts after a candidate that was checked, with or without success.
    pub open spec fn with_outcome(self, found: bool) -> ScanCounters {
        if found {
            self.with_checked().with_found()
        } else {
            self.with_checked()
        }
    }

    /// Counters at zero.
    pub fn new() -> (counters: ScanCounters)
        ensures
            counters == ScanCounters::zero(),
    {
        ScanCounters { checked: 0, found: 0 }
    }

    /// Counts a candidate that was checked.
    pub fn count_checked(&mut self)
        ensures
            *final(self) == old(self).with_checked(),
    {
        self.checked = count_up(self.checked);
    }

    /// Counts a candidate that was found.
    pub fn count_found(&mut self)
        ensures
            *final(self) == old(self).with_found(),
    {
        self.found = count_up(self.found);
    }

    /// Counts a candidate that was checked, with or without success.
    pub fn count_outcome(&mut self, found: bool)
        ensures
            *final(self) == old(self).with_outcome(found),
    {
        self.count_checked();
        if found {
            self.count_found();
        }
    }
}

/// The larger of two numbers.
pub open spec fn larger(a: usize, b: usize) -> usize {
    if a < b {
        b
    } else {
        a
    }
}

/// The progress of a scan that expects `total_hint` candidates, or as many as it has checked
/// where those are more.
pub open spec fn progress_of(
    counters: ScanCounters,
    total_hint: usize,
    elapsed_ms: u128,
) -> FileProgress {
    FileProgress {
        checked: counters.checked,
        found: counters.found,
        total: larger(total_hint, counters.checked),
        elapsed_ms,
    }
}

/// How far a scan has come that expects `total_hint` candidates.
pub fn progress(counters: ScanCounters, total_hint: usize, elapsed_ms: u128) -> (progress:
    FileProgress)
    ensures
        progress == progress_of(counters, total_hint, elapsed_ms),
{
    FileProgress {
        checked: counters.checked,
        found: counters.found,
        total: if total_hint < counters.checked {
            counters.checked
        } else {
            total_hint
        },
        elapsed_ms,
    }
}

/// The report that ends a scan.
pub fn finished(counters: ScanCounters, elapsed_ms: u128) -> (update: FileScanUpdate)
    ensures
        update@ == (FileUpdateView::Finished {
            checked: counters.checked,
            found: counters.found,
            elapsed_ms,
        }),
{
    FileScanUpdate::Finished { checked: counters.checked, found: counters.found, elapsed_ms }
}

/// The report of a response: an extension or a content type that is missing is
/// called unknown.
pub open spec fn reported_file(
    found: UrlView,
    status: u16,
    content_type: Seq<char>,
    size: Option<u64>,
) -> FileResultView {
    FileResultView {
        url: found.text,
        status,
        content_type: if content_type.len() == 0 {
            "unknown"@
        } else {
            content_type
        },
        size,
        extension: match extension::path_extension(found.path) {
            Some(known) => known,
            None => "unknown"@,
        },
    }
}

/// The report of a response.
pub fn file_result(url: &PageUrl, status: u16, content_type: &str, size: Option<u64>) -> (result:
    FileResult)
    ensures
        result@ == reported_file(url@, status, content_type@, size),
{
    FileResult {
        url: url.text().to_owned(),
        status,
        content_type: if content_type.is_empty() {
            "unknown".to_owned()
        } else {
            content_type.to_owned()
        },
        size,
        extension: match url_extension(url) {
            Some(known) => known,
            None => "unknown".to_owned(),
        },
    }
}

/// The report of a directory that was not fetched but holds a known file.
pub open spec fn inferred_directory(found: UrlView) -> FileResultView {
    FileResultView {
        url: found.text,
        status: 0,
        content_type: "inferred directory"@,
        size: None,
        extension: "dir"@,
    }
}

/// The report of a directory that was not fetched but holds a known file.
pub fn inferred_directory_result(url: &PageUrl) -> (result: FileResult)
    ensures
        result@ == inferred_directory(url@),
{
    FileResult {
        url: url.text().to_owned(),
        status: 0,
        content_type: "inferred directory".to_owned(),
        size: None,
        extension: "dir".to_owned(),
    }
}

/// The report of an API endpoint that a page refers to.
pub open spec fn inferred_api(found: UrlView) -> FileResultView {
    FileResultView {
        url: found.text,
        status: 0,
        content_type: "discovered API endpoint"@,
        size: None,
        extension: "api"@,
    }
}

/// The report of an API endpoint that a page refers to.
pub fn inferred_api_result(url: &PageUrl) -> (result: FileResult)
    ensures
        result@ == inferred_api(url@),
{
    FileResult {
        url: url.text().to_owned(),
        status: 0,
        content_type: "discovered API endpoint".to_owned(),
        size: None,
        extension: "api".to_owned(),
    }
}

/// The message where no HTTP client could be made.
pub fn client_error_message(detail: &str) -> (message: String)
    ensures
        message@ == "Failed to create HTTP client: "@ + detail@,
{
    let mut message = "Failed to create HTTP client: ".to_owned();
    message.append(detail);
    message
}

/// The message where a worker ended before its time.
pub fn worker_error_message(detail: &str) -> (message: String)
    ensures
        message@ == "Worker failed: "@ + detail@,
{
    let mut message = "Worker failed: ".to_owned();
    message.append(detail);
    message
}

/// The message where a page could not be fetched.
pub open spec fn fetch_error(page: Seq<char>, detail: Seq<char>) -> Seq<char> {
    "Failed to fetch "@ + page + ": "@ + detail
}

/// The message where a page could not be fetched.
pub fn fetch_error_message(page: &str, detail: &str) -> (message: String)
    ensures
        message@ == fetch_error(page@, detail@),
{
    let mut message = concat3("Failed to fetch ", page, ": ");
    message.append(detail);
    message
}

/// How the work on one candidate ended.
#[derive(Debug)]
pub enum WorkerOutcome {
    /// It was found.
    Found(FileResult),
    /// It was not found.
    Nothing,
    /// The worker ended before its time, for this reason.
    Failed(String),
}

impl WorkerOutcome {
    pub open spec fn kind(self) -> Ending {
        match self {
            WorkerOutcome::Found(_) => Ending::Found,
            WorkerOutcome::Nothing => Ending::Nothing,
            WorkerOutcome::Failed(_) => Ending::Failed,
        }
    }

    /// How the worker ended.
    pub fn ending(&self) -> (ending: Ending)
        ensures
            ending == self.kind(),
    {
        match self {
            WorkerOutcome::Found(_) => Ending::Found,
            WorkerOutcome::Nothing => Ending::Nothing,
            WorkerOutcome::Failed(_) => Ending::Failed,
        }
    }
}

/// The reports that the end of a worker brings: what it found or why it
/// failed, if anything, and then the progress.
pub open spec fn worker_reports(
    outcome: WorkerOutcome,
    counters: ScanCounters,
    total_hint: usize,
    elapsed_ms: u128,
) -> Seq<FileUpdateView> {
    let progress = FileUpdateView::Progress {
        progress: progress_of(counters, total_hint, elapsed_ms),
    };
    match outcome {
        WorkerOutcome::Found(result) => seq![FileUpdateView::Result { result: result@ }, progress],
        WorkerOutcome::Nothing => seq![progress],
        WorkerOutcome::Failed(detail) => seq![
            FileUpdateView::Error { message: "Worker failed: "@ + detail@ },
            progress,
        ],
    }
}

/// The reports that the end of a worker brings.
pub fn worker_updates(
    outcome: WorkerOutcome,
    counters: ScanCounters,
    total_hint: usize,
    elapsed_ms: u128,
) -> (updates: Vec<FileScanUpdate>)
    ensures
        updates.deep_view() == worker_reports(outcome, counters, total_hint, elapsed_ms),
{
    let ghost given = outcome;
    let mut updates: Vec<FileScanUpdate> = Vec::new();
    match outcome {
        WorkerOutcome::Found(result) => {
            updates.push(FileScanUpdate::Result { result });
        },
        WorkerOutcome::Nothing => {},
        WorkerOutcome::Failed(detail) => {
            updates.push(FileScanUpdate::Error { message: worker_error_message(detail.as_str()) });
        },
    }
    updates.push(FileScanUpdate::Progress { progress: progress(counters, total_hint, elapsed_ms) });
    assert(updates.deep_view() =~= worker_reports(given, counters, total_hint, elapsed_ms));
    updates
}

} // verus!
