//! The crawl of a file scan: which pages are fetched, what is reported of
//! them, and which files are left to check.
use std::collections::VecDeque;

use vstd::hash_set::StringHashSet;
use vstd::prelude::*;

use crate::brute;
use crate::brute::brute_force_urls;
use crate::content;
use crate::content::{should_emit_file, should_parse_for_links};
use crate::html;
use crate::html::extract_links;
use crate::json;
use crate::manifest;
use crate::manifest::extract_manifest_media;
use crate::options;
use crate::options::{selected_extensions, FilePreset, FilePresetView, FileScanOptions};
use crate::references;
use crate::references::extract_text_references;
use crate::results;
use crate::results::{
    fetch_error_message, file_result, inferred_api_result, inferred_directory_result, progress,
    FileScanUpdate, FileUpdateView, ScanCounters,
};
use crate::soft404;
use crate::soft404::header_text;
use crate::text;
use crate::text::same_text;
use crate::urls;
use crate::urls::{
    is_api_endpoint, is_editable, is_media_url, normalize_base_url, parent_directory_url,
    same_origin, should_crawl_url, PageUrl, UrlView,
};

verus! {

/// The word lists of a file scan.
#[derive(Debug)]
pub struct FileWordlists {
    /// The patterns of the paths that are tried.
    pub paths: Vec<String>,
    /// The named groups of extensions.
    pub presets: Vec<FilePreset>,
    /// The directories that media files are looked for in.
    pub media_directories: Vec<String>,
}

/// A page to fetch, and how many links lead to it from the base.
#[derive(Debug)]
pub struct PageVisit {
    pub url: PageUrl,
    pub depth: usize,
}

/// What a [`PageVisit`] stands for.
pub struct VisitView {
    pub url: UrlView,
    pub depth: usize,
}

impl DeepView for PageVisit {
    type V = VisitView;

    open spec fn deep_view(&self) -> VisitView {
        VisitView { url: self.url@, depth: self.depth }
    }
}

/// What is known of the answer to a request for a page before its body is
/// read. A content type is given where it is there and could be read.
#[derive(Debug)]
pub struct PageHead {
    pub status: u16,
    pub content_type: Option<String>,
    pub content_length: Option<u64>,
}

/// What a [`PageHead`] stands for.
pub struct PageHeadView {
    pub status: u16,
    pub content_type: Option<Seq<char>>,
    pub content_length: Option<u64>,
}

impl View for PageHead {
    type V = PageHeadView;

    open spec fn view(&self) -> PageHeadView {
        PageHeadView {
            status: self.status,
            content_type: self.content_type.deep_view(),
            content_length: self.content_length,
        }
    }
}

/// The state of a crawl.
pub struct CrawlView {
    pub base: UrlView,
    pub extensions: Seq<Seq<char>>,
    pub everything: bool,
    pub max_depth: usize,
    pub total_hint: usize,
    /// The pages that are still to be fetched.
    pub queue: Seq<VisitView>,
    /// The texts of the URLs that were fetched or handed out as candidates.
    pub seen: Set<Seq<char>>,
    /// The texts of the URLs that were reported without being fetched.
    pub inferred: Set<Seq<char>>,
    /// The files that are still to be checked.
    pub planned: Seq<UrlView>,
    pub counters: ScanCounters,
}

/// The texts of some URLs.
pub open spec fn texts_of(found: Seq<UrlView>) -> Seq<Seq<char>> {
    found.map_values(|one: UrlView| one.text)
}

/// The URLs whose texts are not in `seen`, each once, where it stands first.
pub open spec fn unseen_once(found: Seq<UrlView>, seen: Set<Seq<char>>) -> Seq<UrlView>
    decreases found.len(),
{
    if found.len() == 0 {
        Seq::empty()
    } else {
        let before = unseen_once(found.drop_last(), seen);
        if seen.contains(found.last().text) || texts_of(found.drop_last()).contains(
            found.last().text,
        ) {
            before
        } else {
            before.push(found.last())
        }
    }
}

/// The directory of a URL, where the URL is short enough to be edited.
pub open spec fn directory_of(file: UrlView) -> Option<UrlView> {
    if urls::editable(file) {
        urls::directory_if_any(file)
    } else {
        None
    }
}

/// The URLs that a page refers to: in its elements, in its text, and as a
/// manifest of media files.
pub open spec fn page_links(
    base: UrlView,
    page: UrlView,
    body: Seq<char>,
    directories: Seq<Seq<char>>,
) -> Seq<UrlView> {
    html::linked_urls(page, body) + references::referenced_urls(page, body)
        + manifest::manifest_urls(base, page, json::json_document(body), directories)
}

impl CrawlView {
    /// The state before the first page is fetched.
    pub open spec fn started(
        base: UrlView,
        extensions: Seq<Seq<char>>,
        everything: bool,
        crawl: bool,
        max_depth: usize,
        planned: Seq<UrlView>,
    ) -> CrawlView {
        CrawlView {
            base,
            extensions,
            everything,
            max_depth,
            total_hint: planned.len() as usize,
            queue: if crawl {
                seq![VisitView { url: base, depth: 0 }]
            } else {
                Seq::empty()
            },
            seen: Set::empty(),
            inferred: Set::empty(),
            planned,
            counters: ScanCounters::zero(),
        }
    }

    /// The first page of the queue that was not seen, if there is one. It and
    /// the pages before it leave the queue, and it is seen from now on.
    pub open spec fn next(self) -> (CrawlView, Option<VisitView>)
        decreases self.queue.len(),
    {
        if self.queue.len() == 0 {
            (self, None)
        } else {
            let visit = self.queue.first();
            let rest = CrawlView { queue: self.queue.drop_first(), ..self };
            if self.seen.contains(visit.url.text) {
                rest.next()
            } else {
                (CrawlView { seen: self.seen.insert(visit.url.text), ..rest }, Some(visit))
            }
        }
    }

    /// A page was answered: it is counted, and reported where it is worth it.
    pub open spec fn fetched(self, page: UrlView, head: PageHeadView) -> (
        CrawlView,
        Seq<FileUpdateView>,
    ) {
        let content_type = soft404::header_or_empty(head.content_type);
        if content::worth_reporting(page.path, self.extensions, self.everything, content_type) {
            (
                CrawlView { counters: self.counters.with_checked().with_found(), ..self },
                seq![
                    FileUpdateView::Result {
                        result: results::reported_file(
                            page,
                            head.status,
                            content_type,
                            head.content_length,
                        ),
                    },
                ],
            )
        } else {
            (CrawlView { counters: self.counters.with_checked(), ..self }, Seq::empty())
        }
    }

    /// Whether the body of a page is read for links: not too deep, answered
    /// with success, and of a type that can hold links.
    pub open spec fn reads_body(self, visit: VisitView, head: PageHeadView) -> bool {
        &&& visit.depth <= self.max_depth
        &&& 200 <= head.status <= 299
        &&& content::parsed_for_links(
            visit.url.path,
            soft404::header_or_empty(head.content_type),
        )
    }

    /// Reports a URL that is not fetched, unless it was reported before.
    pub open spec fn infer(self, found: Seq<char>, result: results::FileResultView) -> (
        CrawlView,
        Seq<FileUpdateView>,
    ) {
        if self.inferred.contains(found) {
            (self, Seq::empty())
        } else {
            (
                CrawlView {
                    inferred: self.inferred.insert(found),
                    counters: self.counters.with_found(),
                    ..self
                },
                seq![FileUpdateView::Result { result }],
            )
        }
    }

    /// A link to an API endpoint is reported.
    pub open spec fn infer_api(self, link: UrlView) -> (CrawlView, Seq<FileUpdateView>) {
        if "/api/"@.is_prefix_of(link.path) {
            self.infer(link.text, results::inferred_api(link))
        } else {
            (self, Seq::empty())
        }
    }

    /// The directory of a link to a media file is reported, unless it is the
    /// base itself.
    pub open spec fn infer_directory(self, link: UrlView, directory: Option<UrlView>) -> (
        CrawlView,
        Seq<FileUpdateView>,
    ) {
        match directory {
            Some(found) => if urls::media_path(link.path) && found.text != self.base.text {
                self.infer(found.text, results::inferred_directory(found))
            } else {
                (self, Seq::empty())
            },
            None => (self, Seq::empty()),
        }
    }

    /// A link is queued where it is a page and not too deep, else planned to be
    /// checked where it is worth reporting.
    pub open spec fn place(self, depth: usize, link: UrlView) -> CrawlView {
        if urls::crawled_path(link.path) && depth < self.max_depth {
            CrawlView {
                queue: self.queue.push(VisitView { url: link, depth: (depth + 1) as usize }),
                ..self
            }
        } else if content::worth_reporting(
            link.path,
            self.extensions,
            self.everything,
            Seq::empty(),
        ) {
            CrawlView { planned: self.planned.push(link), ..self }
        } else {
            self
        }
    }

    /// A page at some depth has a link, which lies in a directory. One that
    /// leads to another origin, or that was seen, changes nothing.
    pub open spec fn follow(self, depth: usize, link: UrlView, directory: Option<UrlView>) -> (
        CrawlView,
        Seq<FileUpdateView>,
    ) {
        if !urls::on_same_origin(self.base, link) || self.seen.contains(link.text) {
            (self, Seq::empty())
        } else {
            let (with_api, api) = self.infer_api(link);
            let (with_directory, parent) = with_api.infer_directory(link, directory);
            (with_directory.place(depth, link), api + parent)
        }
    }

    /// A page at some depth has some links, in order.
    pub open spec fn follow_all(self, depth: usize, links: Seq<UrlView>) -> (
        CrawlView,
        Seq<FileUpdateView>,
    )
        decreases links.len(),
    {
        if links.len() == 0 {
            (self, Seq::empty())
        } else {
            let (before, reports) = self.follow_all(depth, links.drop_last());
            let (after, more) = before.follow(depth, links.last(), directory_of(links.last()));
            (after, reports + more)
        }
    }

    /// A page was not answered: it is counted, and the reason reported.
    pub open spec fn failed(self, page: UrlView, detail: Seq<char>) -> (
        CrawlView,
        Seq<FileUpdateView>,
    ) {
        (
            CrawlView { counters: self.counters.with_checked(), ..self },
            seq![FileUpdateView::Error { message: results::fetch_error(page.text, detail) }],
        )
    }

    /// The planned files that were not seen are handed out, each once; all
    /// planned files are seen from now on, and none is left.
    pub open spec fn handed_out(self) -> (CrawlView, Seq<UrlView>) {
        (
            CrawlView {
                seen: self.seen.union(texts_of(self.planned).to_set()),
                planned: Seq::empty(),
                ..self
            },
            unseen_once(self.planned, self.seen),
        )
    }
}

/// Whether the URL that a text parses to, where it is one, lies on the origin of
/// a base.
pub open spec fn lies_on_origin(base: UrlView, found: Seq<char>) -> bool {
    match urls::parsed_url(found) {
        Ok(of) => urls::on_same_origin(base, of),
        Err(_) => true,
    }
}

/// Whether the URLs of all results among some reports lie on the origin of a
/// base.
pub open spec fn results_on_origin(base: UrlView, reports: Seq<FileUpdateView>) -> bool {
    forall|i: int|
        0 <= i < reports.len() ==> match #[trigger] reports[i] {
            FileUpdateView::Result { result } => lies_on_origin(base, result.url),
            _ => true,
        }
}

/// What is inferred from a link to the origin of the web lies on that origin.
proof fn lemma_follow_on_origin(crawl: CrawlView, depth: usize, link: UrlView)
    requires
        urls::on_web(crawl.base),
        urls::reads_back(link),
        urls::reads_back_if_any(directory_of(link)),
    ensures
        results_on_origin(crawl.base, crawl.follow(depth, link, directory_of(link)).1),
        crawl.follow(depth, link, directory_of(link)).0.base == crawl.base,
{
}

/// What is inferred from links to the origin of the web lies on that origin.
proof fn lemma_follow_all_on_origin(crawl: CrawlView, depth: usize, links: Seq<UrlView>)
    requires
        urls::on_web(crawl.base),
        urls::all_read_back(links),
        forall|i: int|
            0 <= i < links.len() ==> urls::reads_back_if_any(directory_of(#[trigger] links[i])),
    ensures
        results_on_origin(crawl.base, crawl.follow_all(depth, links).1),
        crawl.follow_all(depth, links).0.base == crawl.base,
    decreases links.len(),
{
    if links.len() > 0 {
        let rest = links.drop_last();
        assert forall|i: int| 0 <= i < rest.len() implies urls::reads_back(#[trigger] rest[i])
            && urls::reads_back_if_any(directory_of(rest[i])) by {
            assert(rest[i] == links[i]);
        }
        assert(links.last() == links[links.len() - 1]);
        lemma_follow_all_on_origin(crawl, depth, rest);
        lemma_follow_on_origin(crawl.follow_all(depth, rest).0, depth, links.last());
    }
}

/// A crawl in progress. It says which page to fetch next and takes what came
/// back; the requests themselves are made elsewhere.
pub struct FileCrawl {
    base: PageUrl,
    extensions: Vec<String>,
    everything: bool,
    max_depth: usize,
    total_hint: usize,
    queue: VecDeque<PageVisit>,
    seen: StringHashSet,
    inferred: StringHashSet,
    planned: Vec<PageUrl>,
    counters: ScanCounters,
}

impl View for FileCrawl {
    type V = CrawlView;

    closed spec fn view(&self) -> CrawlView {
        CrawlView {
            base: self.base@,
            extensions: self.extensions.deep_view(),
            everything: self.everything,
            max_depth: self.max_depth,
            total_hint: self.total_hint,
            queue: self.queue.deep_view(),
            seen: self.seen@,
            inferred: self.inferred@,
            planned: self.planned.deep_view(),
            counters: self.counters,
        }
    }
}

/// Whether a crawl stands at its start for a base and some options: with the
/// extensions that the options select, in some order, and the URLs that are
/// tried with them.
pub open spec fn starts_from(
    crawl: CrawlView,
    base: UrlView,
    options: FileScanOptions,
    paths: Seq<Seq<char>>,
    presets: Seq<FilePresetView>,
) -> bool {
    &&& options::lists_once(
        crawl.extensions,
        options::named_extensions(
            presets,
            options.presets.deep_view(),
            options.custom_extensions.deep_view(),
        ),
    )
    &&& crawl == CrawlView::started(
        base,
        crawl.extensions,
        options.scan_everything,
        options.crawl,
        options.max_depth,
        if options.brute_force {
            brute::tried_urls(
                base,
                paths,
                presets,
                crawl.extensions,
                options.scan_everything,
            )
        } else {
            Seq::empty()
        },
    )
}

impl FileCrawl {
    /// A crawl of a base.
    pub fn from_base(base: PageUrl, options: &FileScanOptions, wordlists: &FileWordlists) -> (crawl:
        FileCrawl)
        ensures
            starts_from(
                crawl@,
                base@,
                *options,
                wordlists.paths.deep_view(),
                wordlists.presets.deep_view(),
            ),
    {
        let extensions = selected_extensions(options, &wordlists.presets);
        let planned = if options.brute_force {
            brute_force_urls(
                &base,
                &wordlists.paths,
                &wordlists.presets,
                &extensions,
                options.scan_everything,
            )
        } else {
            let none: Vec<PageUrl> = Vec::new();
            assert(none.deep_view() =~= Seq::empty());
            none
        };
        let mut queue: VecDeque<PageVisit> = VecDeque::new();
        if options.crawl {
            queue.push_back(PageVisit { url: base.clone(), depth: 0 });
            assert(queue.deep_view() =~= seq![VisitView { url: base@, depth: 0 }]);
        } else {
            assert(queue.deep_view() =~= Seq::empty());
        }
        let total_hint: usize = planned.len();
        FileCrawl {
            base,
            extensions,
            everything: options.scan_everything,
            max_depth: options.max_depth,
            total_hint,
            queue,
            seen: StringHashSet::new(),
            inferred: StringHashSet::new(),
            planned,
            counters: ScanCounters::new(),
        }
    }

    /// A crawl of the URL that the options name, or a message that says why
    /// there is none.
    pub fn start(options: &FileScanOptions, wordlists: &FileWordlists) -> (crawl: Result<
        FileCrawl,
        String,
    >)
        ensures
            match urls::base_outcome(urls::parsed_url(urls::base_text(options.base_url@))) {
                Ok(base) => crawl matches Ok(started) && starts_from(
                    started@,
                    base,
                    *options,
                    wordlists.paths.deep_view(),
                    wordlists.presets.deep_view(),
                ),
                Err(message) => crawl matches Err(given) && given@ == message,
            },
            crawl matches Ok(started) ==> urls::on_web(started@.base),
    {
        match normalize_base_url(options.base_url.as_str()) {
            Ok(base) => Ok(FileCrawl::from_base(base, options, wordlists)),
            Err(message) => Err(message),
        }
    }

    /// The base of the crawl.
    pub fn base(&self) -> (base: &PageUrl)
        ensures
            base@ == self@.base,
    {
        &self.base
    }

    /// The extensions that are looked for.
    pub fn extensions(&self) -> (extensions: &Vec<String>)
        ensures
            extensions.deep_view() == self@.extensions,
    {
        &self.extensions
    }

    /// What has been counted so far.
    pub fn counters(&self) -> (counters: ScanCounters)
        ensures
            counters == self@.counters,
    {
        self.counters
    }

    /// Counts a candidate that was checked, with or without success.
    pub fn count_candidate(&mut self, found: bool)
        ensures
            final(self)@ == (CrawlView {
                counters: old(self)@.counters.with_outcome(found),
                ..old(self)@
            }),
    {
        self.counters.count_outcome(found);
    }

    /// The number of URLs that were planned at the start.
    pub fn total_hint(&self) -> (total: usize)
        ensures
            total == self@.total_hint,
    {
        self.total_hint
    }

    /// The report that begins a scan.
    pub fn started(&self) -> (update: FileScanUpdate)
        ensures
            update@ == (FileUpdateView::Started { total: self@.total_hint }),
    {
        FileScanUpdate::Started { total: self.total_hint }
    }

    /// How far the crawl has come.
    pub fn progress(&self, elapsed_ms: u128) -> (update: FileScanUpdate)
        ensures
            update@ == (FileUpdateView::Progress {
                progress: results::progress_of(self@.counters, self@.total_hint, elapsed_ms),
            }),
    {
        FileScanUpdate::Progress { progress: progress(self.counters, self.total_hint, elapsed_ms) }
    }

    /// The next page to fetch. No page comes twice.
    pub fn next_page(&mut self) -> (visit: Option<PageVisit>)
        ensures
            old(self)@.next() == (final(self)@, visit.deep_view()),
    {
        let ghost start = self@;
        loop
            invariant
                start == old(self)@,
                start.next() == self@.next(),
            decreases self.queue@.len(),
        {
            let ghost before = self@;
            match self.queue.pop_front() {
                Some(visit) => {
                    assert(before.queue.first() == visit.deep_view());
                    assert(self.queue.deep_view() =~= before.queue.drop_first());
                    if self.seen.insert(visit.url.text().to_owned()) {
                        return Some(visit);
                    }
                    assert(self.seen@ =~= before.seen);
                },
                None => {
                    assert(self.queue.deep_view() =~= before.queue);
                    return None;
                },
            }
        }
    }

    /// A page was answered; gives the report of it, if there is one.
    pub fn page_fetched(&mut self, page: &PageUrl, head: &PageHead) -> (updates: Vec<FileScanUpdate>)
        ensures
            old(self)@.fetched(page@, head@) == (final(self)@, updates.deep_view()),
    {
        let mut updates: Vec<FileScanUpdate> = Vec::new();
        let content_type = header_text(&head.content_type);
        self.counters.count_checked();
        if should_emit_file(page, &self.extensions, self.everything, content_type.as_str()) {
            self.counters.count_found();
            updates.push(
                FileScanUpdate::Result {
                    result: file_result(
                        page,
                        head.status,
                        content_type.as_str(),
                        head.content_length,
                    ),
                },
            );
        }
        assert(updates.deep_view() =~= old(self)@.fetched(page@, head@).1);
        updates
    }

    /// Whether the body of a page is read for links.
    pub fn wants_body(&self, visit: &PageVisit, head: &PageHead) -> (wanted: bool)
        ensures
            wanted == self@.reads_body(visit.deep_view(), head@),
    {
        let content_type = header_text(&head.content_type);
        visit.depth <= self.max_depth && 200 <= head.status && head.status <= 299
            && should_parse_for_links(&visit.url, content_type.as_str())
    }

    /// A page was not answered; gives the report of the reason.
    pub fn page_failed(&mut self, page: &PageUrl, detail: &str) -> (updates: Vec<FileScanUpdate>)
        ensures
            old(self)@.failed(page@, detail@) == (final(self)@, updates.deep_view()),
    {
        let mut updates: Vec<FileScanUpdate> = Vec::new();
        self.counters.count_checked();
        updates.push(
            FileScanUpdate::Error { message: fetch_error_message(page.text(), detail) },
        );
        assert(updates.deep_view() =~= old(self)@.failed(page@, detail@).1);
        updates
    }

    /// Takes a link of a page at some depth, with the directory that it lies
    /// in; gives what is reported of the two.
    pub fn follow_link(&mut self, depth: usize, link: &PageUrl, directory: Option<PageUrl>) -> (
    updates: Vec<FileScanUpdate>)
        ensures
            old(self)@.follow(depth, link@, directory.deep_view()) == (
                final(self)@,
                updates.deep_view(),
            ),
    {
        let ghost start = self@;
        let ghost given = directory.deep_view();
        let mut updates: Vec<FileScanUpdate> = Vec::new();
        if !same_origin(&self.base, link) || self.seen.contains(link.text()) {
            assert(updates.deep_view() =~= Seq::empty());
            return updates;
        }
        if is_api_endpoint(link) && self.inferred.insert(link.text().to_owned()) {
            self.counters.count_found();
            updates.push(FileScanUpdate::Result { result: inferred_api_result(link) });
        }
        let ghost middle = start.infer_api(link@);
        assert(self@.inferred =~= middle.0.inferred);
        assert(self@ == middle.0);
        assert(updates.deep_view() =~= middle.1);
        if let Some(found) = directory {
            if is_media_url(link) && !same_text(found.text(), self.base.text())
                && self.inferred.insert(found.text().to_owned()) {
                self.counters.count_found();
                updates.push(FileScanUpdate::Result { result: inferred_directory_result(&found) });
            }
        }
        let ghost later = middle.0.infer_directory(link@, given);
        assert(self@.inferred =~= later.0.inferred);
        assert(self@ == later.0);
        assert(updates.deep_view() =~= middle.1 + later.1);
        if should_crawl_url(link) && depth < self.max_depth {
            self.queue.push_back(PageVisit { url: link.clone(), depth: depth + 1 });
            assert(self@.queue =~= later.0.place(depth, link@).queue);
        } else if should_emit_file(link, &self.extensions, self.everything, "") {
            proof {
                reveal_strlit("");
                assert(""@ =~= Seq::empty());
            }
            self.planned.push(link.clone());
            assert(self@.planned =~= later.0.place(depth, link@).planned);
        } else {
            proof {
                reveal_strlit("");
                assert(""@ =~= Seq::empty());
            }
        }
        assert(self@ == later.0.place(depth, link@));
        updates
    }

    /// Takes the links of a page at some depth, in order; gives what is
    /// reported of them.
    pub fn follow_links(&mut self, depth: usize, links: &Vec<PageUrl>) -> (updates: Vec<
        FileScanUpdate,
    >)
        ensures
            old(self)@.follow_all(depth, links.deep_view()) == (
                final(self)@,
                updates.deep_view(),
            ),
            forall|i: int|
                0 <= i < links.deep_view().len() ==> urls::reads_back_if_any(
                    directory_of(#[trigger] links.deep_view()[i]),
                ),
    {
        let ghost start = self@;
        let ghost all = links.deep_view();
        let mut updates: Vec<FileScanUpdate> = Vec::new();
        assert(updates.deep_view() =~= Seq::empty());
        let mut i: usize = 0;
        while i < links.len()
            invariant
                i <= links.len(),
                all == links.deep_view(),
                start.follow_all(depth, all.take(i as int)) == (self@, updates.deep_view()),
                forall|j: int|
                    0 <= j < i ==> urls::reads_back_if_any(directory_of(#[trigger] all[j])),
            decreases links.len() - i,
        {
            let ghost before = updates.deep_view();
            let link = &links[i];
            assert(all.take(i + 1).drop_last() =~= all.take(i as int));
            assert(all.take(i + 1).last() == link@);
            let directory = if is_editable(link) {
                parent_directory_url(link)
            } else {
                None
            };
            let mut more = self.follow_link(depth, link, directory);
            let ghost added = more.deep_view();
            updates.append(&mut more);
            assert(updates.deep_view() =~= before + added);
            i += 1;
        }
        assert(all.take(i as int) =~= all);
        updates
    }

    /// Takes the body of a page; gives what is reported of its links. In a crawl
    /// of the web that lies on the origin of the base.
    pub fn page_body(&mut self, visit: &PageVisit, body: &str, media_directories: &Vec<String>) -> (
    updates: Vec<FileScanUpdate>)
        requires
            text::byte_len(body@) <= html::MAX_DOCUMENT_BYTES,
        ensures
            old(self)@.follow_all(
                visit.depth,
                page_links(
                    old(self)@.base,
                    visit.url@,
                    body@,
                    media_directories.deep_view(),
                ),
            ) == (final(self)@, updates.deep_view()),
            urls::on_web(old(self)@.base) ==> results_on_origin(
                old(self)@.base,
                updates.deep_view(),
            ),
    {
        let mut links = extract_links(&visit.url, body);
        let ghost first = links.deep_view();
        let mut in_text = extract_text_references(&visit.url, body);
        let ghost second = in_text.deep_view();
        let mut in_manifest = extract_manifest_media(
            &self.base,
            &visit.url,
            body,
            media_directories,
        );
        let ghost third = in_manifest.deep_view();
        links.append(&mut in_text);
        assert(links.deep_view() =~= first + second);
        links.append(&mut in_manifest);
        assert(links.deep_view() =~= first + second + third);
        let updates = self.follow_links(visit.depth, &links);
        proof {
            if urls::on_web(old(self)@.base) {
                lemma_follow_all_on_origin(old(self)@, visit.depth, links.deep_view());
            }
        }
        updates
    }

    /// Hands out the files that are left to check: those that were not seen,
    /// each once.
    pub fn take_candidates(&mut self) -> (candidates: Vec<PageUrl>)
        ensures
            old(self)@.handed_out() == (final(self)@, candidates.deep_view()),
    {
        let ghost start = self@;
        let ghost all = start.planned;
        let mut candidates: Vec<PageUrl> = Vec::new();
        assert(candidates.deep_view() =~= unseen_once(all.take(0), start.seen));
        assert(self.seen@ =~= start.seen.union(texts_of(all.take(0)).to_set()));
        let mut i: usize = 0;
        while i < self.planned.len()
            invariant
                i <= self.planned.len(),
                all == start.planned,
                self@ == (CrawlView { seen: self@.seen, ..start }),
                self@.seen == start.seen.union(texts_of(all.take(i as int)).to_set()),
                candidates.deep_view() == unseen_once(all.take(i as int), start.seen),
            decreases self.planned.len() - i,
        {
            let ghost before = candidates.deep_view();
            let ghost done = all.take(i as int);
            let url = self.planned[i].clone();
            assert(all[i as int] == url@);
            assert(all.take(i + 1).drop_last() =~= done);
            assert(all.take(i + 1).last() == url@);
            assert(texts_of(all.take(i + 1)) =~= texts_of(done).push(url@.text));
            let fresh = self.seen.insert(url.text().to_owned());
            assert(self.seen@ =~= start.seen.union(texts_of(all.take(i + 1)).to_set())) by {
                assert forall|item: Seq<char>|
                    texts_of(all.take(i + 1)).contains(item) <==> texts_of(done).contains(item)
                        || item == url@.text by {
                    text::lemma_push_contains(texts_of(done), url@.text, item);
                }
            }
            if fresh {
                candidates.push(url);
                assert(candidates.deep_view() =~= before.push(all[i as int]));
            }
            i += 1;
        }
        assert(all.take(i as int) =~= all);
        self.planned = Vec::new();
        assert(self.planned.deep_view() =~= Seq::empty());
        candidates
    }
}

} // verus!
