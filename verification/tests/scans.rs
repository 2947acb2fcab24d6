use std::time::Duration;

use domain_scanner::crawl::{FileCrawl, FileWordlists, PageHead, PageVisit};
use domain_scanner::options::{FilePreset, FileScanOptions};
use domain_scanner::results::{file_result, FileScanUpdate, WorkerOutcome};
use domain_scanner::scan::{FileScan, ScanAction, ScanEvent};
use domain_scanner::urls::{normalize_base_url, PageUrl};

fn url(text: &str) -> PageUrl {
    normalize_base_url(text).expect("a URL")
}

fn texts(items: &[&str]) -> Vec<String> {
    items.iter().map(|item| item.to_string()).collect()
}

fn wordlists() -> FileWordlists {
    FileWordlists {
        paths: texts(&["robots.txt", "backup.{ext}"]),
        presets: vec![FilePreset { key: "video".to_owned(), extensions: texts(&["mp4"]) }],
        media_directories: texts(&["media"]),
    }
}

fn options(max_depth: usize) -> FileScanOptions {
    FileScanOptions {
        base_url: "https://x.y/".to_owned(),
        presets: texts(&["video"]),
        custom_extensions: texts(&[]),
        scan_everything: false,
        brute_force: true,
        crawl: true,
        max_depth,
        concurrency: 2,
        timeout: Duration::from_secs(1),
    }
}

fn crawl(max_depth: usize) -> FileCrawl {
    FileCrawl::start(&options(max_depth), &wordlists()).expect("a crawl")
}

fn head(status: u16, content_type: &str) -> PageHead {
    PageHead { status, content_type: Some(content_type.to_owned()), content_length: Some(12) }
}

/// A report in few words.
fn shown(update: &FileScanUpdate) -> String {
    match update {
        FileScanUpdate::Started { total } => format!("started {total}"),
        FileScanUpdate::Result { result } => format!(
            "{} {} {} {:?} {}",
            result.url, result.status, result.content_type, result.size, result.extension,
        ),
        FileScanUpdate::Progress { progress } => format!(
            "{}/{} found {} at {}",
            progress.checked, progress.total, progress.found, progress.elapsed_ms,
        ),
        FileScanUpdate::Finished { checked, found, elapsed_ms } => {
            format!("finished {checked} {found} {elapsed_ms}")
        }
        FileScanUpdate::Error { message } => format!("error {message}"),
    }
}

fn all_shown(updates: &[FileScanUpdate]) -> Vec<String> {
    updates.iter().map(shown).collect()
}

fn action_shown(action: &ScanAction) -> String {
    match action {
        ScanAction::Fetch { url } => format!("fetch {}", url.text()),
        ScanAction::ReadBody => "read".to_owned(),
        ScanAction::Check { candidates } => {
            let found: Vec<&str> = candidates.iter().map(|one| one.text()).collect();
            format!("check {}", found.join(" "))
        }
        ScanAction::Await => "await".to_owned(),
        ScanAction::Done => "done".to_owned(),
    }
}

fn step(scan: &mut FileScan, event: ScanEvent, elapsed_ms: u128) -> (Vec<String>, String) {
    let (updates, action) = scan.step(event, elapsed_ms);
    (all_shown(&updates), action_shown(&action))
}

fn body(content: &str) -> ScanEvent {
    ScanEvent::Body { content: content.to_owned() }
}

#[test]
fn crawls_start_from_their_options() {
    let started = crawl(2);
    assert_eq!(started.base().text(), "https://x.y/");
    assert_eq!(started.extensions(), &texts(&["mp4"]));
    assert_eq!(started.total_hint(), 2);
    assert_eq!(shown(&started.started()), "started 2");
    assert_eq!(shown(&started.progress(9)), "0/2 found 0 at 9");
    assert_eq!(started.counters().checked, 0);
}

#[test]
fn crawls_need_a_base() {
    let wrong = FileScanOptions { base_url: "https://".to_owned(), ..options(2) };
    let message = FileCrawl::start(&wrong, &wordlists()).err().expect("a message");
    assert_eq!(message, "Enter a valid URL: empty host");
    let message = FileScan::start(&wrong, &wordlists()).err().expect("a message");
    assert_eq!(message, "Enter a valid URL: empty host");
}

#[test]
fn pages_come_once_and_in_order() {
    let mut crawl = crawl(2);
    let first = crawl.next_page().expect("the base");
    assert_eq!((first.url.text(), first.depth), ("https://x.y/", 0));
    assert!(crawl.next_page().is_none());
    let links = vec![url("https://x.y/a"), url("https://x.y/b"), url("https://x.y/a"), url("https://x.y/")];
    assert!(crawl.follow_links(0, &links).is_empty());
    let page = crawl.next_page().expect("a page");
    assert_eq!((page.url.text(), page.depth), ("https://x.y/a", 1));
    let page = crawl.next_page().expect("a page");
    assert_eq!(page.url.text(), "https://x.y/b");
    assert!(crawl.next_page().is_none());
}

#[test]
fn fetched_pages_are_counted_and_reported() {
    let mut crawl = crawl(2);
    assert!(crawl.page_fetched(&url("https://x.y/"), &head(200, "text/html")).is_empty());
    let updates = crawl.page_fetched(&url("https://x.y/a.mp4"), &head(404, "text/html"));
    assert_eq!(all_shown(&updates), vec!["https://x.y/a.mp4 404 text/html Some(12) mp4"]);
    assert_eq!((crawl.counters().checked, crawl.counters().found), (2, 1));
}

#[test]
fn failed_pages_are_counted_and_explained() {
    let mut crawl = crawl(2);
    let updates = crawl.page_failed(&url("https://x.y/a"), "timed out");
    assert_eq!(all_shown(&updates), vec!["error Failed to fetch https://x.y/a: timed out"]);
    assert_eq!((crawl.counters().checked, crawl.counters().found), (1, 0));
}

#[test]
fn bodies_are_read_of_shallow_pages_with_success() {
    let crawl = crawl(1);
    let visit = |path: &str, depth: usize| PageVisit {
        url: url(&format!("https://x.y/{path}")),
        depth,
    };
    assert!(crawl.wants_body(&visit("", 1), &head(200, "text/html")));
    assert!(crawl.wants_body(&visit("", 0), &head(299, "text/html")));
    assert!(crawl.wants_body(&visit("a.js", 0), &head(200, "")));
    assert!(!crawl.wants_body(&visit("", 2), &head(200, "text/html")));
    assert!(!crawl.wants_body(&visit("", 0), &head(199, "text/html")));
    assert!(!crawl.wants_body(&visit("", 0), &head(300, "text/html")));
    assert!(!crawl.wants_body(&visit("", 0), &head(200, "image/png")));
    let silent = PageHead { status: 200, content_type: None, content_length: None };
    assert!(!crawl.wants_body(&visit("", 0), &silent));
}

#[test]
fn links_to_elsewhere_change_nothing() {
    let mut crawl = crawl(2);
    crawl.next_page();
    let links = vec![url("https://other.y/a.mp4"), url("http://x.y/api/a"), url("https://x.y/")];
    assert!(crawl.follow_links(0, &links).is_empty());
    assert!(crawl.next_page().is_none());
    assert_eq!(crawl.take_candidates().len(), 2);
}

#[test]
fn media_links_report_their_directory_once() {
    let mut crawl = crawl(2);
    let links = vec![
        url("https://x.y/v/a.mp4"),
        url("https://x.y/v/b.mp4"),
        url("https://x.y/top.mp4"),
        url("https://x.y/v/c.png"),
    ];
    let updates = crawl.follow_links(0, &links);
    assert_eq!(all_shown(&updates), vec!["https://x.y/v/ 0 inferred directory None dir"]);
    assert!(crawl.follow_links(0, &links).is_empty());
    assert_eq!(crawl.counters().found, 1);
}

#[test]
fn directories_are_given_to_single_links() {
    let mut crawl = crawl(2);
    let link = url("https://x.y/v/a.mp4");
    assert!(crawl.follow_link(0, &link, None).is_empty());
    assert!(crawl.follow_link(0, &link, Some(url("https://x.y/"))).is_empty());
    assert_eq!(crawl.follow_link(0, &link, Some(url("https://x.y/w/"))).len(), 1);
}

#[test]
fn api_links_are_reported_once() {
    let mut crawl = crawl(2);
    let links = vec![url("https://x.y/api/users"), url("https://x.y/api/users")];
    let updates = crawl.follow_links(0, &links);
    assert_eq!(
        all_shown(&updates),
        vec!["https://x.y/api/users 0 discovered API endpoint None api"],
    );
    assert_eq!(crawl.next_page().expect("the base").depth, 0);
    assert_eq!(crawl.next_page().expect("the endpoint").url.text(), "https://x.y/api/users");
}

#[test]
fn deep_links_are_not_crawled() {
    let mut crawl = crawl(1);
    crawl.next_page();
    crawl.follow_links(1, &vec![url("https://x.y/deep"), url("https://x.y/deep.mp4")]);
    assert!(crawl.next_page().is_none());
    let left: Vec<String> = crawl.take_candidates().into_iter().map(|one| one.text().to_owned()).collect();
    assert_eq!(
        left,
        vec!["https://x.y/robots.txt", "https://x.y/backup.mp4", "https://x.y/deep.mp4"],
    );
}

#[test]
fn candidates_are_the_unseen_files() {
    let mut crawl = crawl(1);
    crawl.next_page();
    crawl.follow_links(0, &vec![url("https://x.y/robots.txt")]);
    assert_eq!(crawl.next_page().expect("a page").url.text(), "https://x.y/robots.txt");
    let film = url("https://x.y/f.mp4");
    crawl.follow_links(0, &vec![film.clone(), film]);
    let left: Vec<String> = crawl.take_candidates().into_iter().map(|one| one.text().to_owned()).collect();
    assert_eq!(left, vec!["https://x.y/backup.mp4", "https://x.y/f.mp4"]);
    assert!(crawl.take_candidates().is_empty());
}

#[test]
fn a_body_brings_links_references_and_media() {
    let mut crawl = crawl(1);
    let visit = crawl.next_page().expect("the base");
    let updates = crawl.page_body(&visit, "[\"/page\", \"m.mp4\"]", &texts(&["media"]));
    assert_eq!(
        all_shown(&updates),
        vec!["https://x.y/media/ 0 inferred directory None dir"],
    );
    assert_eq!(crawl.next_page().expect("a page").url.text(), "https://x.y/page");
    let left: Vec<String> = crawl.take_candidates().into_iter().map(|one| one.text().to_owned()).collect();
    assert_eq!(
        left,
        vec![
            "https://x.y/robots.txt",
            "https://x.y/backup.mp4",
            "https://x.y/m.mp4",
            "https://x.y/media/m.mp4",
        ],
    );
}

#[test]
fn a_scan_takes_its_course() {
    let mut scan = FileScan::start(&options(1), &wordlists()).expect("a scan");
    assert_eq!(
        step(&mut scan, ScanEvent::Begin, 0),
        (texts(&["started 2"]), "fetch https://x.y/".to_owned()),
    );
    let answered = ScanEvent::Answered { head: head(200, "text/html") };
    assert_eq!(step(&mut scan, answered, 1), (vec![], "read".to_owned()));
    let page = "<a href='/one'>1</a><a href='/v/film.mp4'>f</a><a href='https://z.y/'>z</a>";
    assert_eq!(
        step(&mut scan, body(page), 2),
        (
            texts(&["https://x.y/v/ 0 inferred directory None dir", "1/2 found 1 at 2"]),
            "fetch https://x.y/one".to_owned(),
        ),
    );
    let unanswered = ScanEvent::Unanswered { detail: "reset".to_owned() };
    assert_eq!(
        step(&mut scan, unanswered, 3),
        (
            texts(&["error Failed to fetch https://x.y/one: reset", "2/2 found 1 at 3"]),
            "check https://x.y/robots.txt https://x.y/backup.mp4 https://x.y/v/film.mp4".to_owned(),
        ),
    );
    assert_eq!(scan.crawl().counters().found, 1);
}

#[test]
fn a_scan_goes_on_without_a_body() {
    let mut scan = FileScan::start(&options(1), &wordlists()).expect("a scan");
    scan.step(ScanEvent::Begin, 0);
    scan.step(ScanEvent::Answered { head: head(200, "text/html") }, 0);
    let (updates, action) = step(&mut scan, ScanEvent::NoBody, 5);
    assert_eq!(updates, vec!["1/2 found 0 at 5"]);
    assert_eq!(action, "check https://x.y/robots.txt https://x.y/backup.mp4");
}

#[test]
fn a_page_that_is_not_read_is_done() {
    let mut scan = FileScan::start(&options(1), &wordlists()).expect("a scan");
    scan.step(ScanEvent::Begin, 0);
    let answered = ScanEvent::Answered { head: head(500, "text/html") };
    let (updates, action) = step(&mut scan, answered, 6);
    assert_eq!(updates, vec!["1/2 found 0 at 6"]);
    assert_eq!(action, "check https://x.y/robots.txt https://x.y/backup.mp4");
}

#[test]
fn a_scan_without_a_crawl_goes_straight_to_its_candidates() {
    let still = FileScanOptions { crawl: false, ..options(5) };
    let mut scan = FileScan::start(&still, &wordlists()).expect("a scan");
    let (updates, action) = step(&mut scan, ScanEvent::Begin, 0);
    assert_eq!(updates, vec!["started 2"]);
    assert_eq!(action, "check https://x.y/robots.txt https://x.y/backup.mp4");
    let nothing = FileScanOptions { crawl: false, brute_force: false, ..options(5) };
    let mut scan = FileScan::start(&nothing, &wordlists()).expect("a scan");
    assert_eq!(
        step(&mut scan, ScanEvent::Begin, 4),
        (texts(&["started 0", "finished 0 0 4"]), "done".to_owned()),
    );
}

/// Lets a worker count, unless it fails, and end.
fn joined(scan: &mut FileScan, outcome: WorkerOutcome) -> ScanEvent {
    match outcome {
        WorkerOutcome::Found(_) => {
            scan.step(ScanEvent::Counted { found: true }, 0);
        }
        WorkerOutcome::Nothing => {
            scan.step(ScanEvent::Counted { found: false }, 0);
        }
        WorkerOutcome::Failed(_) => {}
    }
    ScanEvent::Joined { outcome }
}

#[test]
fn workers_count_before_they_end() {
    let still = FileScanOptions { crawl: false, ..options(5) };
    let mut scan = FileScan::start(&still, &wordlists()).expect("a scan");
    scan.step(ScanEvent::Begin, 0);
    let counted = step(&mut scan, ScanEvent::Counted { found: true }, 1);
    assert_eq!(counted, (vec![], "await".to_owned()));
    let counted = step(&mut scan, ScanEvent::Counted { found: false }, 2);
    assert_eq!(counted, (vec![], "await".to_owned()));
    assert_eq!((scan.crawl().counters().checked, scan.crawl().counters().found), (2, 1));
    let first = step(&mut scan, ScanEvent::Joined { outcome: WorkerOutcome::Nothing }, 3);
    assert_eq!(first, (texts(&["2/2 found 1 at 3"]), "await".to_owned()));
    let file = file_result(&url("https://x.y/robots.txt"), 200, "text/plain", None);
    let last = step(&mut scan, ScanEvent::Joined { outcome: WorkerOutcome::Found(file) }, 4);
    assert_eq!(
        last,
        (
            texts(&[
                "https://x.y/robots.txt 200 text/plain None txt",
                "2/2 found 1 at 4",
                "finished 2 1 4",
            ]),
            "done".to_owned(),
        ),
    );
}

#[test]
fn workers_end_a_scan() {
    let mut scan = FileScan::start(&options(0), &wordlists()).expect("a scan");
    scan.step(ScanEvent::Begin, 0);
    let answered = ScanEvent::Answered { head: head(200, "text/html") };
    scan.step(answered, 0);
    let page = "<a href='/f.mp4'>f</a>";
    assert_eq!(
        step(&mut scan, body(page), 1).1,
        "check https://x.y/robots.txt https://x.y/backup.mp4 https://x.y/f.mp4",
    );
    let film = file_result(&url("https://x.y/f.mp4"), 200, "video/mp4", Some(7));
    let event = joined(&mut scan, WorkerOutcome::Found(film));
    assert_eq!(
        step(&mut scan, event, 2),
        (
            texts(&["https://x.y/f.mp4 200 video/mp4 Some(7) mp4", "2/2 found 1 at 2"]),
            "await".to_owned(),
        ),
    );
    let event = joined(&mut scan, WorkerOutcome::Failed("panic".to_owned()));
    assert_eq!(
        step(&mut scan, event, 3),
        (texts(&["error Worker failed: panic", "2/2 found 1 at 3"]), "await".to_owned()),
    );
    let event = joined(&mut scan, WorkerOutcome::Nothing);
    assert_eq!(
        step(&mut scan, event, 4),
        (texts(&["3/3 found 1 at 4", "finished 3 1 4"]), "done".to_owned()),
    );
}

/// Runs a scan of a site on which every page links to two longer ones, and
/// gives the requests and the reports.
fn endless_site(max_depth: usize) -> (Vec<String>, Vec<String>, FileScan) {
    let mut scan = FileScan::start(&options(max_depth), &wordlists()).expect("a scan");
    let mut requests: Vec<String> = Vec::new();
    let mut reports: Vec<String> = Vec::new();
    let mut event = ScanEvent::Begin;
    loop {
        let (updates, action) = scan.step(event, 0);
        reports.extend(all_shown(&updates));
        event = match action {
            ScanAction::Fetch { url } => {
                requests.push(url.text().to_owned());
                ScanEvent::Answered { head: head(200, "text/html") }
            }
            ScanAction::ReadBody => {
                let page = requests.last().expect("a page").clone();
                body(&format!(
                    "<a href='{page}l/'>l</a><a href='{page}r/'>r</a><a href='/v/f.mp4'>f</a>\
                     <a href='/'>home</a><a href='https://z.y{page}'>away</a>"
                ))
            }
            ScanAction::Check { candidates } => {
                requests.extend(candidates.into_iter().map(|one| one.text().to_owned()));
                joined(&mut scan, WorkerOutcome::Nothing)
            }
            ScanAction::Await => joined(&mut scan, WorkerOutcome::Nothing),
            ScanAction::Done => return (requests, reports, scan),
        };
    }
}

#[test]
fn an_endless_site_is_left_at_its_depth() {
    for (max_depth, pages) in [(0, 1), (1, 3), (2, 7), (5, 63)] {
        let (requests, _, _) = endless_site(max_depth);
        assert_eq!(requests.len(), pages + 3);
        assert!(requests.iter().all(|one| one.starts_with("https://x.y/")));
    }
}

#[test]
fn an_endless_site_is_requested_page_by_page_once() {
    let (requests, _, _) = endless_site(4);
    let mut sorted = requests.clone();
    sorted.sort();
    sorted.dedup();
    assert_eq!(sorted.len(), requests.len());
}

#[test]
fn an_endless_site_is_counted_truly() {
    let (requests, reports, scan) = endless_site(3);
    let inferred: Vec<&String> =
        reports.iter().filter(|one| one.contains("inferred directory")).collect();
    assert_eq!(inferred.len(), 1);
    assert_eq!(scan.crawl().counters().found, 1);
    assert_eq!(scan.crawl().counters().checked, requests.len());
}

#[test]
fn an_endless_site_is_reported_to_its_end_once() {
    let (requests, reports, _) = endless_site(2);
    let ends: Vec<&String> = reports.iter().filter(|one| one.starts_with("finished")).collect();
    assert_eq!(ends.len(), 1);
    assert_eq!(reports.last().expect("a report"), &format!("finished {} 1 0", requests.len()));
    assert_eq!(reports[0], "started 2");
    assert_eq!(reports.iter().filter(|one| one.starts_with("started")).count(), 1);
}

#[test]
fn an_endless_site_is_reported_step_by_step() {
    let (requests, reports, _) = endless_site(2);
    let progress: Vec<Vec<usize>> = reports
        .iter()
        .filter(|one| one.contains(" found "))
        .map(|one| one.split(['/', ' ']).filter_map(|word| word.parse().ok()).collect())
        .collect();
    // Each is what is checked, the total, what is found, and the time.
    assert_eq!(progress.len(), requests.len());
    for (i, now) in progress.iter().enumerate() {
        assert_eq!(now[0], i + 1);
        assert!(now[0] <= now[1]);
        assert!(i == 0 || progress[i - 1][2] <= now[2]);
    }
}

#[test]
fn a_crawl_of_an_address_stays_on_it() {
    let address = FileScanOptions {
        base_url: "http://10.0.0.1/".to_owned(),
        brute_force: false,
        ..options(3)
    };
    let mut scan = FileScan::start(&address, &wordlists()).expect("a scan");
    scan.step(ScanEvent::Begin, 0);
    scan.step(ScanEvent::Answered { head: head(200, "text/html") }, 0);
    let page = "<a href='http://10.0.0.2/'>a</a><a href='http://10.0.0.2/api/x'>b</a>\
        <a href='http://10.0.0.2/v/f.mp4'>c</a><a href='http://10.0.0.1/v/g.mp4'>d</a>";
    assert_eq!(
        step(&mut scan, body(page), 1),
        (
            texts(&["http://10.0.0.1/v/ 0 inferred directory None dir", "1/1 found 1 at 1"]),
            "check http://10.0.0.1/v/g.mp4".to_owned(),
        ),
    );
}

#[test]
fn no_link_and_no_planned_file_is_lost() {
    let (requests, _, _) = endless_site(2);
    for path in ["", "l/", "r/", "l/l/", "l/r/", "r/l/", "r/r/", "v/f.mp4", "robots.txt", "backup.mp4"] {
        assert!(requests.contains(&format!("https://x.y/{path}")), "{path}");
    }
    assert_eq!(requests.len(), 10);
}
