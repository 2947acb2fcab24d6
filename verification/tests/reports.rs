use std::time::Duration;

use domain_scanner::options::SubdomainScanOptions;
use domain_scanner::results::{
    client_error_message, fetch_error_message, file_result, finished, inferred_api_result,
    inferred_directory_result, progress, worker_error_message, worker_updates, FileProgress,
    FileResult, FileScanUpdate, ScanCounters, WorkerOutcome,
};
use domain_scanner::subdomain::{
    check_host, finished as hosts_finished, host_result, host_updates, normalize_domain,
    plan_hosts, probe_http, progress as host_progress, subdomain_hosts, HostAction, HostOutcome,
    ProbeAction, ScanProgress, SubdomainResult, SubdomainScan, SubdomainScanUpdate,
};
use domain_scanner::urls::{normalize_base_url, PageUrl};
use domain_scanner::workers::{Ending, Workers};

fn url(text: &str) -> PageUrl {
    normalize_base_url(text).expect("a URL")
}

fn texts(items: &[&str]) -> Vec<String> {
    items.iter().map(|item| item.to_string()).collect()
}

fn fields(result: &FileResult) -> (&str, u16, &str, Option<u64>, &str) {
    (&result.url, result.status, &result.content_type, result.size, &result.extension)
}

#[test]
fn files_are_reported_with_what_is_known() {
    let known = file_result(&url("x.y/a.TXT"), 203, "text/plain", Some(5));
    assert_eq!(fields(&known), ("https://x.y/a.TXT", 203, "text/plain", Some(5), "txt"));
    let unknown = file_result(&url("x.y/a"), 200, "", None);
    assert_eq!(fields(&unknown), ("https://x.y/a", 200, "unknown", None, "unknown"));
    assert_eq!(fields(&unknown.clone()), fields(&unknown));
}

#[test]
fn inferred_files_have_no_status() {
    let directory = inferred_directory_result(&url("x.y/d/"));
    assert_eq!(fields(&directory), ("https://x.y/d/", 0, "inferred directory", None, "dir"));
    let endpoint = inferred_api_result(&url("x.y/api/e"));
    assert_eq!(fields(&endpoint), ("https://x.y/api/e", 0, "discovered API endpoint", None, "api"));
}

#[test]
fn messages_name_their_reason() {
    assert_eq!(client_error_message("tls"), "Failed to create HTTP client: tls");
    assert_eq!(worker_error_message("panic"), "Worker failed: panic");
    assert_eq!(fetch_error_message("http://a/", "reset"), "Failed to fetch http://a/: reset");
}

#[test]
fn counters_count() {
    let mut counters = ScanCounters::new();
    counters.count_checked();
    counters.count_found();
    counters.count_outcome(true);
    counters.count_outcome(false);
    assert_eq!((counters.checked, counters.found), (3, 2));
}

#[test]
fn outcomes_are_counted() {
    let outcomes = [true, false, false, true, true];
    let mut counters = ScanCounters { checked: 4, found: 1 };
    for found in outcomes {
        counters.count_outcome(found);
    }
    assert_eq!((counters.checked, counters.found), (9, 4));
}

#[test]
fn counters_start_over_at_their_end() {
    let mut counters = ScanCounters { checked: usize::MAX, found: usize::MAX };
    counters.count_outcome(true);
    assert_eq!((counters.checked, counters.found), (0, 0));
}

#[test]
fn progress_never_passes_its_total() {
    let counters = ScanCounters { checked: 7, found: 2 };
    let shown = |total: usize| FileProgress { checked: 7, found: 2, total, elapsed_ms: 40 };
    assert_eq!(progress(counters, 10, 40), shown(10));
    assert_eq!(progress(counters, 3, 40), shown(7));
}

#[test]
fn scans_end_with_their_counts() {
    let counters = ScanCounters { checked: 7, found: 2 };
    assert!(matches!(
        finished(counters, 5),
        FileScanUpdate::Finished { checked: 7, found: 2, elapsed_ms: 5 }
    ));
    assert!(matches!(
        hosts_finished(counters, 5),
        SubdomainScanUpdate::Finished { checked: 7, found: 2, elapsed_ms: 5 }
    ));
}

#[test]
fn workers_report_and_show_progress() {
    let counters = ScanCounters { checked: 1, found: 1 };
    let found = file_result(&url("x.y/a.txt"), 200, "", None);
    let updates = worker_updates(WorkerOutcome::Found(found), counters, 3, 9);
    assert_eq!(updates.len(), 2);
    assert!(matches!(&updates[0], FileScanUpdate::Result { result } if result.extension == "txt"));
    assert!(matches!(
        &updates[1],
        FileScanUpdate::Progress { progress } if progress.total == 3 && progress.elapsed_ms == 9
    ));
    let updates = worker_updates(WorkerOutcome::Nothing, counters, 3, 9);
    assert_eq!(updates.len(), 1);
    assert!(matches!(&updates[0], FileScanUpdate::Progress { .. }));
    let updates = worker_updates(WorkerOutcome::Failed("panic".to_owned()), counters, 3, 9);
    assert_eq!(updates.len(), 2);
    assert!(matches!(
        &updates[0],
        FileScanUpdate::Error { message } if message == "Worker failed: panic"
    ));
}

#[test]
fn domains_are_normalised() {
    assert_eq!(normalize_domain(" HTTPS.Example.COM// "), "https.example.com");
    assert_eq!(normalize_domain("https://Example.com/"), "example.com");
    assert_eq!(normalize_domain("http://http://https://a.b"), "a.b");
    assert_eq!(normalize_domain("https://http://a.b"), "http://a.b");
    assert_eq!(normalize_domain("HTTP://a.b"), "http://a.b");
    assert_eq!(normalize_domain("example.com/path/"), "example.com/path");
    assert_eq!(normalize_domain(" / "), "");
}

#[test]
fn domains_have_many_forms() {
    for form in ["a.b", "a.b/", "http://a.b", "http://a.b/", "https://a.b", "https://a.b/"] {
        assert_eq!(normalize_domain(form), "a.b");
    }
}

#[test]
fn normalised_domains_are_lower_case_without_a_slash() {
    for given in ["A.B/", "Https://X", "ä.Ö//", "/"] {
        let domain = normalize_domain(given);
        assert_eq!(domain.to_ascii_lowercase(), domain);
        assert!(!domain.ends_with('/'));
    }
}

#[test]
fn hosts_lie_under_their_domain() {
    let hosts = subdomain_hosts(&texts(&["www", "mail", "a.b"]), "example.com");
    assert_eq!(hosts, vec!["www.example.com", "mail.example.com", "a.b.example.com"]);
}

fn planned(domain: &str) -> Result<Vec<String>, String> {
    let options = SubdomainScanOptions {
        domain: domain.to_owned(),
        concurrency: 1,
        timeout: Duration::from_secs(1),
    };
    plan_hosts(&options, &texts(&["www", "mail"]))
}

#[test]
fn hosts_are_planned_for_domains_with_a_dot() {
    assert_eq!(
        planned("https://Example.com/"),
        Ok(texts(&["www.example.com", "mail.example.com"])),
    );
    let message = "Enter a valid root domain, for example example.com.".to_owned();
    assert_eq!(planned("localhost"), Err(message.clone()));
    assert_eq!(planned("  "), Err(message));
}

#[test]
fn hosts_are_probed_by_https_then_by_http() {
    let asked = |failures: usize| match probe_http("a.b", failures, None) {
        ProbeAction::Get { url } => url,
        ProbeAction::Done { .. } => "done".to_owned(),
    };
    assert_eq!(asked(0), "https://a.b/");
    assert_eq!(asked(1), "http://a.b/");
    assert_eq!(asked(2), "done");
    assert!(matches!(
        probe_http("a.b", 1, Some((301, 20))),
        ProbeAction::Done { probe: Some((301, 20)) }
    ));
    assert!(matches!(probe_http("a.b", 2, None), ProbeAction::Done { probe: None }));
}

fn host_fields(result: &SubdomainResult) -> (&str, &str, Option<u16>, Option<u128>) {
    (&result.subdomain, &result.ip, result.status, result.response_time_ms)
}

#[test]
fn hosts_are_reported_with_their_first_address() {
    let addresses = texts(&["10.0.0.1", "10.0.0.2"]);
    let probed = host_result("a.b", &addresses, Some((200, 15))).expect("a result");
    assert_eq!(host_fields(&probed), ("a.b", "10.0.0.1", Some(200), Some(15)));
    let silent = host_result("a.b", &addresses, None).expect("a result");
    assert_eq!(host_fields(&silent.clone()), ("a.b", "10.0.0.1", None, None));
    assert!(host_result("a.b", &texts(&[]), Some((200, 15))).is_none());
}

#[test]
fn hosts_without_an_address_are_not_probed() {
    assert!(matches!(check_host("a.b", &texts(&[]), 0, None), HostAction::Done { result: None }));
    let addresses = texts(&["::1"]);
    assert!(matches!(
        check_host("a.b", &addresses, 0, None),
        HostAction::Get { url } if url == "https://a.b/"
    ));
    assert!(matches!(
        check_host("a.b", &addresses, 1, None),
        HostAction::Get { url } if url == "http://a.b/"
    ));
    match check_host("a.b", &addresses, 2, None) {
        HostAction::Done { result: Some(found) } => {
            assert_eq!(host_fields(&found), ("a.b", "::1", None, None));
        }
        other => panic!("{other:?}"),
    }
    match check_host("a.b", &addresses, 1, Some((204, 3))) {
        HostAction::Done { result: Some(found) } => {
            assert_eq!(host_fields(&found), ("a.b", "::1", Some(204), Some(3)));
        }
        other => panic!("{other:?}"),
    }
}

#[test]
fn host_workers_report_and_show_progress() {
    let counters = ScanCounters { checked: 5, found: 2 };
    let shown = ScanProgress { checked: 5, found: 2, total: 8, elapsed_ms: 3 };
    assert_eq!(host_progress(counters, 8, 3), shown);
    let found = host_result("a.b", &texts(&["::1"]), None).expect("a result");
    let updates = host_updates(HostOutcome::Found(found), counters, 8, 3);
    assert_eq!(updates.len(), 2);
    assert!(matches!(
        &updates[0],
        SubdomainScanUpdate::Result { result } if result.subdomain == "a.b"
    ));
    assert!(matches!(
        &updates[1],
        SubdomainScanUpdate::Progress { progress } if *progress == shown
    ));
    assert_eq!(host_updates(HostOutcome::Nothing, counters, 8, 3).len(), 1);
    let updates = host_updates(HostOutcome::Failed("gone".to_owned()), counters, 8, 3);
    assert!(matches!(
        &updates[0],
        SubdomainScanUpdate::Error { message } if message == "Worker failed: gone"
    ));
}

#[test]
fn a_subdomain_scan_ends_with_its_last_worker() {
    let mut scan = SubdomainScan::new(3);
    let updates = scan.begin(0);
    assert_eq!(updates.len(), 1);
    assert!(matches!(&updates[0], SubdomainScanUpdate::Started { total: 3 }));
    scan.worker_counted(false);
    scan.worker_counted(true);
    let found = host_result("a.b", &texts(&["::1"]), None).expect("a result");
    let updates = scan.worker_joined(HostOutcome::Found(found), 1);
    assert_eq!(updates.len(), 2);
    let shown = ScanProgress { checked: 2, found: 1, total: 3, elapsed_ms: 1 };
    assert!(matches!(
        &updates[1],
        SubdomainScanUpdate::Progress { progress } if *progress == shown
    ));
    assert_eq!(scan.worker_joined(HostOutcome::Failed("gone".to_owned()), 2).len(), 2);
    assert!(!scan.is_over());
    let updates = scan.worker_joined(HostOutcome::Nothing, 3);
    assert!(scan.is_over());
    assert_eq!(updates.len(), 2);
    assert!(matches!(
        &updates[1],
        SubdomainScanUpdate::Finished { checked: 2, found: 1, elapsed_ms: 3 }
    ));
}

#[test]
fn workers_count_and_end_one_by_one() {
    let begun = Workers::begin(2);
    assert!(begun.awaits_count() && begun.awaits_end(Ending::Failed));
    assert!(!begun.awaits_end(Ending::Found) && !begun.awaits_end(Ending::Nothing));
    let counted = begun.count(true).count(false);
    assert!(!counted.awaits_count() && !counted.awaits_end(Ending::Failed));
    assert!(counted.awaits_end(Ending::Found) && counted.awaits_end(Ending::Nothing));
    let last = counted.end(Ending::Found);
    assert!(!last.all_ended() && !last.awaits_end(Ending::Found));
    assert!(last.end(Ending::Nothing).all_ended());
}

#[test]
fn a_subdomain_scan_without_hosts_is_over_at_once() {
    let scan = SubdomainScan::new(0);
    let updates = scan.begin(3);
    assert!(scan.is_over());
    assert_eq!(updates.len(), 2);
    assert!(matches!(
        &updates[1],
        SubdomainScanUpdate::Finished { checked: 0, found: 0, elapsed_ms: 3 }
    ));
}
