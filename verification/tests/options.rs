use std::time::Duration;

use domain_scanner::brute::{brute_force_paths, brute_force_urls};
use domain_scanner::content::should_emit_file;
use domain_scanner::options::{
    file_scan_options, selected_extensions, split_csv, subdomain_scan_options, worker_permits,
    FilePreset, FileQuery, FileScanOptions, FILE_TIMEOUT_SECONDS, SUBDOMAIN_TIMEOUT_SECONDS,
};
use domain_scanner::urls::normalize_base_url;

fn texts(items: &[&str]) -> Vec<String> {
    items.iter().map(|item| item.to_string()).collect()
}

fn presets() -> Vec<FilePreset> {
    vec![
        FilePreset { key: "Video".to_owned(), extensions: texts(&[".MP4", "webm"]) },
        FilePreset { key: "archive".to_owned(), extensions: texts(&["zip", "webm"]) },
        FilePreset { key: "video".to_owned(), extensions: texts(&["late"]) },
    ]
}

fn options(keys: &[&str], custom: &[&str]) -> FileScanOptions {
    FileScanOptions {
        base_url: "example.com".to_owned(),
        presets: texts(keys),
        custom_extensions: texts(custom),
        scan_everything: false,
        brute_force: true,
        crawl: true,
        max_depth: 2,
        concurrency: 4,
        timeout: Duration::from_secs(1),
    }
}

fn query() -> FileQuery {
    FileQuery {
        url: "example.com".to_owned(),
        presets: None,
        custom: None,
        everything: None,
        brute: None,
        crawl: None,
        max_depth: None,
    }
}

#[test]
fn lists_are_split_at_commas() {
    assert_eq!(split_csv(Some(" a, b ,,\t,c d".to_owned())), vec!["a", "b", "c d"]);
    assert!(split_csv(Some(" , ".to_owned())).is_empty());
    assert!(split_csv(Some(String::new())).is_empty());
    assert!(split_csv(None).is_empty());
}

#[test]
fn lists_read_back() {
    for items in [texts(&[]), texts(&["a"]), texts(&["mp4", ".zip", "tar gz"])] {
        assert_eq!(split_csv(Some(items.join(","))), items);
    }
}

#[test]
fn list_items_are_plain() {
    for item in split_csv(Some("a , ,b,\u{a0}c\u{3000},,,".to_owned())) {
        assert!(!item.is_empty());
        assert_eq!(item.trim(), item);
        assert!(!item.contains(','));
    }
}

#[test]
fn requests_have_defaults() {
    let given = file_scan_options(query(), Duration::from_secs(FILE_TIMEOUT_SECONDS));
    assert_eq!(given.base_url, "example.com");
    assert!(given.presets.is_empty() && given.custom_extensions.is_empty());
    assert!(!given.scan_everything && given.brute_force && given.crawl);
    assert_eq!(given.max_depth, 2);
    assert_eq!(given.concurrency, 48);
    assert_eq!(given.timeout, Duration::from_secs(8));
}

#[test]
fn requests_are_taken_over() {
    let asked = FileQuery {
        presets: Some("video, archive".to_owned()),
        custom: Some("xyz".to_owned()),
        everything: Some(true),
        brute: Some(false),
        crawl: Some(false),
        max_depth: Some(5),
        ..query()
    };
    let given = file_scan_options(asked, Duration::from_secs(3));
    assert_eq!(given.presets, vec!["video", "archive"]);
    assert_eq!(given.custom_extensions, vec!["xyz"]);
    assert!(given.scan_everything && !given.brute_force && !given.crawl);
    assert_eq!(given.max_depth, 5);
    assert_eq!(given.timeout, Duration::from_secs(3));
    let copy = given.clone();
    assert_eq!(copy.presets, given.presets);
    assert_eq!(copy.max_depth, given.max_depth);
}

#[test]
fn depths_are_cut() {
    for (asked, given) in [(0, 0), (4, 4), (6, 5), (usize::MAX, 5)] {
        let query = FileQuery { max_depth: Some(asked), ..query() };
        assert_eq!(file_scan_options(query, Duration::from_secs(1)).max_depth, given);
    }
}

#[test]
fn subdomain_requests_have_fixed_settings() {
    let timeout = Duration::from_secs(SUBDOMAIN_TIMEOUT_SECONDS);
    let given = subdomain_scan_options("example.com".to_owned(), timeout);
    assert_eq!(given.domain, "example.com");
    assert_eq!(given.concurrency, 64);
    assert_eq!(given.timeout, Duration::from_secs(6));
    assert_eq!(given.clone().domain, given.domain);
}

#[test]
fn there_is_always_a_worker() {
    assert_eq!(worker_permits(0), 1);
    assert_eq!(worker_permits(1), 1);
    assert_eq!(worker_permits(48), 48);
}

#[test]
fn extensions_are_selected_once() {
    let mut found = selected_extensions(
        &options(&["VIDEO", "Archive", "none"], &[".ZIP", " Own "]),
        &presets(),
    );
    found.sort();
    assert_eq!(found, vec!["mp4", "own", "webm", "zip"]);
    assert!(selected_extensions(&options(&[], &[]), &presets()).is_empty());
}

#[test]
fn preset_keys_ignore_case() {
    for key in ["video", "VIDEO", "vIdEo"] {
        let mut found = selected_extensions(&options(&[key], &[]), &presets());
        found.sort();
        assert_eq!(found, vec!["mp4", "webm"]);
    }
}

#[test]
fn own_extensions_are_reported_and_no_others() {
    let selected = selected_extensions(&options(&[], &[" .ISO"]), &presets());
    let image = normalize_base_url("example.com/disk.Iso").expect("a URL");
    let film = normalize_base_url("example.com/film.mp4").expect("a URL");
    assert!(should_emit_file(&image, &selected, false, "text/html"));
    assert!(!should_emit_file(&film, &selected, false, "video/mp4"));
}

#[test]
fn marked_paths_are_filled_with_the_selected_extensions() {
    let patterns = texts(&["robots.txt", "backup.{ext}", "{ext}/all.{ext}"]);
    assert_eq!(
        brute_force_paths(&patterns, &presets(), &texts(&["zip", "..7z"]), false),
        vec!["robots.txt", "backup.zip", "backup.7z", "zip/all.zip", "7z/all.7z"],
    );
}

#[test]
fn marked_paths_are_filled_with_all_presets() {
    let patterns = texts(&["a.{ext}"]);
    let all = vec!["a.MP4", "a.webm", "a.zip", "a.webm", "a.late"];
    assert_eq!(brute_force_paths(&patterns, &presets(), &texts(&["zip"]), true), all);
    assert_eq!(brute_force_paths(&patterns, &presets(), &texts(&[]), false), all);
}

#[test]
fn tried_paths_are_joined_to_the_base() {
    let base = normalize_base_url("https://x.y/dir/page").expect("a URL");
    let patterns = texts(&["a.{ext}", "/b", "http://[bad"]);
    let found: Vec<String> =
        brute_force_urls(&base, &patterns, &presets(), &texts(&["zip"]), false)
            .into_iter()
            .map(|one| one.text().to_owned())
            .collect();
    assert_eq!(found, vec!["https://x.y/dir/a.zip", "https://x.y/b"]);
}
