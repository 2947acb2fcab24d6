use std::collections::hash_map::DefaultHasher;
use std::hash::{Hash, Hasher};

use domain_scanner::candidate::{
    check_candidate, is_rejected_status, CandidateResponse, CANDIDATE_RANGE,
};
use domain_scanner::soft404::{
    body_signature, build_soft_404_profile, soft_404_probe_paths, soft_404_probes, ProbeResponse,
    Soft404Profile, Soft404Sample,
};
use domain_scanner::urls::{normalize_base_url, PageUrl};

fn url(text: &str) -> PageUrl {
    normalize_base_url(text).expect("a URL")
}

fn texts(items: &[&str]) -> Vec<String> {
    items.iter().map(|item| item.to_string()).collect()
}

fn answer(status: u16, content_type: &str, body: &[u8]) -> CandidateResponse {
    CandidateResponse {
        status,
        content_type: Some(content_type.to_owned()),
        content_range: None,
        content_length: None,
        body: body.to_vec(),
    }
}

fn no_samples() -> Soft404Profile {
    Soft404Profile { samples: Vec::new() }
}

fn hashed(bytes: &[u8]) -> u64 {
    let mut hasher = DefaultHasher::new();
    bytes[..bytes.len().min(16 * 1024)].hash(&mut hasher);
    bytes.len().hash(&mut hasher);
    hasher.finish()
}

#[test]
fn signatures_are_those_of_the_standard_hasher() {
    for len in [0usize, 1, 2, 255, 16383, 16384, 16385, 40000] {
        let body: Vec<u8> = (0..len).map(|i| (i % 251) as u8).collect();
        assert_eq!(body_signature(&body), hashed(&body), "{len}");
    }
}

#[test]
fn signatures_read_the_start_and_the_length() {
    let mut body = vec![7u8; 20000];
    let before = body_signature(&body);
    body[19999] = 8;
    assert_eq!(body_signature(&body), before);
    body[16383] = 8;
    assert_ne!(body_signature(&body), before);
    assert_ne!(body_signature(&body[..19999]), body_signature(&body));
}

fn sample(status: u16, family: &str, body_len: usize, signature: u64) -> Soft404Sample {
    Soft404Sample {
        status,
        content_type_family: family.to_owned(),
        body_len,
        body_signature: signature,
    }
}

#[test]
fn answers_match_in_status_family_signature_and_length() {
    let profile = Soft404Profile {
        samples: vec![sample(500, "a/b", 1, 1), sample(200, "text/html", 100, 42)],
    };
    assert!(profile.matches(200, "Text/HTML; x", 100, 42));
    assert!(profile.matches(200, "text/html", 132, 42));
    assert!(profile.matches(200, "text/html", 68, 42));
    assert!(!profile.matches(200, "text/html", 133, 42));
    assert!(!profile.matches(200, "text/html", 67, 42));
    assert!(!profile.matches(404, "text/html", 100, 42));
    assert!(!profile.matches(200, "text/plain", 100, 42));
    assert!(!profile.matches(200, "text/html", 100, 43));
    assert!(!no_samples().matches(200, "text/html", 100, 42));
}

#[test]
fn probes_that_failed_leave_no_sample() {
    let profile = build_soft_404_profile(&vec![
        None,
        Some(ProbeResponse {
            status: 200,
            content_type: Some("Text/HTML; charset=utf-8".to_owned()),
            body: b"gone".to_vec(),
        }),
        Some(ProbeResponse { status: 404, content_type: None, body: Vec::new() }),
    ]);
    assert_eq!(profile.samples.len(), 2);
    assert_eq!(profile.samples[0].status, 200);
    assert_eq!(profile.samples[0].content_type_family, "text/html");
    assert_eq!(profile.samples[0].body_len, 4);
    assert_eq!(profile.samples[0].body_signature, body_signature(b"gone"));
    assert_eq!(profile.samples[1].content_type_family, "");
}

#[test]
fn probe_paths_hold_the_number() {
    assert_eq!(
        soft_404_probe_paths(1700000000000000001),
        vec![
            ".mocha-scanner-missing-1700000000000000001.txt",
            "mocha-scanner/missing-1700000000000000001.json",
        ],
    );
}

#[test]
fn probe_paths_differ() {
    let (one, other) = (soft_404_probe_paths(12), soft_404_probe_paths(21));
    assert_ne!(one[0], other[0]);
    assert_ne!(one[1], other[1]);
    assert_ne!(one[0], one[1]);
}

#[test]
fn probes_are_joined_to_the_base() {
    let probes: Vec<String> =
        soft_404_probes(&url("https://x.y/d/p"), 7).into_iter().map(|one| one.text().to_owned()).collect();
    assert_eq!(
        probes,
        vec![
            "https://x.y/d/.mocha-scanner-missing-7.txt",
            "https://x.y/d/mocha-scanner/missing-7.json",
        ],
    );
}

#[test]
fn some_statuses_say_that_there_is_no_file() {
    for status in [404, 416, 500, 503, 599] {
        assert!(is_rejected_status(status));
    }
    for status in [200, 206, 301, 401, 403, 405, 415, 417, 499, 600] {
        assert!(!is_rejected_status(status));
    }
    assert_eq!(CANDIDATE_RANGE, "bytes=0-16383");
}

#[test]
fn candidates_are_reported() {
    let found = check_candidate(
        &url("https://x.y/a.MP4"),
        &texts(&["mp4"]),
        &no_samples(),
        false,
        &answer(206, "video/mp4", b"1234"),
    )
    .expect("a result");
    assert_eq!(found.url, "https://x.y/a.MP4");
    assert_eq!(found.status, 200);
    assert_eq!(found.content_type, "video/mp4");
    assert_eq!(found.size, Some(4));
    assert_eq!(found.extension, "mp4");
}

#[test]
fn sizes_come_from_the_range_then_the_length_then_the_body() {
    let size = |content_range: Option<&str>, content_length: Option<u64>| {
        let response = CandidateResponse {
            content_range: content_range.map(str::to_owned),
            content_length,
            ..answer(403, "", b"123")
        };
        let found = check_candidate(
            &url("https://x.y/a.zip"),
            &texts(&["zip"]),
            &no_samples(),
            false,
            &response,
        )
        .expect("a result");
        assert_eq!(found.status, 403);
        assert_eq!(found.content_type, "unknown");
        found.size
    };
    assert_eq!(size(Some("bytes 0-2/99"), Some(3)), Some(99));
    assert_eq!(size(Some("bytes 0-2/*"), Some(7)), Some(7));
    assert_eq!(size(None, None), Some(3));
}

#[test]
fn candidates_are_dropped_for_four_reasons() {
    let file = url("https://x.y/a.mp4");
    let selected = texts(&["mp4"]);
    let good = answer(200, "video/mp4", b"1234");
    let judge = |profile: &Soft404Profile, extensions: &[&str], response: &CandidateResponse| {
        check_candidate(&file, &texts(extensions), profile, false, response).is_some()
    };
    assert!(check_candidate(&file, &selected, &no_samples(), false, &good).is_some());
    assert!(!judge(&no_samples(), &["mp4"], &answer(404, "video/mp4", b"1234")));
    let profile = Soft404Profile { samples: vec![sample(200, "video/mp4", 4, hashed(b"1234"))] };
    assert!(!judge(&profile, &["mp4"], &good));
    assert!(!judge(&no_samples(), &["zip"], &good));
    assert!(!judge(&no_samples(), &["mp4"], &answer(200, "text/html", b"1234")));
}

#[test]
fn an_answer_like_that_of_a_probe_is_not_reported() {
    let body = b"<h1>Nothing here</h1>";
    let profile = build_soft_404_profile(&vec![Some(ProbeResponse {
        status: 200,
        content_type: Some("text/html".to_owned()),
        body: body.to_vec(),
    })]);
    let file = url("https://x.y/index.html");
    let selected = texts(&["html"]);
    let same = answer(200, "text/html", body);
    assert!(check_candidate(&file, &selected, &profile, false, &same).is_none());
    let other = answer(200, "text/html", b"<h1>Welcome</h1>");
    assert!(check_candidate(&file, &selected, &profile, false, &other).is_some());
}

#[test]
fn everything_is_reported_where_it_is_asked_for() {
    let page = url("https://x.y/data");
    let check = |content_type: &str| {
        check_candidate(&page, &texts(&[]), &no_samples(), true, &answer(200, content_type, b""))
    };
    assert_eq!(check("image/png").expect("a result").extension, "unknown");
    assert!(check("text/html").is_none());
    assert!(check("").is_some());
}
