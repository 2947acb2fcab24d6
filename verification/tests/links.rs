use domain_scanner::html::{extract_links, link_targets, LinkElement};
use domain_scanner::json::{collect_media_filenames, parse_json, Json};
use domain_scanner::manifest::{
    extract_manifest_media, manifest_references, resolve_references, ManifestReference,
};
use domain_scanner::references::{extract_text_references, text_references};
use domain_scanner::resolve::{keep_joined, resolve_all};
use domain_scanner::urls::{normalize_base_url, PageUrl};

fn url(text: &str) -> PageUrl {
    normalize_base_url(text).expect("a URL")
}

fn shown(found: &[PageUrl]) -> Vec<String> {
    found.iter().map(|one| one.text().to_owned()).collect()
}

fn texts(items: &[&str]) -> Vec<String> {
    items.iter().map(|item| item.to_string()).collect()
}

#[test]
fn links_of_elements_are_joined() {
    let body = "<html><head><link href='/s.css'><script src='a.js'></script></head><body>\
        <a href='b.html'>b</a><a>none</a><img src='../c.png'><source src='d.webm'>\
        <video src='e.mp4'></video><audio src='f.mp3'></audio><iframe src='//g.h/i'></iframe>\
        <a href='http://[bad'>x</a><p href='no'>p</p></body></html>";
    assert_eq!(
        shown(&extract_links(&url("https://x.y/p/q"), body)),
        vec![
            "https://x.y/s.css",
            "https://x.y/p/a.js",
            "https://x.y/p/b.html",
            "https://x.y/c.png",
            "https://x.y/p/d.webm",
            "https://x.y/p/e.mp4",
            "https://x.y/p/f.mp3",
            "https://g.h/i",
        ],
    );
}

#[test]
fn pages_without_links_have_none() {
    assert!(extract_links(&url("x.y"), "").is_empty());
    assert!(extract_links(&url("x.y"), "<p>just text</p>").is_empty());
}

#[test]
fn elements_refer_by_href_before_src() {
    let element = |href: Option<&str>, src: Option<&str>| LinkElement {
        href: href.map(str::to_owned),
        src: src.map(str::to_owned),
    };
    let elements = vec![
        element(Some("a"), Some("b")),
        element(None, Some("c")),
        element(None, None),
        element(Some(""), None),
    ];
    assert_eq!(link_targets(&elements), vec!["a", "c", ""]);
}

#[test]
fn references_are_cut_out_of_text() {
    let body = "see \"/a/b\", 'c.mp4' or (http://d.e/f); not word, #g.h nor data:i.j. \\k.l\\ :m.n: ..o.p..";
    assert_eq!(
        text_references(body),
        vec!["/a/b", "c.mp4", "http://d.e/f", "k.l", "m.n", "o.p"],
    );
    assert!(text_references("").is_empty());
}

#[test]
fn references_of_text_are_joined() {
    let links = extract_text_references(&url("https://x.y/p/q"), "`/a/b` c.mp4 http://[bad");
    assert_eq!(shown(&links), vec!["https://x.y/a/b", "https://x.y/p/c.mp4"]);
}

#[test]
fn references_that_do_not_join_are_dropped() {
    let base = url("https://x.y/p/q");
    let joined = resolve_all(&base, &texts(&["a", "http://[bad", "", "?r"]));
    assert_eq!(
        shown(&joined),
        vec!["https://x.y/p/a", "https://x.y/p/q", "https://x.y/p/q?r"],
    );
    let kept = keep_joined(vec![None, Some(url("a.b")), None, Some(url("c.d"))]);
    assert_eq!(shown(&kept), vec!["https://a.b/", "https://c.d/"]);
}

fn collected(body: &str) -> Vec<String> {
    let mut output = texts(&["first"]);
    if let Some(document) = parse_json(body) {
        collect_media_filenames(&document, &mut output);
    }
    output
}

#[test]
fn media_names_are_collected_from_documents() {
    let body = "{\"a\": \"one.mp4\", \"b\": [\"two.MP3\", {\"c\": \"x/three.ogg\"}, 4, null, true], \
        \"d\": \"five.txt\", \"six.mp4\": \"no\"}";
    assert_eq!(collected(body), vec!["first", "one.mp4", "two.MP3", "x/three.ogg"]);
    assert_eq!(collected("\"a.webm\""), vec!["first", "a.webm"]);
    assert_eq!(collected("12"), vec!["first"]);
}

#[test]
fn what_is_no_document_gives_nothing() {
    assert!(parse_json("<html>").is_none());
    assert!(parse_json("").is_none());
    assert!(parse_json("{\"a\": }").is_none());
    let deep = format!("{}{}", "[".repeat(200), "]".repeat(200));
    assert!(parse_json(&deep).is_none());
}

#[test]
fn documents_keep_their_shape() {
    let document = parse_json("[\"a\", [], {\"k\": \"v\"}, 1.5]").expect("a document");
    assert_eq!(
        format!("{document:?}"),
        "Array([Text(\"a\"), Array([]), Object([Text(\"v\")]), Other])",
    );
}

fn references(document: &Json, directories: &[&str]) -> Vec<(bool, String)> {
    manifest_references(document, &texts(directories))
        .into_iter()
        .map(|one| (one.from_origin, one.target))
        .collect()
}

#[test]
fn bare_names_are_looked_for_in_every_directory() {
    let document = Json::Array(vec![Json::Text("a.mp4".to_owned())]);
    let expected: Vec<(bool, String)> = [
        (false, "a.mp4"),
        (false, "a.webp"),
        (false, "a.png"),
        (false, "a.jpg"),
        (true, "m/a.mp4"),
        (true, "m/a.webp"),
        (true, "m/a.png"),
        (true, "m/a.jpg"),
        (true, "/n/a.mp4"),
        (true, "/n/a.webp"),
        (true, "/n/a.png"),
        (true, "/n/a.jpg"),
    ]
    .iter()
    .map(|(from_origin, target)| (*from_origin, target.to_string()))
    .collect();
    assert_eq!(references(&document, &["m", "/n"]), expected);
}

#[test]
fn names_with_a_directory_lie_beside_the_manifest() {
    let document = Json::Object(vec![
        Json::Text("d/a.mp3".to_owned()),
        Json::Text("b.wav".to_owned()),
        Json::Other,
    ]);
    assert_eq!(
        references(&document, &["m"]),
        vec![
            (false, "d/a.mp3".to_owned()),
            (false, "b.wav".to_owned()),
            (true, "m/b.wav".to_owned()),
        ],
    );
}

#[test]
fn manifest_references_are_joined_to_origin_or_manifest() {
    let resolved = resolve_references(
        &url("https://x.y/base/"),
        &url("https://x.y/list/all.json"),
        &vec![
            ManifestReference { from_origin: false, target: "a.mp4".to_owned() },
            ManifestReference { from_origin: true, target: "m/a.mp4".to_owned() },
            ManifestReference { from_origin: true, target: "http://[bad".to_owned() },
        ],
    );
    assert_eq!(shown(&resolved), vec!["https://x.y/list/a.mp4", "https://x.y/base/m/a.mp4"]);
}

#[test]
fn manifests_name_media_files() {
    let origin = url("https://x.y/");
    let current = url("https://x.y/list/all.json");
    let media = extract_manifest_media(&origin, &current, "[\"a.mp3\"]", &texts(&["media"]));
    assert_eq!(shown(&media), vec!["https://x.y/list/a.mp3", "https://x.y/media/a.mp3"]);
    assert!(extract_manifest_media(&origin, &current, "a.mp3", &texts(&["media"])).is_empty());
}
