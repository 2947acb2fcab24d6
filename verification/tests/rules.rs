use domain_scanner::content::{
    content_type_family, content_type_matches_url, parse_content_range_total, should_emit_file,
    should_parse_for_links,
};
use domain_scanner::extension::{
    companion_media_filenames, is_bare_filename, is_media_extension, normalize_extension,
    url_extension_from_path,
};
use domain_scanner::references::looks_like_reference;
use domain_scanner::urls::{parse_url, PageUrl};

fn page(path: &str) -> PageUrl {
    parse_url(&format!("https://example.com{path}")).expect("a URL")
}

fn texts(items: &[&str]) -> Vec<String> {
    items.iter().map(|item| item.to_string()).collect()
}

#[test]
fn extensions_are_normalised() {
    assert_eq!(normalize_extension(" ..MP4 "), "mp4");
    assert_eq!(normalize_extension("tar.gz"), "tar.gz");
    assert_eq!(normalize_extension("..."), "");
    assert_eq!(normalize_extension(""), "");
    assert_eq!(normalize_extension("É"), "É");
}

#[test]
fn normalised_extensions_stay() {
    for given in [" ..MP4 ", "zip", "", ".Tar.Gz"] {
        let once = normalize_extension(given);
        assert_eq!(normalize_extension(&once), once);
    }
    // White space behind the dots is only dropped the second time.
    assert_eq!(normalize_extension(". a"), " a");
    assert_eq!(normalize_extension(" a"), "a");
}

#[test]
fn extensions_ignore_case_and_a_leading_dot() {
    assert_eq!(normalize_extension("MP4"), normalize_extension("mp4"));
    assert_eq!(normalize_extension(".mp4"), normalize_extension("mp4"));
    assert_eq!(normalize_extension("..mp4"), normalize_extension(".mp4"));
}

#[test]
fn extensions_are_read_from_paths() {
    assert_eq!(url_extension_from_path("/a/b.TXT"), Some("txt".to_owned()));
    assert_eq!(url_extension_from_path("/a.b/c"), None);
    assert_eq!(url_extension_from_path("/a/b.txt?x=/y.zip"), Some("txt".to_owned()));
    assert_eq!(url_extension_from_path("/a/b.tar.gz"), Some("gz".to_owned()));
    assert_eq!(url_extension_from_path("/.env"), Some("env".to_owned()));
    assert_eq!(url_extension_from_path("file."), None);
    assert_eq!(url_extension_from_path(""), None);
    assert_eq!(url_extension_from_path("/"), None);
    assert_eq!(url_extension_from_path("a.123456789012"), Some("123456789012".to_owned()));
    assert_eq!(url_extension_from_path("a.1234567890123"), None);
    // Six characters of two bytes each still fit, seven do not.
    assert_eq!(url_extension_from_path("a.éééééé"), Some("éééééé".to_owned()));
    assert_eq!(url_extension_from_path("a.ééééééé"), None);
    assert_eq!(url_extension_from_path("a. "), Some("".to_owned()));
}

#[test]
fn a_named_file_has_its_extension() {
    for directory in ["", "/a", "/a.b/c.d", "http://x"] {
        let path = format!("{directory}/film.final.WebM");
        assert_eq!(url_extension_from_path(&path), Some("webm".to_owned()));
    }
}

#[test]
fn media_extensions_are_video_and_audio() {
    for known in ["webm", "mp4", "mkv", "avi", "mov", "mp3", "wav", "ogg", "flac"] {
        assert!(is_media_extension(known));
    }
    for other in ["MP4", "jpg", "", "mp"] {
        assert!(!is_media_extension(other));
    }
}

#[test]
fn bare_filenames_have_no_directory_and_no_scheme() {
    assert!(is_bare_filename("a.mp4"));
    assert!(!is_bare_filename("x/a.mp4"));
    assert!(!is_bare_filename("x\\a.mp4"));
    assert!(!is_bare_filename("httpd.mp4"));
}

#[test]
fn videos_have_three_companions() {
    assert_eq!(companion_media_filenames("v/a.b.MP4"), vec!["v/a.b.webp", "v/a.b.png", "v/a.b.jpg"]);
    assert_eq!(companion_media_filenames(".webm"), vec![".webp", ".png", ".jpg"]);
    assert!(companion_media_filenames("a.mp3").is_empty());
    assert!(companion_media_filenames("mp4").is_empty());
}

#[test]
fn families_drop_parameters_and_case() {
    assert_eq!(content_type_family(" Text/HTML ; charset=utf-8"), "text/html");
    assert_eq!(content_type_family("text/html"), content_type_family("text/html;x;y"));
    assert_eq!(content_type_family("a;b"), content_type_family("a;b;c"));
    assert_eq!(content_type_family("TEXT/html"), content_type_family("text/html"));
    assert_eq!(content_type_family(""), "");
    assert_eq!(content_type_family("; text/html"), "");
}

#[test]
fn range_totals_are_read() {
    assert_eq!(parse_content_range_total("bytes 0-16383/73829"), Some(73829));
    assert_eq!(parse_content_range_total("bytes 0-1/18446744073709551615"), Some(u64::MAX));
    assert_eq!(parse_content_range_total("bytes 0-1/18446744073709551616"), None);
    assert_eq!(parse_content_range_total("bytes 0-1/*"), None);
    assert_eq!(parse_content_range_total("bytes 0-1"), None);
    assert_eq!(parse_content_range_total("a/b/12"), Some(12));
    assert_eq!(parse_content_range_total("a/+12"), Some(12));
    assert_eq!(parse_content_range_total("a/"), None);
}

#[test]
fn selected_extensions_are_reported() {
    let selected = texts(&["mp4", "zip"]);
    assert!(should_emit_file(&page("/a.MP4"), &selected, false, "text/html"));
    assert!(!should_emit_file(&page("/a.mp3"), &selected, false, "audio/mpeg"));
    assert!(!should_emit_file(&page("/a"), &selected, false, "video/mp4"));
}

#[test]
fn everything_but_plain_pages_is_reported() {
    let none = texts(&[]);
    assert!(should_emit_file(&page("/a.php"), &none, true, "text/html"));
    assert!(!should_emit_file(&page("/a"), &none, true, "text/html; charset=utf-8"));
    assert!(should_emit_file(&page("/a"), &none, true, "Text/HTML"));
    assert!(should_emit_file(&page("/a"), &none, true, ""));
}

#[test]
fn content_types_fit_their_extensions() {
    let fitting = [
        ("/a.webm", "video/webm"),
        ("/a.mp4", "Video/MP4; codecs=x"),
        ("/a.mkv", "video/x-matroska"),
        ("/a.avi", "video/x-msvideo"),
        ("/a.mov", "video/quicktime"),
        ("/a.mp3", "audio/mpeg"),
        ("/a.wav", "audio/wav"),
        ("/a.ogg", "application/ogg"),
        ("/a.flac", "audio/flac"),
        ("/a.jpg", "image/jpeg"),
        ("/a.jpeg", "image/jpeg"),
        ("/a.png", "image/png"),
        ("/a.gif", "image/gif"),
        ("/a.webp", "image/webp"),
        ("/a.svg", "image/svg+xml"),
        ("/a.zip", "application/x-zip-compressed"),
        ("/a.rar", "application/vnd.rar"),
        ("/a.tar", "application/x-tar"),
        ("/a.gz", "application/x-gzip"),
        ("/a.gz", "application/gzip"),
        ("/a.7z", "application/x-7z-compressed"),
        ("/a.pdf", "application/pdf"),
        ("/a.txt", "text/plain; charset=utf-8"),
        ("/a.json", "application/json"),
        ("/a.json", "application/ld+json"),
        ("/a.xml", "application/xml"),
        ("/a.xml", "text/xml"),
        ("/a.xml", "application/atom+xml"),
        ("/a.csv", "text/csv"),
        ("/a.csv", "application/csv"),
        ("/a.php", "text/html"),
        ("/a.html", "text/html"),
        ("/a.js", "application/javascript"),
        ("/a.js", "text/javascript"),
        ("/a.js", "application/x-javascript"),
        ("/.env", "text/plain"),
        ("/.env", "application/json"),
        ("/web.config", "application/xml"),
        ("/web.config", "text/xml"),
        ("/a.mp4", ""),
        ("/a.mp4", "application/octet-stream"),
        ("/a", "application/octet-stream"),
    ];
    for (path, content_type) in fitting {
        assert!(content_type_matches_url(&page(path), content_type, false), "{path} {content_type}");
        assert!(content_type_matches_url(&page(path), content_type, true), "{path} {content_type}");
    }
    let misfits = [
        ("/a.mp4", "text/html"),
        ("/a.mp3", "video/mp4"),
        ("/a.png", "text/html"),
        ("/a.zip", "application/gzp"),
        ("/a.gz", "application/x-tar"),
        ("/a.pdf", "application/pdfx"),
        ("/a.txt", "text/html"),
        ("/a.json", "text/html"),
        ("/a.xml", "text/html"),
        ("/a.csv", "text/plain"),
        ("/a.php", "application/json"),
        ("/a.js", "text/html"),
        ("/.env", "text/html"),
        ("/a", "text/html"),
        ("/a.xyz", "text/html"),
    ];
    for (path, content_type) in misfits {
        assert!(!content_type_matches_url(&page(path), content_type, false), "{path}");
        assert!(!content_type_matches_url(&page(path), content_type, true), "{path}");
    }
    for path in ["/a", "/a.xyz"] {
        assert!(content_type_matches_url(&page(path), "image/png", true));
        assert!(!content_type_matches_url(&page(path), "image/png", false));
    }
}

#[test]
fn texts_are_parsed_for_links() {
    for content_type in [
        "text/css",
        "application/json",
        "application/ld+json",
        "application/javascript",
        "application/x-javascript",
        "application/xml",
        "image/svg+xml",
    ] {
        assert!(should_parse_for_links(&page("/a"), content_type), "{content_type}");
    }
    for path in ["/a.html", "/a.js", "/a.css", "/a.json", "/a.xml", "/a.txt"] {
        assert!(should_parse_for_links(&page(path), "image/png"), "{path}");
    }
    assert!(!should_parse_for_links(&page("/a"), "image/png"));
    assert!(!should_parse_for_links(&page("/a.htm"), "image/png"));
    assert!(!should_parse_for_links(&page("/a"), ""));
}

#[test]
fn references_are_told_from_words() {
    for reference in ["http://x", "https://x", "/ab", "a.b", "x/y.png", "//h"] {
        assert!(looks_like_reference(reference), "{reference}");
    }
    for word in ["", "/a", "ab", "word", "data:image/png;a.b", "#a.b", "a.", "httpx"] {
        assert!(!looks_like_reference(word), "{word}");
    }
    // Three bytes are enough, whatever they write.
    assert!(looks_like_reference("/é"));
}
