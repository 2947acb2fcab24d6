use domain_scanner::resolve::resolve_all;
use domain_scanner::urls::{
    explain_base_url, has_file_extension, is_api_endpoint, is_editable, is_media_url, normalize_base_url,
    parent_directory_url, parse_url, same_origin, should_crawl_url, url_extension, with_scheme, PageUrl,
};

fn url(text: &str) -> PageUrl {
    normalize_base_url(text).expect("a URL")
}

fn directory(text: &str) -> String {
    parent_directory_url(&url(text)).expect("a directory").text().to_owned()
}

#[test]
fn bases_get_a_scheme() {
    assert_eq!(with_scheme(" example.com "), "https://example.com");
    assert_eq!(with_scheme("http://example.com"), "http://example.com");
    assert_eq!(with_scheme("https://example.com"), "https://example.com");
    assert_eq!(with_scheme("HTTP://example.com"), "https://HTTP://example.com");
    assert_eq!(with_scheme(""), "https://");
}

#[test]
fn complete_bases_stay() {
    for input in ["example.com", " x ", "", "http://a/b", "ftp://a"] {
        let full = with_scheme(input);
        assert!(full.starts_with("http://") || full.starts_with("https://"));
        assert_eq!(with_scheme(&full), full);
    }
}

#[test]
fn bases_are_parsed_into_parts() {
    let base = url("  Example.COM/a/../b c?q=1#f ");
    assert_eq!(base.text(), "https://example.com/b%20c?q=1#f");
    assert_eq!(base.scheme(), "https");
    assert_eq!(base.host(), &Some("example.com".to_owned()));
    assert_eq!(base.port(), Some(443));
    assert_eq!(base.path(), "/b%20c");
    let other = url("http://10.0.0.1:8080");
    assert_eq!(other.text(), "http://10.0.0.1:8080/");
    assert_eq!(other.host(), &Some("10.0.0.1".to_owned()));
    assert_eq!(other.port(), Some(8080));
    assert_eq!(other.path(), "/");
}

#[test]
fn bad_bases_are_explained() {
    let message = normalize_base_url("").expect_err("no URL");
    let words = url::Url::parse("https://").expect_err("no URL").to_string();
    assert_eq!(message, format!("Enter a valid URL: {words}"));
    assert_eq!(message, "Enter a valid URL: empty host");
    let message = normalize_base_url("http://a:99999").expect_err("no URL");
    assert_eq!(message, "Enter a valid URL: invalid port number");
}

#[test]
fn explanations_keep_the_words() {
    let message = explain_base_url(Err("bad".to_owned())).expect_err("no URL");
    assert_eq!(message, "Enter a valid URL: bad");
    let base = explain_base_url(Ok(url("a.b"))).expect("a URL");
    assert_eq!(base.text(), "https://a.b/");
}

#[test]
fn origins_are_scheme_host_and_port() {
    let base = url("https://example.com/a");
    assert!(same_origin(&base, &url("https://example.com:443/b?c")));
    assert!(!same_origin(&base, &url("http://example.com/a")));
    assert!(!same_origin(&base, &url("https://www.example.com/a")));
    assert!(!same_origin(&base, &url("https://example.com:8443/a")));
    assert!(!same_origin(&base, &url("https://10.0.0.1/")));
    assert!(same_origin(&url("https://10.0.0.1/"), &url("https://10.0.0.1/a")));
    assert!(!same_origin(&url("http://10.0.0.1/"), &url("http://10.0.0.2/")));
    assert!(same_origin(&url("http://[::1]/"), &url("http://[0::1]:80/a")));
    assert!(!same_origin(&url("http://[::1]/"), &url("http://[::2]/")));
}

#[test]
fn origin_is_an_equivalence() {
    let all = [url("https://a.b/x"), url("https://a.b:443/y"), url("https://a.b/z"), url("http://a.b")];
    for a in &all {
        assert!(same_origin(a, a));
        for b in &all {
            assert_eq!(same_origin(a, b), same_origin(b, a));
            for c in &all {
                assert!(!(same_origin(a, b) && same_origin(b, c)) || same_origin(a, c));
            }
        }
    }
}

#[test]
fn extensions_of_urls_ignore_the_query() {
    let file = url("https://a.b/c/d.MP4?e=f.txt#g.zip");
    assert_eq!(url_extension(&file), Some("mp4".to_owned()));
    assert!(has_file_extension(&file));
    assert!(is_media_url(&file));
    assert!(!has_file_extension(&url("https://a.b/c/d?e=f.txt")));
    assert!(!is_media_url(&url("https://a.b/c.txt")));
    assert!(!is_media_url(&url("https://a.b/c")));
}

#[test]
fn api_endpoints_lie_under_api() {
    assert!(is_api_endpoint(&url("https://a.b/api/x")));
    assert!(is_api_endpoint(&url("https://a.b/api/")));
    assert!(!is_api_endpoint(&url("https://a.b/api")));
    assert!(!is_api_endpoint(&url("https://a.b/x/api/")));
}

#[test]
fn pages_and_text_files_are_crawled() {
    for path in ["", "a", "a/", "a.html", "a.HTM", "a.js", "a.css", "a.json", "a.xml", "a.txt"] {
        assert!(should_crawl_url(&url(&format!("https://a.b/{path}"))), "{path}");
    }
    for path in ["a.mp4", "a.php", "a.png"] {
        assert!(!should_crawl_url(&url(&format!("https://a.b/{path}"))), "{path}");
    }
}

#[test]
fn directories_hold_their_files() {
    assert_eq!(directory("https://a.b/c/d/e.mp4"), "https://a.b/c/d/");
    assert_eq!(directory("https://a.b/c/d/"), "https://a.b/c/d/");
    assert_eq!(directory("https://a.b/e.mp4"), "https://a.b/");
    assert_eq!(directory("https://a.b"), "https://a.b/");
    assert_eq!(directory("https://a.b//e"), "https://a.b/");
    assert_eq!(directory("https://a.b/c//e"), "https://a.b/c/");
    assert_eq!(directory("https://a.b/c/e?x=1#y"), "https://a.b/c/?x=1#y");
}

#[test]
fn directories_begin_the_paths_of_their_files() {
    for text in ["https://a.b/c/d/e.mp4", "http://a.b:81/c//d", "https://a.b/", "https://a.b/c///d"] {
        let file = url(text);
        let found = parent_directory_url(&file).expect("a directory");
        assert!(same_origin(&file, &found));
        assert!(file.path().starts_with(found.path()));
        assert!(found.path().ends_with('/'));
    }
}

#[test]
fn directories_of_other_schemes_keep_to_their_paths() {
    for (file, expected) in [
        ("foo://h?x", "foo://h/?x"),
        ("foo:/a?b#c", "foo:/?b#c"),
        ("foo://h/a/b", "foo://h/a/"),
        ("file:///a//b", "file:///a/"),
        ("file:///b", "file:///"),
        ("HTTP://Ex.com/A B/c", "http://ex.com/A%20B/"),
    ] {
        let file = parse_url(file).expect("a URL");
        assert!(is_editable(&file));
        assert_eq!(parent_directory_url(&file).expect("a directory").text(), expected);
    }
    assert!(parent_directory_url(&parse_url("data:,x").expect("a URL")).is_none());
    assert!(parse_url("no URL").is_err());
}

#[test]
fn joined_and_edited_urls_read_back() {
    let base = url("https://Bücher.example/a/b");
    for reference in ["ä ö?ü#ß", "../x/./y//z", "//U:P@H%41.example:443/%2e%2E/q", "\\\\h\\p", "?"] {
        for joined in resolve_all(&base, &vec![reference.to_owned()]) {
            let again = url(joined.text());
            let directory = parent_directory_url(&joined).expect("a directory");
            for (one, other) in [(&joined, &again), (&directory, &url(directory.text()))] {
                assert_eq!(one.text(), other.text());
                assert_eq!(one.host(), other.host());
                assert_eq!(one.port(), other.port());
                assert_eq!(one.path(), other.path());
            }
        }
    }
}

#[test]
fn urls_without_segments_have_no_directory() {
    let mail = parse_url("mailto:a@b").expect("a URL");
    assert_eq!(mail.host(), &None);
    assert!(parent_directory_url(&mail).is_none());
}

#[test]
fn a_host_that_cannot_be_read_again_keeps_its_links_and_directories() {
    let label: String =
        (0..900u32).filter_map(|i| char::from_u32(0x4e00 + (i * 7919) % 20000)).collect();
    let base = url(&format!("https://{label}.example/a/b"));
    assert!(parse_url(base.text()).is_err());
    let joined = resolve_all(&base, &vec!["c.mp4".to_owned()]);
    assert_eq!(joined.len(), 1);
    assert!(same_origin(&base, &joined[0]));
    assert_eq!(joined[0].path(), "/a/c.mp4");
    let directory = parent_directory_url(&joined[0].clone()).expect("a directory");
    assert!(same_origin(&base, &directory));
    assert_eq!(directory.path(), "/a/");
    assert_eq!(directory.value().as_str(), directory.text());
}
