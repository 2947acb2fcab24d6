//! Content types: which of them fit a URL, which are parsed for links, and
//! which responses count as files.
use vstd::prelude::*;

use crate::extension;
use crate::extension::{is_audio_extension, is_video_extension};
use crate::number;
use crate::number::parse_u64;
use crate::text;
use crate::text::{
    contains_text, ends_with, holds_text, rsplit_once, same_text, split_first, starts_with,
    to_ascii_lowercase, trim,
};
use crate::urls::{has_file_extension, url_extension, PageUrl};

verus! {

/// A content type without its parameters, in lower case.
pub open spec fn family_of(content_type: Seq<char>) -> Seq<char> {
    text::lowercased(text::trimmed(text::before_first(content_type, ';')))
}

/// A content type without its parameters, in lower case.
pub fn content_type_family(content_type: &str) -> (family: String)
    ensures
        family@ == family_of(content_type@),
{
    to_ascii_lowercase(trim(split_first(content_type, ';')))
}

/// The whole size that the value of a `Content-Range` header names: the number
/// after its last slash.
pub open spec fn range_total(value: Seq<char>) -> Option<nat> {
    match text::split_at_last(value, '/') {
        Some((_, total)) => match number::unsigned_value(total) {
            Some(n) => if n <= u64::MAX {
                Some(n)
            } else {
                None
            },
            None => None,
        },
        None => None,
    }
}

/// The whole size that the value of a `Content-Range` header names; none where
/// it is a star or no number of 64 bits.
pub fn parse_content_range_total(value: &str) -> (total: Option<u64>)
    ensures
        match total {
            Some(n) => range_total(value@) == Some(n as nat),
            None => range_total(value@) is None,
        },
{
    match rsplit_once(value, '/') {
        Some((_, total)) => parse_u64(total),
        None => None,
    }
}

/// Whether a response is worth reporting: with `everything`, any but an HTML
/// page without an extension; else one whose extension is selected.
pub open spec fn worth_reporting(
    path: Seq<char>,
    extensions: Seq<Seq<char>>,
    everything: bool,
    content_type: Seq<char>,
) -> bool {
    match extension::path_extension(path) {
        Some(found) => everything || extensions.contains(found),
        None => everything && !"text/html"@.is_prefix_of(content_type),
    }
}

/// Whether a response is worth reporting as a file.
pub fn should_emit_file(
    url: &PageUrl,
    extensions: &Vec<String>,
    scan_everything: bool,
    content_type: &str,
) -> (emit: bool)
    ensures
        emit == worth_reporting(
            url@.path,
            extensions.deep_view(),
            scan_everything,
            content_type@,
        ),
{
    if scan_everything {
        return has_file_extension(url) || !starts_with(content_type, "text/html");
    }
    match url_extension(url) {
        Some(found) => holds_text(extensions, found.as_str()),
        None => false,
    }
}

pub open spec fn names_picture(extension: Seq<char>) -> bool {
    ||| extension == "jpg"@
    ||| extension == "jpeg"@
    ||| extension == "png"@
    ||| extension == "gif"@
    ||| extension == "webp"@
    ||| extension == "svg"@
}

pub open spec fn script_family(family: Seq<char>) -> bool {
    ||| family == "application/javascript"@
    ||| family == "text/javascript"@
    ||| family == "application/x-javascript"@
}

pub open spec fn settings_family(family: Seq<char>) -> bool {
    ||| "text/plain"@.is_prefix_of(family)
    ||| family == "application/json"@
    ||| family == "application/xml"@
    ||| family == "text/xml"@
}

/// The families of content types that fit an extension. An extension that is
/// not listed fits any but HTML, and only with `everything`.
pub open spec fn family_fits(extension: Seq<char>, family: Seq<char>, everything: bool) -> bool {
    if extension::names_video(extension) {
        "video/"@.is_prefix_of(family)
    } else if extension::names_audio(extension) {
        "audio/"@.is_prefix_of(family) || family == "application/ogg"@
    } else if names_picture(extension) {
        "image/"@.is_prefix_of(family)
    } else if extension == "zip"@ || extension == "rar"@ || extension == "tar"@ || extension
        == "7z"@ {
        text::has_text(family, extension)
    } else if extension == "gz"@ {
        text::has_text(family, "gzip"@)
    } else if extension == "pdf"@ {
        family == "application/pdf"@
    } else if extension == "txt"@ {
        "text/plain"@.is_prefix_of(family)
    } else if extension == "json"@ {
        family == "application/json"@ || "+json"@.is_suffix_of(family)
    } else if extension == "xml"@ {
        family == "application/xml"@ || family == "text/xml"@ || "+xml"@.is_suffix_of(family)
    } else if extension == "csv"@ {
        family == "text/csv"@ || family == "application/csv"@
    } else if extension == "php"@ || extension == "html"@ {
        "text/html"@.is_prefix_of(family)
    } else if extension == "js"@ {
        script_family(family)
    } else if extension == "env"@ || extension == "config"@ {
        settings_family(family)
    } else {
        everything && !"text/html"@.is_prefix_of(family)
    }
}

/// Whether a content type fits a path. One that is not given, or that stands
/// for any bytes, fits every path.
pub open spec fn content_fits(path: Seq<char>, content_type: Seq<char>, everything: bool) -> bool {
    let family = family_of(content_type);
    if family.len() == 0 || family == "application/octet-stream"@ {
        true
    } else {
        match extension::path_extension(path) {
            Some(found) => family_fits(found, family, everything),
            None => everything && !"text/html"@.is_prefix_of(family),
        }
    }
}

fn is_picture_extension(extension: &str) -> (found: bool)
    ensures
        found == names_picture(extension@),
{
    same_text(extension, "jpg") || same_text(extension, "jpeg") || same_text(extension, "png")
        || same_text(extension, "gif") || same_text(extension, "webp") || same_text(
        extension,
        "svg",
    )
}

fn is_settings_family(family: &str) -> (found: bool)
    ensures
        found == settings_family(family@),
{
    starts_with(family, "text/plain") || same_text(family, "application/json") || same_text(
        family,
        "application/xml",
    ) || same_text(family, "text/xml")
}

fn is_script_family(family: &str) -> (found: bool)
    ensures
        found == script_family(family@),
{
    same_text(family, "application/javascript") || same_text(family, "text/javascript")
        || same_text(family, "application/x-javascript")
}

/// Whether a content type is one that an extension stands for.
fn fits_extension(extension: &str, family: &str, scan_everything: bool) -> (fits: bool)
    ensures
        fits == family_fits(extension@, family@, scan_everything),
{
    if is_video_extension(extension) {
        starts_with(family, "video/")
    } else if is_audio_extension(extension) {
        starts_with(family, "audio/") || same_text(family, "application/ogg")
    } else if is_picture_extension(extension) {
        starts_with(family, "image/")
    } else if same_text(extension, "zip") || same_text(extension, "rar") || same_text(
        extension,
        "tar",
    ) || same_text(extension, "7z") {
        contains_text(family, extension)
    } else if same_text(extension, "gz") {
        contains_text(family, "gzip")
    } else if same_text(extension, "pdf") {
        same_text(family, "application/pdf")
    } else if same_text(extension, "txt") {
        starts_with(family, "text/plain")
    } else if same_text(extension, "json") {
        same_text(family, "application/json") || ends_with(family, "+json")
    } else if same_text(extension, "xml") {
        same_text(family, "application/xml") || same_text(family, "text/xml") || ends_with(
            family,
            "+xml",
        )
    } else if same_text(extension, "csv") {
        same_text(family, "text/csv") || same_text(family, "application/csv")
    } else if same_text(extension, "php") || same_text(extension, "html") {
        starts_with(family, "text/html")
    } else if same_text(extension, "js") {
        is_script_family(family)
    } else if same_text(extension, "env") || same_text(extension, "config") {
        is_settings_family(family)
    } else {
        scan_everything && !starts_with(family, "text/html")
    }
}

/// Whether the content type of a response is what its URL leads one to expect.
pub fn content_type_matches_url(url: &PageUrl, content_type: &str, scan_everything: bool) -> (fits:
    bool)
    ensures
        fits == content_fits(url@.path, content_type@, scan_everything),
{
    let family = content_type_family(content_type);
    if family.as_str().is_empty() || same_text(family.as_str(), "application/octet-stream") {
        return true;
    }
    match url_extension(url) {
        Some(found) => fits_extension(found.as_str(), family.as_str(), scan_everything),
        None => scan_everything && !starts_with(family.as_str(), "text/html"),
    }
}

/// Whether a page is read for links: by its content type, or by its extension.
pub open spec fn parsed_for_links(path: Seq<char>, content_type: Seq<char>) -> bool {
    let family = family_of(content_type);
    ||| "text/"@.is_prefix_of(family)
    ||| family == "application/json"@
    ||| "+json"@.is_suffix_of(family)
    ||| family == "application/javascript"@
    ||| family == "application/x-javascript"@
    ||| family == "application/xml"@
    ||| "+xml"@.is_suffix_of(family)
    ||| match extension::path_extension(path) {
        Some(found) => {
            ||| found == "html"@
            ||| found == "js"@
            ||| found == "css"@
            ||| found == "json"@
            ||| found == "xml"@
            ||| found == "txt"@
        },
        None => false,
    }
}

/// Whether a page is read for links.
pub fn should_parse_for_links(url: &PageUrl, content_type: &str) -> (parse: bool)
    ensures
        parse == parsed_for_links(url@.path, content_type@),
{
    let owned = content_type_family(content_type);
    let family = owned.as_str();
    if starts_with(family, "text/") || same_text(family, "application/json") || ends_with(
        family,
        "+json",
    ) || same_text(family, "application/javascript") || same_text(
        family,
        "application/x-javascript",
    ) || same_text(family, "application/xml") || ends_with(family, "+xml") {
        return true;
    }
    match url_extension(url) {
        Some(found) => {
            let e = found.as_str();
            same_text(e, "html") || same_text(e, "js") || same_text(e, "css") || same_text(
                e,
                "json",
            ) || same_text(e, "xml") || same_text(e, "txt")
        },
        None => false,
    }
}

} // verus!
