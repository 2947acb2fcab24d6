//! The parts of a URL that the scanner reads, and the calls into the `url`
//! crate that compute them.
use vstd::prelude::*;

use crate::extension;
use crate::extension::{is_media_extension, url_extension_from_path};
use crate::text;
use crate::text::{count_bytes, same_text, starts_with, trim, CharClass};

verus! {

/// What a [`PageUrl`] stands for.
pub struct UrlView {
    pub text: Seq<char>,
    pub scheme: Seq<char>,
    pub host: Option<Seq<char>>,
    pub port: Option<u16>,
    pub path: Seq<char>,
}

/// The parts of a URL that the scanner reads.
#[derive(Debug)]
pub struct UrlParts {
    /// The whole URL.
    pub text: String,
    /// The scheme, without the colon.
    pub scheme: String,
    /// The host: a domain name or an address, where there is one.
    pub host: Option<String>,
    /// The port, or the known default of the scheme.
    pub port: Option<u16>,
    /// The path, percent-encoded, without query and fragment.
    pub path: String,
}

impl View for UrlParts {
    type V = UrlView;

    open spec fn view(&self) -> UrlView {
        UrlView {
            text: self.text@,
            scheme: self.scheme@,
            host: self.host.deep_view(),
            port: self.port,
            path: self.path@,
        }
    }
}

/// A URL: the value of the `url` crate, which references are joined to and
/// directories made from, and the parts that the scanner reads from it.
#[derive(Debug)]
pub struct PageUrl {
    parts: UrlParts,
    value: url::Url,
}

impl View for PageUrl {
    type V = UrlView;

    closed spec fn view(&self) -> UrlView {
        self.parts@
    }
}

impl DeepView for PageUrl {
    type V = UrlView;

    open spec fn deep_view(&self) -> UrlView {
        self@
    }
}

impl PageUrl {
    #[verifier::type_invariant]
    spec fn parts_are_read(self) -> bool {
        self.parts@ == url_parts(self.value)
    }

    /// The URL of a value of the `url` crate.
    fn from_value(value: url::Url) -> (found: PageUrl)
        ensures
            found@ == url_parts(value),
    {
        let parts = read_parts(&value);
        PageUrl { parts, value }
    }

    /// The value of the `url` crate.
    pub fn value(&self) -> (value: &url::Url)
        ensures
            url_parts(*value) == self@,
    {
        proof {
            use_type_invariant(self);
        }
        &self.value
    }

    /// The whole URL.
    pub fn text(&self) -> (text: &str)
        ensures
            text@ == self@.text,
    {
        self.parts.text.as_str()
    }

    /// The scheme, without the colon.
    pub fn scheme(&self) -> (scheme: &str)
        ensures
            scheme@ == self@.scheme,
    {
        self.parts.scheme.as_str()
    }

    /// The host, where there is one.
    pub fn host(&self) -> (host: &Option<String>)
        ensures
            host.deep_view() == self@.host,
    {
        &self.parts.host
    }

    /// The port, or the known default of the scheme.
    pub fn port(&self) -> (port: Option<u16>)
        ensures
            port == self@.port,
    {
        self.parts.port
    }

    /// The path, percent-encoded, without query and fragment.
    pub fn path(&self) -> (path: &str)
        ensures
            path@ == self@.path,
    {
        self.parts.path.as_str()
    }
}

impl Clone for PageUrl {
    fn clone(&self) -> (copy: PageUrl)
        ensures
            copy@ == self@,
    {
        PageUrl::from_value(copy_value(self.value()))
    }
}

/// A URL of the `url` crate.
#[verifier::external_type_specification]
#[verifier::external_body]
pub struct ExUrl(url::Url);

/// What the accessors `as_str`, `scheme`, `host_str`, `port_or_known_default`
/// and `path` read from a URL of the `url` crate.
pub uninterp spec fn url_parts(value: url::Url) -> UrlView;

/// Calls `Url::as_str`, `Url::scheme`, `Url::host_str`,
/// `Url::port_or_known_default` and `Url::path`.
#[verifier::external_body]
fn read_parts(value: &url::Url) -> (parts: UrlParts)
    ensures
        parts@ == url_parts(*value),
{
    UrlParts {
        text: value.as_str().to_owned(),
        scheme: value.scheme().to_owned(),
        host: value.host_str().map(str::to_owned),
        port: value.port_or_known_default(),
        path: value.path().to_owned(),
    }
}

/// Calls `Url::clone`: the copy has the same parts.
#[verifier::external_body]
fn copy_value(value: &url::Url) -> (copy: url::Url)
    ensures
        url_parts(copy) == url_parts(*value),
{
    value.clone()
}

/// Whether a URL has one of the two schemes of the web.
pub open spec fn on_web(of: UrlView) -> bool {
    of.scheme == "http"@ || of.scheme == "https"@
}

/// Whether what is parsed has the scheme that a text begins with, where that
/// is one of the two schemes of the web.
pub open spec fn scheme_kept(text: Seq<char>, parsed: Result<UrlView, Seq<char>>) -> bool {
    match parsed {
        Ok(of) => {
            &&& "http://"@.is_prefix_of(text) ==> of.scheme == "http"@
            &&& "https://"@.is_prefix_of(text) ==> of.scheme == "https"@
        },
        Err(_) => true,
    }
}

/// What `Url::parse` gives for a text: the parts of the URL, or the words of
/// the error.
pub uninterp spec fn parsed_url(text: Seq<char>) -> Result<UrlView, Seq<char>>;

/// Calls `Url::parse` of the `url` crate; an error is given as the text that
/// it displays. The result depends on the text alone, and keeps a scheme of the
/// web that the text begins with.
#[verifier::external_body]
fn parse_text(text: &str) -> (parsed: Result<url::Url, String>)
    ensures
        match parsed {
            Ok(value) => parsed_url(text@) == Ok::<UrlView, Seq<char>>(url_parts(value)),
            Err(words) => parsed_url(text@) == Err::<UrlView, Seq<char>>(words@),
        },
        match parsed {
            Ok(value) => scheme_kept(text@, Ok(url_parts(value))),
            Err(_) => true,
        },
{
    url::Url::parse(text).map_err(|err| err.to_string())
}

/// Parses a text as a URL; an error is given as the text that it displays.
pub fn parse_url(text: &str) -> (parsed: Result<PageUrl, String>)
    ensures
        result_view(parsed) == parsed_url(text@),
        scheme_kept(text@, result_view(parsed)),
{
    match parse_text(text) {
        Ok(value) => Ok(PageUrl::from_value(value)),
        Err(words) => Err(words),
    }
}

/// Whether the text of a URL of the web, where it is parsed again, gives that
/// URL back.
pub open spec fn reads_back(of: UrlView) -> bool {
    on_web(of) ==> match parsed_url(of.text) {
        Ok(again) => again == of,
        Err(_) => true,
    }
}

/// Whether the URL reads back, where there is one.
pub open spec fn reads_back_if_any(found: Option<UrlView>) -> bool {
    match found {
        Some(of) => reads_back(of),
        None => true,
    }
}

/// Whether all of some URLs read back.
pub open spec fn all_read_back(found: Seq<UrlView>) -> bool {
    forall|i: int| 0 <= i < found.len() ==> reads_back(#[trigger] found[i])
}

/// What `Url::join` gives for a base and a reference: the parts of the URL, or
/// nothing where it fails.
pub uninterp spec fn joined_url(base: UrlView, reference: Seq<char>) -> Option<UrlView>;

/// Whether the URL has these parts, where there is one.
pub open spec fn has_parts(value: Option<url::Url>, parts: Option<UrlView>) -> bool {
    match value {
        Some(found) => parts == Some(url_parts(found)),
        None => parts is None,
    }
}

/// Calls `Url::join` of the `url` crate; an error gives nothing. The result
/// depends on the reference and on the parts of the base alone: its text, in which
/// the path ends at the first question mark or hash, tells the rest of it. The
/// text of a result of the schemes http and https is in normal form: where
/// `Url::parse` takes it, it gives the same URL. Of other schemes that is not
/// claimed, nor that the text is always taken: a host in `xn--` form can be too
/// long to be read again.
#[verifier::external_body]
fn join_value(base: &url::Url, reference: &str) -> (joined: Option<url::Url>)
    ensures
        has_parts(joined, joined_url(url_parts(*base), reference@)),
        match joined {
            Some(value) => reads_back(url_parts(value)),
            None => true,
        },
{
    base.join(reference).ok()
}

/// Joins a reference to a base; none where that gives no URL.
pub(crate) fn join_url(base: &PageUrl, reference: &str) -> (joined: Option<PageUrl>)
    ensures
        joined.deep_view() == joined_url(base@, reference@),
        reads_back_if_any(joined.deep_view()),
{
    match join_value(base.value(), reference) {
        Some(value) => Some(PageUrl::from_value(value)),
        None => None,
    }
}

/// The length in bytes up to which a URL can be edited: the `url` crate holds
/// positions in a URL as 32-bit numbers.
pub const MAX_EDITED_BYTES: usize = 0xffff_ffff;

/// Where the path of a URL ends in its text: at the query, at the fragment, or
/// with the text.
pub open spec fn path_end(text: Seq<char>) -> int {
    let query = text.index_of_first('?');
    let fragment = text.index_of_first('#');
    match (query, fragment) {
        (Some(i), Some(j)) => if i < j {
            i
        } else {
            j
        },
        (Some(i), None) => i,
        (None, Some(j)) => j,
        (None, None) => text.len() as int,
    }
}

/// A URL with another path in place of its own.
pub open spec fn with_path(of: UrlView, path: Seq<char>) -> UrlView {
    let end = path_end(of.text);
    UrlView {
        text: of.text.take(end - of.path.len()) + path + of.text.skip(end),
        path,
        ..of
    }
}

/// Whether a URL has path segments: what follows the colon of its scheme begins
/// with a slash.
pub open spec fn segmented(of: UrlView) -> bool {
    let colon = of.scheme.len() as int;
    colon + 1 < of.text.len() && of.text[colon + 1] == '/'
}

/// What is left of a path when its last segment is dropped.
pub open spec fn segment_popped(path: Seq<char>) -> Seq<char> {
    match path.index_of_last('/') {
        Some(i) => if i == 0 {
            path.take(1)
        } else {
            path.take(i)
        },
        None => path,
    }
}

/// The path without one slash at its end, unless that is all there is.
pub open spec fn slash_popped(path: Seq<char>) -> Seq<char> {
    if path.len() > 1 && path.last() == '/' {
        path.drop_last()
    } else {
        path
    }
}

/// The path with a slash at its end, unless it is a single slash.
pub open spec fn slash_pushed(path: Seq<char>) -> Seq<char> {
    if path.len() == 1 {
        path
    } else {
        path.push('/')
    }
}

/// The path with an empty segment at its end. The path of a file URL keeps one
/// slash at its start.
pub open spec fn empty_segment_pushed(scheme: Seq<char>, path: Seq<char>) -> Seq<char> {
    if scheme == "file"@ {
        seq!['/'] + text::left_trimmed(slash_pushed(path), CharClass::Only('/'))
    } else {
        slash_pushed(path)
    }
}

/// The path of the directory that holds the file of a path, in a URL that is no
/// file URL.
pub open spec fn directory_path(path: Seq<char>) -> Seq<char> {
    slash_pushed(slash_popped(segment_popped(path)))
}

/// Calls `Url::path_segments_mut` of the `url` crate, and `pop` on the editor:
/// the last segment of the path is dropped, and all else stays. There is an error,
/// and nothing changes, just where the URL has no path segments. The URL does not
/// grow, gets shorter where its path is more than one character, and still has
/// path segments.
#[verifier::external_body]
fn pop_segment(value: &mut url::Url) -> (done: Result<(), ()>)
    requires
        text::byte_len(url_parts(*old(value)).text) <= MAX_EDITED_BYTES,
    ensures
        done is Ok <==> segmented(url_parts(*old(value))),
        done is Err ==> url_parts(*final(value)) == url_parts(*old(value)),
        done is Ok ==> url_parts(*final(value)) == with_path(
            url_parts(*old(value)),
            segment_popped(url_parts(*old(value)).path),
        ),
        done is Ok ==> segmented(url_parts(*final(value))),
        text::byte_len(url_parts(*final(value)).text) <= text::byte_len(
            url_parts(*old(value)).text,
        ),
        done is Ok && url_parts(*old(value)).path.len() > 1 ==> text::byte_len(
            url_parts(*final(value)).text,
        ) < text::byte_len(url_parts(*old(value)).text),
{
    value.path_segments_mut()?.pop();
    Ok(())
}

/// Calls `Url::path_segments_mut` of the `url` crate, and `pop_if_empty` on the
/// editor: a slash at the end of the path is dropped, unless it is all of it, and
/// all else stays. There is an error, and nothing changes, just where the URL has
/// no path segments. The URL does not grow, and still has path segments.
#[verifier::external_body]
fn pop_empty_segment(value: &mut url::Url) -> (done: Result<(), ()>)
    requires
        text::byte_len(url_parts(*old(value)).text) <= MAX_EDITED_BYTES,
    ensures
        done is Ok <==> segmented(url_parts(*old(value))),
        done is Err ==> url_parts(*final(value)) == url_parts(*old(value)),
        done is Ok ==> url_parts(*final(value)) == with_path(
            url_parts(*old(value)),
            slash_popped(url_parts(*old(value)).path),
        ),
        done is Ok ==> segmented(url_parts(*final(value))),
        text::byte_len(url_parts(*final(value)).text) <= text::byte_len(
            url_parts(*old(value)).text,
        ),
{
    value.path_segments_mut()?.pop_if_empty();
    Ok(())
}

/// Calls `Url::path_segments_mut` of the `url` crate, and `push` on the editor
/// with a segment, which here is the empty one: the path gets a slash at its end,
/// unless it is a single slash, and all else stays. There is an error, and
/// nothing changes, just where the URL has no path segments. The text of a URL of
/// the schemes http and https is in normal form, as that of a joined one is.
#[verifier::external_body]
fn push_segment(value: &mut url::Url, segment: &str) -> (done: Result<(), ()>)
    requires
        text::byte_len(url_parts(*old(value)).text) <= MAX_EDITED_BYTES,
        text::byte_len(url_parts(*old(value)).text) < MAX_EDITED_BYTES || url_parts(
            *old(value),
        ).path.len() == 1,
        segment@.len() == 0,
    ensures
        done is Ok <==> segmented(url_parts(*old(value))),
        done is Err ==> url_parts(*final(value)) == url_parts(*old(value)),
        done is Ok ==> url_parts(*final(value)) == with_path(
            url_parts(*old(value)),
            empty_segment_pushed(
                url_parts(*old(value)).scheme,
                url_parts(*old(value)).path,
            ),
        ),
        reads_back(url_parts(*final(value))),
{
    value.path_segments_mut()?.push(segment);
    Ok(())
}

/// The text that the user's input is parsed as: trimmed, and with the scheme
/// https where it names neither http nor https.
pub open spec fn base_text(input: Seq<char>) -> Seq<char> {
    let given = text::trimmed(input);
    if "http://"@.is_prefix_of(given) || "https://"@.is_prefix_of(given) {
        given
    } else {
        "https://"@ + given
    }
}

/// The text that the user's input is parsed as.
pub fn with_scheme(input: &str) -> (full: String)
    ensures
        full@ == base_text(input@),
{
    let given = trim(input);
    if starts_with(given, "http://") || starts_with(given, "https://") {
        given.to_owned()
    } else {
        let mut full = "https://".to_owned();
        full.append(given);
        full
    }
}

/// The view of a result of parsing.
pub open spec fn result_view(parsed: Result<PageUrl, String>) -> Result<UrlView, Seq<char>> {
    match parsed {
        Ok(url) => Ok(url@),
        Err(words) => Err(words@),
    }
}

/// A parsed base URL as it is, an error as a message to the user.
pub open spec fn base_outcome(parsed: Result<UrlView, Seq<char>>) -> Result<UrlView, Seq<char>> {
    match parsed {
        Ok(url) => Ok(url),
        Err(words) => Err("Enter a valid URL: "@ + words),
    }
}

/// A parsed base URL as it is, an error as a message to the user.
pub fn explain_base_url(parsed: Result<PageUrl, String>) -> (outcome: Result<PageUrl, String>)
    ensures
        result_view(outcome) == base_outcome(result_view(parsed)),
{
    match parsed {
        Ok(url) => Ok(url),
        Err(words) => {
            let mut message = "Enter a valid URL: ".to_owned();
            message.append(words.as_str());
            Err(message)
        },
    }
}

/// The URL that a scan starts from, which has one of the two schemes of the web,
/// or a message that says why there is none.
pub fn normalize_base_url(input: &str) -> (base: Result<PageUrl, String>)
    ensures
        result_view(base) == base_outcome(parsed_url(base_text(input@))),
        base matches Ok(found) ==> on_web(found@),
{
    let full = with_scheme(input);
    assert("https://"@.is_prefix_of("https://"@ + text::trimmed(input@))) by {
        let whole = "https://"@ + text::trimmed(input@);
        assert(whole.subrange(0, "https://"@.len() as int) =~= "https://"@);
    }
    explain_base_url(parse_url(full.as_str()))
}

/// Whether two URLs agree in scheme, host and port.
pub open spec fn on_same_origin(left: UrlView, right: UrlView) -> bool {
    &&& left.scheme == right.scheme
    &&& left.host == right.host
    &&& left.port == right.port
}

/// Whether two optional texts are the same.
fn same_optional_text(left: &Option<String>, right: &Option<String>) -> (same: bool)
    ensures
        same == (left.deep_view() == right.deep_view()),
{
    match (left, right) {
        (Some(a), Some(b)) => same_text(a.as_str(), b.as_str()),
        (None, None) => true,
        _ => false,
    }
}

/// Whether two URLs agree in scheme, host and port.
pub fn same_origin(left: &PageUrl, right: &PageUrl) -> (same: bool)
    ensures
        same == on_same_origin(left@, right@),
{
    same_text(left.scheme(), right.scheme()) && same_optional_text(left.host(), right.host())
        && left.port() == right.port()
}

/// The normalised extension of a URL's path, if it has one.
pub fn url_extension(url: &PageUrl) -> (extension: Option<String>)
    ensures
        extension.deep_view() == extension::path_extension(url@.path),
{
    url_extension_from_path(url.path())
}

/// Whether a URL's path has an extension.
pub fn has_file_extension(url: &PageUrl) -> (found: bool)
    ensures
        found == (extension::path_extension(url@.path) is Some),
{
    url_extension(url).is_some()
}

/// Whether a path has the extension of a video or audio format.
pub open spec fn media_path(path: Seq<char>) -> bool {
    extension::path_extension(path) matches Some(found) && extension::names_media(found)
}

/// Whether a URL's path has the extension of a video or audio format.
pub fn is_media_url(url: &PageUrl) -> (found: bool)
    ensures
        found == media_path(url@.path),
{
    match url_extension(url) {
        Some(extension) => is_media_extension(extension.as_str()),
        None => false,
    }
}

/// Whether a URL's path lies under `/api/`.
pub fn is_api_endpoint(url: &PageUrl) -> (found: bool)
    ensures
        found == "/api/"@.is_prefix_of(url@.path),
{
    starts_with(url.path(), "/api/")
}

/// The URL of the directory that holds the file of a URL: its last segment is
/// dropped, then a slash at its end, and then an empty segment is added.
pub open spec fn directory_url(of: UrlView) -> UrlView {
    let popped = with_path(of, segment_popped(of.path));
    let bare = with_path(popped, slash_popped(popped.path));
    with_path(bare, empty_segment_pushed(bare.scheme, bare.path))
}

/// What [`parent_directory_url`] gives for a URL.
pub open spec fn directory_if_any(of: UrlView) -> Option<UrlView> {
    if segmented(of) {
        Some(directory_url(of))
    } else {
        None
    }
}

/// Whether a URL is short enough to be edited: one without a path gets a byte
/// longer.
pub open spec fn editable(of: UrlView) -> bool {
    &&& text::byte_len(of.text) <= MAX_EDITED_BYTES
    &&& of.path.len() == 0 ==> text::byte_len(of.text) < MAX_EDITED_BYTES
}

/// Whether a URL is short enough to be edited.
pub fn is_editable(url: &PageUrl) -> (short: bool)
    ensures
        short == editable(url@),
{
    let size: usize = count_bytes(url.text());
    size < MAX_EDITED_BYTES || (size == MAX_EDITED_BYTES && !url.path().is_empty())
}

/// The directory that holds the file of a URL, where the URL has path segments.
pub fn parent_directory_url(url: &PageUrl) -> (directory: Option<PageUrl>)
    requires
        editable(url@),
    ensures
        directory.deep_view() == directory_if_any(url@),
        reads_back_if_any(directory.deep_view()),
{
    let mut value = copy_value(url.value());
    if pop_segment(&mut value).is_err() {
        return None;
    }
    if pop_empty_segment(&mut value).is_err() {
        return None;
    }
    proof {
        reveal_strlit("");
        let path = url@.path;
        path.index_of_last_ensures('/');
        if path.len() == 1 {
            assert(segment_popped(path) =~= path);
        }
    }
    if push_segment(&mut value, "").is_err() {
        return None;
    }
    Some(PageUrl::from_value(value))
}

/// Whether a page with this path is crawled: one without an extension, or with
/// that of a text format of the web.
pub open spec fn crawled_path(path: Seq<char>) -> bool {
    match extension::path_extension(path) {
        None => true,
        Some(found) => {
            ||| found == "html"@
            ||| found == "htm"@
            ||| found == "js"@
            ||| found == "css"@
            ||| found == "json"@
            ||| found == "xml"@
            ||| found == "txt"@
        },
    }
}

/// Whether a link is crawled: one without an extension, or with that of a text
/// format of the web.
pub fn should_crawl_url(url: &PageUrl) -> (crawl: bool)
    ensures
        crawl == crawled_path(url@.path),
{
    match url_extension(url) {
        None => true,
        Some(found) => {
            let e = found.as_str();
            same_text(e, "html") || same_text(e, "htm") || same_text(e, "js") || same_text(e, "css")
                || same_text(e, "json") || same_text(e, "xml") || same_text(e, "txt")
        },
    }
}

} // verus!
