//! What the rules on URLs mean: the base of a scan, origins, directories, and which
//! URLs are crawled.
use vstd::prelude::*;

use crate::extension;
use crate::name_laws;
use crate::text;
use crate::text::CharClass;
use crate::text_laws;
use crate::urls;
use crate::urls::{
    explain_base_url, has_file_extension, is_api_endpoint, is_editable, is_media_url,
    normalize_base_url, parent_directory_url, parse_url, same_origin, should_crawl_url,
    url_extension, with_scheme, PageUrl, UrlParts, UrlView,
};

verus! {

/// The parts of a URL read as they stand.
pub proof fn law_parts_view(parts: UrlParts)
    ensures
        parts@.text == parts.text@,
        parts@.scheme == parts.scheme@,
        parts@.host == parts.host.deep_view(),
        parts@.port == parts.port,
        parts@.path == parts.path@,
{
}

/// A URL is asked for its parts.
pub proof fn law_parts(
    url: PageUrl,
    whole: &str,
    scheme: &str,
    host: &Option<String>,
    port: Option<u16>,
    path: &str,
    value: &url::Url,
)
    requires
        call_ensures(PageUrl::value, (&url,), value),
        call_ensures(PageUrl::text, (&url,), whole),
        call_ensures(PageUrl::scheme, (&url,), scheme),
        call_ensures(PageUrl::host, (&url,), host),
        call_ensures(PageUrl::port, (&url,), port),
        call_ensures(PageUrl::path, (&url,), path),
    ensures
        whole@ == url@.text,
        scheme@ == url@.scheme,
        host.deep_view() == url@.host,
        port == url@.port,
        path@ == url@.path,
        url.deep_view() == url@,
        urls::url_parts(*value) == url@,
{
}

/// Parsing gives what the outside function gives, as it stands.
pub proof fn law_parse(given: &str, parsed: Result<PageUrl, String>)
    requires
        call_ensures(parse_url, (given,), parsed),
    ensures
        parsed is Ok ==> urls::parsed_url(given@) == Ok::<UrlView, Seq<char>>(parsed->Ok_0@),
        parsed is Err ==> urls::parsed_url(given@) == Err::<UrlView, Seq<char>>(parsed->Err_0@),
{
}

/// The base of a scan is what stands between white space, with the scheme for HTTPS
/// before it unless it begins with that or with the one for plain HTTP.
pub proof fn law_base_text(
    input: &str,
    full: String,
    lead: Seq<char>,
    core: Seq<char>,
    tail: Seq<char>,
)
    requires
        call_ensures(with_scheme, (input,), full),
        input@ == lead + core + tail,
        text_laws::all_in(lead, CharClass::WhiteSpace),
        text_laws::all_in(tail, CharClass::WhiteSpace),
        text_laws::bare_ends(core, CharClass::WhiteSpace),
    ensures
        "http://"@.is_prefix_of(core) ==> full@ == core,
        "https://"@.is_prefix_of(core) ==> full@ == core,
        !"http://"@.is_prefix_of(core) && !"https://"@.is_prefix_of(core) ==> full@ == "https://"@
            + core,
        full@ == urls::base_text(input@),
{
    text_laws::law_trim(lead, core, tail, CharClass::WhiteSpace);
}

/// The base of a scan is the URL that its text parses as, unchanged; else there is a
/// message that ends with the reason.
pub proof fn law_base_url(
    input: &str,
    full: String,
    parsed: Result<PageUrl, String>,
    base: Result<PageUrl, String>,
    explained: Result<PageUrl, String>,
    whole: &str,
)
    requires
        call_ensures(with_scheme, (input,), full),
        whole@ == full@,
        call_ensures(parse_url, (whole,), parsed),
        call_ensures(normalize_base_url, (input,), base),
        call_ensures(explain_base_url, (parsed,), explained),
    ensures
        base is Ok <==> parsed is Ok,
        base is Ok ==> base->Ok_0@ == parsed->Ok_0@,
        base is Err ==> base->Err_0@ == "Enter a valid URL: "@ + parsed->Err_0@,
        explained is Ok <==> parsed is Ok,
        explained is Ok ==> explained->Ok_0@ == parsed->Ok_0@,
        explained is Err ==> explained->Err_0@ == "Enter a valid URL: "@ + parsed->Err_0@,
{
}

/// Two URLs have the same origin just where their schemes, their hosts and their ports
/// are the same; the rest of them does not matter.
pub proof fn law_same_origin(left: PageUrl, right: PageUrl, same: bool)
    requires
        call_ensures(same_origin, (&left, &right), same),
    ensures
        same <==> left@.scheme == right@.scheme && left@.host == right@.host && left@.port
            == right@.port,
        same <==> urls::on_same_origin(left@, right@),
{
}

/// The two schemes of the web.
pub proof fn law_on_web(of: UrlView)
    ensures
        urls::on_web(of) <==> of.scheme == "http"@ || of.scheme == "https"@,
{
}

/// What the path of a URL tells: its extension, if any, whether it leads to media, and
/// whether it belongs to an API.
pub proof fn law_path_rules(
    url: PageUrl,
    known: Option<String>,
    has: bool,
    media: bool,
    api: bool,
)
    requires
        call_ensures(url_extension, (&url,), known),
        call_ensures(has_file_extension, (&url,), has),
        call_ensures(is_media_url, (&url,), media),
        call_ensures(is_api_endpoint, (&url,), api),
    ensures
        known is Some ==> extension::path_extension(url@.path) == Some(known->0@),
        known is None ==> extension::path_extension(url@.path) is None,
        has <==> known is Some,
        known is None ==> !media,
        known is Some ==> (media <==> name_laws::among(known->0@, name_laws::video_formats())
            || name_laws::among(known->0@, name_laws::audio_formats())),
        media <==> urls::media_path(url@.path),
        api <==> url@.path.len() >= 5 && url@.path.take(5) == seq!['/', 'a', 'p', 'i', '/'],
{
    if known is Some {
        name_laws::law_media(known->0@);
    }
    reveal_strlit("/api/");
    assert("/api/"@ =~= seq!['/', 'a', 'p', 'i', '/']);
    assert(url@.path.len() >= 5 ==> url@.path.take(5) =~= url@.path.subrange(0, 5));
}

/// A URL is crawled just where its path has no extension or that of a page, a script, a
/// style sheet, a structured document or a text.
pub proof fn law_crawled(url: PageUrl, crawled: bool)
    requires
        call_ensures(should_crawl_url, (&url,), crawled),
    ensures
        extension::path_extension(url@.path) is None ==> crawled,
        extension::path_extension(url@.path) is Some ==> (crawled <==> name_laws::among(
            extension::path_extension(url@.path)->0,
            seq!["html"@, "htm"@, "js"@, "css"@, "json"@, "xml"@, "txt"@],
        )),
        crawled <==> urls::crawled_path(url@.path),
{
    let all = seq!["html"@, "htm"@, "js"@, "css"@, "json"@, "xml"@, "txt"@];
    assert(all[0] == "html"@ && all[1] == "htm"@ && all[2] == "js"@ && all[3] == "css"@);
    assert(all[4] == "json"@ && all[5] == "xml"@ && all[6] == "txt"@);
}

/// A URL can be edited where its text is at most 4294967295 bytes long, and one less
/// where it has no path.
pub proof fn law_editable(url: PageUrl, short: bool)
    requires
        call_ensures(is_editable, (&url,), short),
    ensures
        url@.path.len() > 0 ==> (short <==> text::byte_len(url@.text) <= 4294967295),
        url@.path.len() == 0 ==> (short <==> text::byte_len(url@.text) < 4294967295),
        short <==> urls::editable(url@),
{
}

/// A URL has path segments just where a slash follows the colon behind its scheme.
pub proof fn law_segmented(of: UrlView, rest: Seq<char>)
    requires
        of.text == of.scheme.push(':') + rest,
    ensures
        urls::segmented(of) <==> rest.len() > 0 && rest[0] == '/',
{
}

/// Whether a text is what stands before, the path and what stands behind it in the text
/// of a URL, with the path before the first question mark or hash.
pub open spec fn holds_path(of: UrlView, before: Seq<char>, behind: Seq<char>) -> bool {
    &&& of.text == before + of.path + behind
    &&& !(before + of.path).contains('?') && !(before + of.path).contains('#')
    &&& behind.len() > 0 ==> behind[0] == '?' || behind[0] == '#'
}

/// The path of a URL is replaced in its text, and all else stays.
pub proof fn law_with_path(of: UrlView, before: Seq<char>, behind: Seq<char>, path: Seq<char>)
    requires
        holds_path(of, before, behind),
    ensures
        urls::with_path(of, path).text == before + path + behind,
        urls::with_path(of, path).path == path,
        urls::with_path(of, path).scheme == of.scheme,
        urls::with_path(of, path).host == of.host,
        urls::with_path(of, path).port == of.port,
        !path.contains('?') && !path.contains('#') ==> holds_path(
            urls::with_path(of, path),
            before,
            behind,
        ),
{
    let front = before + of.path;
    let end = front.len() as int;
    of.text.index_of_first_ensures('?');
    of.text.index_of_first_ensures('#');
    assert forall|i: int| 0 <= i < end implies of.text[i] != '?' && of.text[i] != '#' by {
        assert(of.text[i] == front[i]);
        assert(front.contains(front[i]));
    }
    if behind.len() > 0 {
        assert(of.text[end] == behind[0]);
    }
    assert(urls::path_end(of.text) == end);
    assert(of.text.take(end - of.path.len()) =~= before);
    assert(of.text.skip(end) =~= behind);
    if !path.contains('?') && !path.contains('#') {
        text::lemma_add_contains(before, of.path, '?');
        text::lemma_add_contains(before, of.path, '#');
        text::lemma_add_contains(before, path, '?');
        text::lemma_add_contains(before, path, '#');
    }
}

/// The directory of a path with several segments is the path up to its last slash. One
/// slash of two before the name is dropped; of a path with one segment the directory is
/// a single slash. A path without a slash gets one at its end, unless it is a single
/// character.
pub proof fn law_directory_path(front: Seq<char>, name: Seq<char>)
    requires
        !name.contains('/'),
    ensures
        front.len() == 0 ==> urls::directory_path(front.push('/') + name) == seq!['/'],
        front.len() == 1 ==> urls::directory_path(front.push('/') + name) == front,
        front.len() > 1 && front.last() != '/' ==> urls::directory_path(front.push('/') + name)
            == front.push('/'),
        front.len() == 2 && front.last() == '/' ==> urls::directory_path(front.push('/') + name)
            == front.take(1),
        front.len() > 2 && front.last() == '/' ==> urls::directory_path(front.push('/') + name)
            == front,
        name.len() != 1 ==> urls::directory_path(name) == name.push('/'),
        name.len() == 1 ==> urls::directory_path(name) == name,
{
    name.index_of_last_ensures('/');
    if name.len() > 0 {
        assert(name.contains(name[name.len() - 1]));
    }
    let path = front.push('/') + name;
    let at = front.len() as int;
    assert(path[at] == '/');
    assert forall|j: int| at < j < path.len() implies path[j] != '/' by {
        assert(path[j] == name[j - at - 1]);
        assert(name.contains(name[j - at - 1]));
    }
    text::lemma_last_position(path, '/', at);
    assert(path.take(at) =~= front);
    if at == 0 {
        assert(urls::segment_popped(path) =~= seq!['/']);
        assert(urls::directory_path(path) =~= seq!['/']);
    } else if at > 1 && front.last() == '/' {
        assert(front.drop_last().push('/') =~= front);
        assert(front.drop_last() =~= front.take(at - 1));
    }
}

/// The directory of a URL is the URL with the directory of its path in place of the
/// path: the scheme, the host, the port, what stands before the path and what stands
/// behind it stay. In a file URL the path keeps one slash at its start. A URL without
/// path segments has no directory.
pub proof fn law_directory_url(
    url: PageUrl,
    directory: Option<PageUrl>,
    before: Seq<char>,
    behind: Seq<char>,
)
    requires
        call_ensures(parent_directory_url, (&url,), directory),
        holds_path(url@, before, behind),
    ensures
        directory.deep_view() == urls::directory_if_any(url@),
        directory is Some <==> urls::segmented(url@),
        directory is Some ==> ({
            let path = if url@.scheme == "file"@ {
                seq!['/'] + text::left_trimmed(
                    urls::directory_path(url@.path),
                    CharClass::Only('/'),
                )
            } else {
                urls::directory_path(url@.path)
            };
            &&& directory->0@.path == path
            &&& directory->0@.text == before + path + behind
            &&& directory->0@.scheme == url@.scheme
            &&& directory->0@.host == url@.host
            &&& directory->0@.port == url@.port
        }),
{
    let of = url@;
    let path = of.path;
    text::lemma_add_contains(before, path, '?');
    text::lemma_add_contains(before, path, '#');
    let popped = urls::segment_popped(path);
    let bare = urls::slash_popped(popped);
    path.index_of_last_ensures('/');
    assert forall|i: int| 0 <= i < popped.len() implies #[trigger] popped[i] != '?' && popped[i]
        != '#' by {
        assert(popped[i] == path[i]);
        assert(path.contains(path[i]));
    }
    assert forall|i: int| 0 <= i < bare.len() implies #[trigger] bare[i] != '?' && bare[i]
        != '#' by {
        assert(bare[i] == popped[i]);
    }
    law_with_path(of, before, behind, popped);
    let first = urls::with_path(of, popped);
    law_with_path(first, before, behind, bare);
    let second = urls::with_path(first, bare);
    law_with_path(
        second,
        before,
        behind,
        urls::empty_segment_pushed(second.scheme, second.path),
    );
    if directory is Some {
        assert(directory.deep_view() == Some(directory->0@));
    }
}

/// A copy of a URL has the same parts.
pub proof fn law_url_copy(url: PageUrl, copy: PageUrl)
    requires
        call_ensures(PageUrl::clone, (&url,), copy),
    ensures
        copy@ == url@,
{
}

} // verus!
