//! What the rules on names mean: extensions and content types, stated over the way in
//! which a name is put together.
use vstd::prelude::*;

use crate::content;
use crate::content::{
    content_type_family, content_type_matches_url, parse_content_range_total, should_emit_file,
    should_parse_for_links,
};
use crate::extension;
use crate::extension::{
    companion_media_filenames, is_bare_filename, is_media_extension, normalize_extension,
    url_extension_from_path,
};
use crate::number;
use crate::text;
use crate::text::CharClass;
use crate::text_laws;
use crate::urls;
use crate::urls::PageUrl;

verus! {

/// Whether a text is one of some texts.
pub open spec fn among(s: Seq<char>, all: Seq<Seq<char>>) -> bool {
    exists|i: int| 0 <= i < all.len() && #[trigger] all[i] == s
}

/// An extension is what stands between white space and dots before it and white
/// space behind it, in lower case.
pub proof fn law_extension_of(lead: Seq<char>, dots: Seq<char>, core: Seq<char>, tail: Seq<char>)
    requires
        text_laws::all_in(lead, CharClass::WhiteSpace),
        text_laws::all_in(dots, CharClass::Only('.')),
        text_laws::all_in(tail, CharClass::WhiteSpace),
        core.len() > 0 ==> core.first() != '.',
        text_laws::bare_ends(dots + core, CharClass::WhiteSpace),
    ensures
        extension::normalized_extension(lead + (dots + core) + tail) == text::lowercased(core),
{
    text_laws::law_trim(lead, dots + core, tail, CharClass::WhiteSpace);
    text_laws::law_left_trim(dots, core, CharClass::Only('.'));
}

/// Whether a path is put together of a directory, which is empty or ends with a
/// slash, a name without slashes, and a query, which is empty or begins with a
/// question mark.
pub open spec fn path_of(directory: Seq<char>, name: Seq<char>, query: Seq<char>) -> bool {
    &&& !directory.contains('?') && (directory.len() > 0 ==> directory.last() == '/')
    &&& !name.contains('?') && !name.contains('/')
    &&& query.len() > 0 ==> query.first() == '?'
}

/// The name of a file is what its path ends with, whatever the directory and the
/// query are.
proof fn lemma_file_name(directory: Seq<char>, name: Seq<char>, query: Seq<char>)
    requires
        path_of(directory, name, query),
    ensures
        extension::file_name(directory + name + query) == name,
{
    let front = directory + name;
    let whole = front + query;
    text::lemma_add_contains(directory, name, '?');
    if query.len() > 0 {
        text_laws::law_first(front, '?', query.drop_first());
        assert(front.push('?') + query.drop_first() =~= whole);
    } else {
        text_laws::law_first(front, '?', query);
        assert(whole =~= front);
    }
    if directory.len() > 0 {
        text_laws::law_last(directory.drop_last(), '/', name);
        assert(directory.drop_last().push('/') + name =~= front);
    } else {
        text_laws::law_last(directory, '/', name);
        assert(front =~= name);
    }
}

/// The extension of a path is what follows the last dot of its name, where that is
/// one to twelve bytes long, and none where it is not.
pub proof fn law_path_with_ending(
    directory: Seq<char>,
    stem: Seq<char>,
    ending: Seq<char>,
    query: Seq<char>,
)
    requires
        path_of(directory, stem.push('.') + ending, query),
        !ending.contains('.'),
    ensures
        1 <= text::byte_len(ending) <= 12 ==> extension::path_extension(
            directory + (stem.push('.') + ending) + query,
        ) == Some(extension::normalized_extension(ending)),
        !(1 <= text::byte_len(ending) <= 12) ==> extension::path_extension(
            directory + (stem.push('.') + ending) + query,
        ) is None,
{
    lemma_file_name(directory, stem.push('.') + ending, query);
    text_laws::law_last(stem, '.', ending);
}

/// A path whose name has no dot has no extension.
pub proof fn law_path_without_ending(directory: Seq<char>, name: Seq<char>, query: Seq<char>)
    requires
        path_of(directory, name, query),
        !name.contains('.'),
    ensures
        extension::path_extension(directory + name + query) is None,
{
    lemma_file_name(directory, name, query);
    text_laws::law_last(Seq::empty(), '.', name);
}

/// The extensions of video formats.
pub open spec fn video_formats() -> Seq<Seq<char>> {
    seq!["webm"@, "mp4"@, "mkv"@, "avi"@, "mov"@]
}

/// The extensions of audio formats.
pub open spec fn audio_formats() -> Seq<Seq<char>> {
    seq!["mp3"@, "wav"@, "ogg"@, "flac"@]
}

/// Which extensions name video, audio and media.
pub proof fn law_media(e: Seq<char>)
    ensures
        extension::names_video(e) <==> among(e, video_formats()),
        extension::names_audio(e) <==> among(e, audio_formats()),
        extension::names_media(e) <==> among(e, video_formats()) || among(e, audio_formats()),
{
    let v = video_formats();
    assert(v[0] == "webm"@ && v[1] == "mp4"@ && v[2] == "mkv"@ && v[3] == "avi"@ && v[4]
        == "mov"@);
    let a = audio_formats();
    assert(a[0] == "mp3"@ && a[1] == "wav"@ && a[2] == "ogg"@ && a[3] == "flac"@);
}

/// A path leads to media just where it has an extension and that names media.
pub proof fn law_media_path(path: Seq<char>)
    ensures
        match extension::path_extension(path) {
            Some(e) => urls::media_path(path) <==> among(e, video_formats()) || among(
                e,
                audio_formats(),
            ),
            None => !urls::media_path(path),
        },
{
    if let Some(e) = extension::path_extension(path) {
        law_media(e);
    }
}

/// A name is bare just where it has neither kind of slash and does not begin with
/// the four letters of a URL of the web.
pub proof fn law_bare(value: Seq<char>)
    ensures
        extension::bare_filename(value) <==> (forall|i: int|
            0 <= i < value.len() ==> #[trigger] value[i] != '/' && value[i] != '\\') && !(
        value.len() >= 4 && value[0] == 'h' && value[1] == 't' && value[2] == 't' && value[3]
            == 'p'),
{
    reveal_strlit("http");
    let four = "http"@;
    assert(four.len() == 4 && four[0] == 'h' && four[1] == 't' && four[2] == 't' && four[3]
        == 'p');
    if value.len() >= 4 && value[0] == 'h' && value[1] == 't' && value[2] == 't' && value[3]
        == 'p' {
        assert(four =~= value.subrange(0, 4));
    } else if four.is_prefix_of(value) {
        assert(value.subrange(0, 4)[0] == value[0] && value.subrange(0, 4)[1] == value[1]);
        assert(value.subrange(0, 4)[2] == value[2] && value.subrange(0, 4)[3] == value[3]);
    }
    if forall|i: int| 0 <= i < value.len() ==> #[trigger] value[i] != '/' && value[i] != '\\' {
        assert(!value.contains('/') && !value.contains('\\'));
    } else {
        let i = choose|i: int|
            0 <= i < value.len() && !(#[trigger] value[i] != '/' && value[i] != '\\');
        assert(value.contains(value[i]));
    }
}

/// A video has three pictures beside it, each with its own name up to the last
/// dot; no other file has any.
pub proof fn law_companions(stem: Seq<char>, ending: Seq<char>, plain: Seq<char>)
    requires
        !ending.contains('.'),
        !plain.contains('.'),
    ensures
        among(extension::normalized_extension(ending), video_formats()) ==> extension::companions(
            stem.push('.') + ending,
        ) == seq![stem + ".webp"@, stem + ".png"@, stem + ".jpg"@],
        !among(extension::normalized_extension(ending), video_formats())
            ==> extension::companions(stem.push('.') + ending).len() == 0,
        extension::companions(plain).len() == 0,
{
    text_laws::law_last(stem, '.', ending);
    text_laws::law_last(stem, '.', plain);
    law_media(extension::normalized_extension(ending));
}

/// The family of a content type is what stands between white space, up to the
/// first semicolon, in lower case.
pub proof fn law_family_of(lead: Seq<char>, core: Seq<char>, tail: Seq<char>, rest: Seq<char>)
    requires
        text_laws::all_in(lead, CharClass::WhiteSpace),
        text_laws::all_in(tail, CharClass::WhiteSpace),
        text_laws::bare_ends(core, CharClass::WhiteSpace),
        !core.contains(';'),
        rest.len() > 0 ==> rest.first() == ';',
    ensures
        content::family_of(lead + core + tail + rest) == text::lowercased(core),
{
    let front = lead + core + tail;
    assert(!front.contains(';')) by {
        if lead.contains(';') {
            let i = choose|i: int| 0 <= i < lead.len() && lead[i] == ';';
            assert(CharClass::WhiteSpace.has_char(lead[i]));
        }
        if tail.contains(';') {
            let i = choose|i: int| 0 <= i < tail.len() && tail[i] == ';';
            assert(CharClass::WhiteSpace.has_char(tail[i]));
        }
        text::lemma_add_contains(lead, core, ';');
        text::lemma_add_contains(lead + core, tail, ';');
    }
    if rest.len() > 0 {
        text_laws::law_first(front, ';', rest.drop_first());
        assert(front.push(';') + rest.drop_first() =~= front + rest);
    } else {
        text_laws::law_first(front, ';', rest);
        assert(front + rest =~= front);
    }
    text_laws::law_trim(lead, core, tail, CharClass::WhiteSpace);
}

/// A content range names the number behind its last slash, where that is a number
/// of 64 bits, and none where it is not or where there is no slash.
pub proof fn law_range_total(range: Seq<char>, total: Seq<char>)
    requires
        !total.contains('/'),
    ensures
        content::range_total(total) is None,
        match number::unsigned_value(total) {
            Some(n) => content::range_total(range.push('/') + total) == if n
                <= 0xffff_ffff_ffff_ffff {
                Some(n)
            } else {
                None
            },
            None => content::range_total(range.push('/') + total) is None,
        },
{
    text_laws::law_last(range, '/', total);
}

/// Where everything is asked for, each file with an extension is reported, and
/// each answer that does not call itself HTML; else just the files whose extension
/// is selected.
pub proof fn law_worth_reporting(
    path: Seq<char>,
    extensions: Seq<Seq<char>>,
    content_type: Seq<char>,
)
    ensures
        content::worth_reporting(path, extensions, true, content_type) <==> (
        extension::path_extension(path) is Some || !"text/html"@.is_prefix_of(content_type)),
        content::worth_reporting(path, extensions, false, content_type) <==> (exists|i: int|
            0 <= i < extensions.len() && Some(#[trigger] extensions[i])
                == extension::path_extension(path)),
{
    if let Some(e) = extension::path_extension(path) {
        if extensions.contains(e) {
            let i = choose|i: int| 0 <= i < extensions.len() && extensions[i] == e;
            assert(Some(extensions[i]) == extension::path_extension(path));
        }
    }
}

/// A content type that is not given, or that stands for any bytes, fits every file. A
/// file without an extension is fitted by any other but HTML, where everything is
/// looked for.
pub proof fn law_any_content_type(
    url: PageUrl,
    content_type: &str,
    everything: bool,
    fits: bool,
    family: Seq<char>,
)
    requires
        call_ensures(content_type_matches_url, (&url, content_type, everything), fits),
        family == content::family_of(content_type@),
    ensures
        fits <==> content::content_fits(url@.path, content_type@, everything),
        family.len() == 0 || family == "application/octet-stream"@ ==> fits,
        family.len() > 0 && family != "application/octet-stream"@ && extension::path_extension(
            url@.path,
        ) is None ==> (fits <==> everything && !"text/html"@.is_prefix_of(family)),
{
}

/// The extensions for which it is known what content type fits them.
pub open spec fn known_extensions() -> Seq<Seq<char>> {
    seq![
        "webm"@, "mp4"@, "mkv"@, "avi"@, "mov"@, "mp3"@, "wav"@, "ogg"@, "flac"@, "jpg"@,
        "jpeg"@, "png"@, "gif"@, "webp"@, "svg"@, "zip"@, "rar"@, "tar"@, "7z"@, "gz"@, "pdf"@,
        "txt"@, "json"@, "xml"@, "csv"@, "php"@, "html"@, "js"@, "env"@, "config"@,
    ]
}

/// Which content types fit a file with an extension.
pub proof fn law_content_type_fits(
    url: PageUrl,
    content_type: &str,
    everything: bool,
    fits: bool,
    e: Seq<char>,
    family: Seq<char>,
)
    requires
        call_ensures(content_type_matches_url, (&url, content_type, everything), fits),
        extension::path_extension(url@.path) == Some(e),
        family == content::family_of(content_type@),
        family.len() > 0,
        family != "application/octet-stream"@,
    ensures
        (e == "webm"@ || e == "mp4"@ || e == "mkv"@ || e == "avi"@ || e == "mov"@) ==> (fits
            <==> "video/"@.is_prefix_of(family)),
        (e == "mp3"@ || e == "wav"@ || e == "ogg"@ || e == "flac"@) ==> (fits
            <==> "audio/"@.is_prefix_of(family) || family == "application/ogg"@),
        (e == "jpg"@ || e == "jpeg"@ || e == "png"@ || e == "gif"@ || e == "webp"@ || e == "svg"@)
            ==> (fits <==> "image/"@.is_prefix_of(family)),
        (e == "zip"@ || e == "rar"@ || e == "tar"@ || e == "7z"@) ==> (fits <==> text::has_text(
            family,
            e,
        )),
        e == "gz"@ ==> (fits <==> text::has_text(family, "gzip"@)),
        e == "pdf"@ ==> (fits <==> family == "application/pdf"@),
        e == "txt"@ ==> (fits <==> "text/plain"@.is_prefix_of(family)),
        e == "json"@ ==> (fits <==> family == "application/json"@ || "+json"@.is_suffix_of(
            family,
        )),
        e == "xml"@ ==> (fits <==> family == "application/xml"@ || family == "text/xml"@
            || "+xml"@.is_suffix_of(family)),
        e == "csv"@ ==> (fits <==> family == "text/csv"@ || family == "application/csv"@),
        e == "php"@ || e == "html"@ ==> (fits <==> "text/html"@.is_prefix_of(family)),
        e == "js"@ ==> (fits <==> family == "application/javascript"@ || family
            == "text/javascript"@ || family == "application/x-javascript"@),
        e == "env"@ || e == "config"@ ==> (fits <==> "text/plain"@.is_prefix_of(family) || family
            == "application/json"@ || family == "application/xml"@ || family == "text/xml"@),
        !among(e, known_extensions()) ==> (fits <==> everything && !"text/html"@.is_prefix_of(
            family,
        )),
{
    reveal_strlit("webm");
    reveal_strlit("mp4");
    reveal_strlit("mkv");
    reveal_strlit("avi");
    reveal_strlit("mov");
    reveal_strlit("mp3");
    reveal_strlit("wav");
    reveal_strlit("ogg");
    reveal_strlit("flac");
    reveal_strlit("jpg");
    reveal_strlit("jpeg");
    reveal_strlit("png");
    reveal_strlit("gif");
    reveal_strlit("webp");
    reveal_strlit("svg");
    reveal_strlit("zip");
    reveal_strlit("rar");
    reveal_strlit("tar");
    reveal_strlit("7z");
    reveal_strlit("gz");
    reveal_strlit("pdf");
    reveal_strlit("txt");
    reveal_strlit("json");
    reveal_strlit("xml");
    reveal_strlit("csv");
    reveal_strlit("php");
    reveal_strlit("html");
    reveal_strlit("js");
    reveal_strlit("env");
    reveal_strlit("config");
    assert("webm"@[0] == 'w' && "webm"@[1] == 'e' && "webm"@[2] == 'b' && "webm"@[3] == 'm');
    assert("mp4"@[0] == 'm' && "mp4"@[1] == 'p' && "mp4"@[2] == '4');
    assert("mkv"@[0] == 'm' && "mkv"@[1] == 'k' && "mkv"@[2] == 'v');
    assert("avi"@[0] == 'a' && "avi"@[1] == 'v' && "avi"@[2] == 'i');
    assert("mov"@[0] == 'm' && "mov"@[1] == 'o' && "mov"@[2] == 'v');
    assert("mp3"@[0] == 'm' && "mp3"@[1] == 'p' && "mp3"@[2] == '3');
    assert("wav"@[0] == 'w' && "wav"@[1] == 'a' && "wav"@[2] == 'v');
    assert("ogg"@[0] == 'o' && "ogg"@[1] == 'g' && "ogg"@[2] == 'g');
    assert("flac"@[0] == 'f' && "flac"@[1] == 'l' && "flac"@[2] == 'a' && "flac"@[3] == 'c');
    assert("jpg"@[0] == 'j' && "jpg"@[1] == 'p' && "jpg"@[2] == 'g');
    assert("jpeg"@[0] == 'j' && "jpeg"@[1] == 'p' && "jpeg"@[2] == 'e' && "jpeg"@[3] == 'g');
    assert("png"@[0] == 'p' && "png"@[1] == 'n' && "png"@[2] == 'g');
    assert("gif"@[0] == 'g' && "gif"@[1] == 'i' && "gif"@[2] == 'f');
    assert("webp"@[0] == 'w' && "webp"@[1] == 'e' && "webp"@[2] == 'b' && "webp"@[3] == 'p');
    assert("svg"@[0] == 's' && "svg"@[1] == 'v' && "svg"@[2] == 'g');
    assert("zip"@[0] == 'z' && "zip"@[1] == 'i' && "zip"@[2] == 'p');
    assert("rar"@[0] == 'r' && "rar"@[1] == 'a' && "rar"@[2] == 'r');
    assert("tar"@[0] == 't' && "tar"@[1] == 'a' && "tar"@[2] == 'r');
    assert("7z"@[0] == '7' && "7z"@[1] == 'z');
    assert("gz"@[0] == 'g' && "gz"@[1] == 'z');
    assert("pdf"@[0] == 'p' && "pdf"@[1] == 'd' && "pdf"@[2] == 'f');
    assert("txt"@[0] == 't' && "txt"@[1] == 'x' && "txt"@[2] == 't');
    assert("json"@[0] == 'j' && "json"@[1] == 's' && "json"@[2] == 'o' && "json"@[3] == 'n');
    assert("xml"@[0] == 'x' && "xml"@[1] == 'm' && "xml"@[2] == 'l');
    assert("csv"@[0] == 'c' && "csv"@[1] == 's' && "csv"@[2] == 'v');
    assert("php"@[0] == 'p' && "php"@[1] == 'h' && "php"@[2] == 'p');
    assert("html"@[0] == 'h' && "html"@[1] == 't' && "html"@[2] == 'm' && "html"@[3] == 'l');
    assert("js"@[0] == 'j' && "js"@[1] == 's');
    assert("env"@[0] == 'e' && "env"@[1] == 'n' && "env"@[2] == 'v');
    assert("config"@[0] == 'c');
    let k = known_extensions();
    assert(k[0] == "webm"@ && k[1] == "mp4"@ && k[2] == "mkv"@ && k[3] == "avi"@);
    assert(k[4] == "mov"@ && k[5] == "mp3"@ && k[6] == "wav"@ && k[7] == "ogg"@);
    assert(k[8] == "flac"@ && k[9] == "jpg"@ && k[10] == "jpeg"@ && k[11] == "png"@);
    assert(k[12] == "gif"@ && k[13] == "webp"@ && k[14] == "svg"@ && k[15] == "zip"@);
    assert(k[16] == "rar"@ && k[17] == "tar"@ && k[18] == "7z"@ && k[19] == "gz"@);
    assert(k[20] == "pdf"@ && k[21] == "txt"@ && k[22] == "json"@ && k[23] == "xml"@);
    assert(k[24] == "csv"@ && k[25] == "php"@ && k[26] == "html"@ && k[27] == "js"@);
    assert(k[28] == "env"@ && k[29] == "config"@);
}

/// A page is read for links where its content type is text, a script or a structured
/// format, or where its extension is that of such a format, and else not.
pub proof fn law_parsed_for_links(
    url: PageUrl,
    content_type: &str,
    parse: bool,
    family: Seq<char>,
)
    requires
        call_ensures(should_parse_for_links, (&url, content_type), parse),
        family == content::family_of(content_type@),
    ensures
        parse <==> content::parsed_for_links(url@.path, content_type@),
        "text/"@.is_prefix_of(family) || "+json"@.is_suffix_of(family) || "+xml"@.is_suffix_of(
            family,
        ) ==> parse,
        among(
            family,
            seq![
                "application/json"@, "application/javascript"@, "application/x-javascript"@,
                "application/xml"@,
            ],
        ) ==> parse,
        (extension::path_extension(url@.path) is Some && among(
            extension::path_extension(url@.path)->0,
            seq!["html"@, "js"@, "css"@, "json"@, "xml"@, "txt"@],
        )) ==> parse,
        parse ==> "text/"@.is_prefix_of(family) || "+json"@.is_suffix_of(family)
            || "+xml"@.is_suffix_of(family) || among(
            family,
            seq![
                "application/json"@, "application/javascript"@, "application/x-javascript"@,
                "application/xml"@,
            ],
        ) || (extension::path_extension(url@.path) is Some && among(
            extension::path_extension(url@.path)->0,
            seq!["html"@, "js"@, "css"@, "json"@, "xml"@, "txt"@],
        )),
{
    let types = seq![
        "application/json"@, "application/javascript"@, "application/x-javascript"@,
        "application/xml"@,
    ];
    assert(types[0] == "application/json"@ && types[1] == "application/javascript"@);
    assert(types[2] == "application/x-javascript"@ && types[3] == "application/xml"@);
    let known = seq!["html"@, "js"@, "css"@, "json"@, "xml"@, "txt"@];
    assert(known[0] == "html"@ && known[1] == "js"@ && known[2] == "css"@);
    assert(known[3] == "json"@ && known[4] == "xml"@ && known[5] == "txt"@);
}

/// The rules on names are those that the functions go by.
pub proof fn law_name_functions(
    given: &str,
    normalized: String,
    found: Option<String>,
    media: bool,
    bare: bool,
    beside: Vec<String>,
    family: String,
    total: Option<u64>,
)
    requires
        call_ensures(normalize_extension, (given,), normalized),
        call_ensures(url_extension_from_path, (given,), found),
        call_ensures(is_media_extension, (given,), media),
        call_ensures(is_bare_filename, (given,), bare),
        call_ensures(companion_media_filenames, (given,), beside),
        call_ensures(content_type_family, (given,), family),
        call_ensures(parse_content_range_total, (given,), total),
    ensures
        normalized@ == extension::normalized_extension(given@),
        found is Some ==> extension::path_extension(given@) == Some(found->0@),
        found is None ==> extension::path_extension(given@) is None,
        media <==> among(given@, video_formats()) || among(given@, audio_formats()),
        bare <==> extension::bare_filename(given@),
        beside.deep_view() == extension::companions(given@),
        family@ == content::family_of(given@),
        total is Some ==> content::range_total(given@) == Some(total->0 as nat),
        total is None ==> content::range_total(given@) is None,
{
    law_media(given@);
}

/// A file is worth reporting by the rule for its path.
pub proof fn law_should_emit(
    url: PageUrl,
    extensions: Vec<String>,
    everything: bool,
    content_type: &str,
    emit: bool,
)
    requires
        call_ensures(should_emit_file, (&url, &extensions, everything, content_type), emit),
    ensures
        emit <==> content::worth_reporting(
            url@.path,
            extensions.deep_view(),
            everything,
            content_type@,
        ),
{
}

} // verus!
