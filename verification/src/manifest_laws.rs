//! What a manifest and the word lists lead to: media names, the places where their
//! files may lie, and the paths that are tried.
use vstd::prelude::*;

use crate::brute;
use crate::brute::{brute_force_paths, brute_force_urls};
use crate::extension;
use crate::json;
use crate::json::{collect_media_filenames, parse_json, Json, JsonView};
use crate::list_lemmas;
use crate::manifest;
use crate::manifest::{
    extract_manifest_media, manifest_references, resolve_references, ManifestReference,
    ManifestReferenceView,
};
use crate::name_laws;
use crate::options::{FilePreset, FilePresetView};
use crate::page_laws;
use crate::resolve;
use crate::rule_laws;
use crate::text;
use crate::text::CharClass;
use crate::text_laws;
use crate::urls;
use crate::urls::{PageUrl, UrlView};

verus! {

/// A document reads as it stands, with each of its items.
pub proof fn law_json_tree(value: String, items: Vec<Json>, i: int)
    ensures
        Json::Text(value).tree() == JsonView::Text(value@),
        Json::Array(items).tree() is Array,
        Json::Array(items).tree()->Array_0.len() == items@.len(),
        0 <= i < items@.len() ==> Json::Array(items).tree()->Array_0[i] == items@[i].tree(),
        Json::Object(items).tree() is Object,
        Json::Object(items).tree()->Object_0.len() == items@.len(),
        0 <= i < items@.len() ==> Json::Object(items).tree()->Object_0[i] == items@[i].tree(),
        Json::Other.tree() is Other,
{
}

/// A body is read as the document that it holds, and not at all where it holds none.
pub proof fn law_parse_json(body: &str, document: Option<Json>)
    requires
        call_ensures(parse_json, (body,), document),
    ensures
        document is Some ==> json::json_document(body@) == Some(document->0.tree()),
        document is None ==> json::json_document(body@) is None,
{
}

/// The names from two lists of documents put together are the names from each, in
/// order; those from a list of one are those from the one.
pub proof fn law_names_add(a: Seq<JsonView>, b: Seq<JsonView>, one: JsonView)
    ensures
        json::media_filenames_of(a + b) == json::media_filenames_of(a) + json::media_filenames_of(
            b,
        ),
        json::media_filenames_of(seq![one]) == json::media_filenames(one),
    decreases b.len(),
{
    assert(seq![one].drop_last() =~= Seq::empty());
    assert(json::media_filenames_of(Seq::empty()) =~= Seq::empty());
    assert(json::media_filenames_of(seq![one]) =~= json::media_filenames(one));
    if b.len() == 0 {
        assert(a + b =~= a);
        assert(json::media_filenames_of(a + b) =~= json::media_filenames_of(a)
            + json::media_filenames_of(b));
    } else {
        law_names_add(a, b.drop_last(), one);
        assert((a + b).drop_last() =~= a + b.drop_last());
        assert(json::media_filenames_of(a + b) =~= json::media_filenames_of(a)
            + json::media_filenames_of(b));
    }
}

/// The names from an array or an object are those from the items before some place,
/// those from the item there, and those from the items behind it, whatever stands
/// there.
pub proof fn law_names_of_items(before: Seq<JsonView>, item: JsonView, after: Seq<JsonView>)
    ensures
        json::media_filenames(JsonView::Array(before.push(item) + after)) == json::media_filenames(
            JsonView::Array(before),
        ) + json::media_filenames(item) + json::media_filenames(JsonView::Array(after)),
        json::media_filenames(JsonView::Object(before.push(item) + after))
            == json::media_filenames(JsonView::Object(before)) + json::media_filenames(item)
            + json::media_filenames(JsonView::Object(after)),
        json::media_filenames(JsonView::Array(Seq::empty())) == Seq::<Seq<char>>::empty(),
        json::media_filenames(JsonView::Object(Seq::empty())) == Seq::<Seq<char>>::empty(),
{
    law_names_add(before.push(item), after, item);
    law_names_add(before, seq![item], item);
    assert(before + seq![item] =~= before.push(item));
    reveal_with_fuel(json::media_filenames, 2);
    reveal_with_fuel(json::media_filenames_of, 2);
}

/// Whether a string stands somewhere in a document, at whatever depth.
pub open spec fn holds_string(document: JsonView, value: Seq<char>) -> bool
    decreases document,
{
    match document {
        JsonView::Text(own) => own == value,
        JsonView::Array(items) => exists|i: int|
            0 <= i < items.len() && holds_string(#[trigger] items[i], value),
        JsonView::Object(items) => exists|i: int|
            0 <= i < items.len() && holds_string(#[trigger] items[i], value),
        JsonView::Other => false,
    }
}

/// Whether a string ends like the name of a video or of a sound.
pub open spec fn media_named(value: Seq<char>) -> bool {
    match extension::path_extension(value) {
        Some(e) => name_laws::among(e, name_laws::video_formats()) || name_laws::among(
            e,
            name_laws::audio_formats(),
        ),
        None => false,
    }
}

/// Every string of a document that names media is collected, unchanged, wherever it
/// stands and however deep, and no other string is.
pub proof fn law_media_strings_are_collected(document: JsonView, value: Seq<char>)
    ensures
        json::media_filenames(document).contains(value) <==> holds_string(document, value)
            && media_named(value),
    decreases document,
{
    reveal_with_fuel(holds_string, 2);
    match document {
        JsonView::Text(own) => {
            name_laws::law_media_path(own);
            let names = json::media_filenames(document);
            if own == value && media_named(value) {
                assert(names[0] == value);
            }
        },
        JsonView::Array(items) => {
            lemma_items_are_collected(items, value);
            assert(json::media_filenames(document) == json::media_filenames_of(items));
            assert(holds_string(document, value) <==> exists|i: int|
                0 <= i < items.len() && holds_string(#[trigger] items[i], value));
        },
        JsonView::Object(items) => {
            lemma_items_are_collected(items, value);
            assert(json::media_filenames(document) == json::media_filenames_of(items));
            assert(holds_string(document, value) <==> exists|i: int|
                0 <= i < items.len() && holds_string(#[trigger] items[i], value));
        },
        JsonView::Other => {
            assert(!json::media_filenames(document).contains(value));
        },
    }
}

proof fn lemma_items_are_collected(items: Seq<JsonView>, value: Seq<char>)
    ensures
        json::media_filenames_of(items).contains(value) <==> media_named(value) && exists|i: int|
            0 <= i < items.len() && holds_string(#[trigger] items[i], value),
    decreases items,
{
    if items.len() > 0 {
        let rest = items.drop_last();
        lemma_items_are_collected(rest, value);
        law_media_strings_are_collected(items.last(), value);
        text::lemma_add_contains(
            json::media_filenames_of(rest),
            json::media_filenames(items.last()),
            value,
        );
        if exists|i: int| 0 <= i < rest.len() && holds_string(#[trigger] rest[i], value) {
            let i = choose|i: int|
                0 <= i < rest.len() && holds_string(#[trigger] rest[i], value);
            assert(holds_string(items[i], value));
        }
        if exists|i: int| 0 <= i < items.len() && holds_string(#[trigger] items[i], value) {
            let i = choose|i: int|
                0 <= i < items.len() && holds_string(#[trigger] items[i], value);
            if i < rest.len() {
                assert(holds_string(rest[i], value));
            }
        }
        if holds_string(items.last(), value) {
            assert(holds_string(items[items.len() - 1], value));
        }
    }
}

/// Collecting keeps what was there and puts behind it every string of the document that
/// names media, and no other.
pub proof fn law_collecting(value: Json, output: &mut Vec<String>, name: Seq<char>)
    requires
        call_ensures(collect_media_filenames, (&value, output), ()),
    ensures
        final(output).deep_view() == old(output).deep_view() + json::media_filenames(value.tree()),
        final(output).deep_view().contains(name) <==> old(output).deep_view().contains(name) || (
        holds_string(value.tree(), name) && media_named(name)),
{
    law_media_strings_are_collected(value.tree(), name);
    text::lemma_add_contains(
        old(output).deep_view(),
        json::media_filenames(value.tree()),
        name,
    );
}

/// A reference of a manifest reads as its fields stand.
pub proof fn law_reference_view(reference: ManifestReference)
    ensures
        reference.deep_view().from_origin == reference.from_origin,
        reference.deep_view().target == reference.target@,
{
}

/// A file is looked for beside the manifest under its own name, and so is each of its
/// companions; in a directory each of them is looked for behind a slash.
pub proof fn law_places_of_a_name(filename: Seq<char>, directory: Seq<char>, i: int)
    requires
        0 <= i < extension::companions(filename).len(),
    ensures
        manifest::beside_manifest(filename).len() == 1 + extension::companions(filename).len(),
        manifest::beside_manifest(filename)[i + 1] == (ManifestReferenceView {
            from_origin: false,
            target: extension::companions(filename)[i],
        }),
        manifest::in_directory(directory, filename).len() == 1 + extension::companions(
            filename,
        ).len(),
        manifest::in_directory(directory, filename)[i + 1] == (ManifestReferenceView {
            from_origin: true,
            target: directory.push('/') + extension::companions(filename)[i],
        }),
{
    reveal_strlit("/");
    assert(directory + "/"@ =~= directory.push('/'));
}

/// The first place of a name is the name itself.
pub proof fn law_first_place_of_a_name(filename: Seq<char>, directory: Seq<char>)
    ensures
        manifest::beside_manifest(filename).len() == 1 + extension::companions(filename).len(),
        manifest::beside_manifest(filename)[0] == (ManifestReferenceView {
            from_origin: false,
            target: filename,
        }),
        manifest::in_directory(directory, filename).len() == 1 + extension::companions(
            filename,
        ).len(),
        manifest::in_directory(directory, filename)[0] == (ManifestReferenceView {
            from_origin: true,
            target: directory.push('/') + filename,
        }),
{
    reveal_strlit("/");
    assert(directory + "/"@ =~= directory.push('/'));
}

/// A bare name is looked for beside the manifest and then in each directory, in
/// order; another name beside the manifest alone.
pub proof fn law_directories_of_a_name(
    filename: Seq<char>,
    directories: Seq<Seq<char>>,
    directory: Seq<char>,
)
    ensures
        manifest::filename_references(filename, Seq::empty()) == manifest::beside_manifest(
            filename,
        ),
        extension::bare_filename(filename) ==> manifest::filename_references(
            filename,
            directories.push(directory),
        ) == manifest::filename_references(filename, directories) + manifest::in_directory(
            directory,
            filename,
        ),
        !extension::bare_filename(filename) ==> manifest::filename_references(
            filename,
            directories,
        ) == manifest::beside_manifest(filename),
{
    let place = |directory: Seq<char>| manifest::in_directory(directory, filename);
    let lists = directories.map_values(place);
    lists.lemma_flatten_push(manifest::in_directory(directory, filename));
    assert(directories.push(directory).map_values(place) =~= lists.push(
        manifest::in_directory(directory, filename),
    ));
    let none = Seq::<Seq<char>>::empty().map_values(place);
    assert(none =~= Seq::empty());
    assert(none.flatten() =~= Seq::empty());
    assert(manifest::filename_references(filename, Seq::empty()) =~= manifest::beside_manifest(
        filename,
    ));
    if extension::bare_filename(filename) {
        assert(manifest::filename_references(filename, directories.push(directory))
            =~= manifest::filename_references(filename, directories) + manifest::in_directory(
            directory,
            filename,
        ));
    }
}

/// A document without media names leads nowhere.
pub proof fn law_no_places(document: JsonView, directories: Seq<Seq<char>>)
    requires
        json::media_filenames(document).len() == 0,
    ensures
        manifest::document_references(document, directories).len() == 0,
{
    let lists = json::media_filenames(document).map_values(
        |filename: Seq<char>| manifest::filename_references(filename, directories),
    );
    assert(lists =~= Seq::empty());
    assert(lists.flatten() =~= Seq::empty());
}

/// Where a document has the media names of another and one more behind them, it leads
/// to the places of the other, then to those of that name.
pub proof fn law_places_of_a_document(
    document: JsonView,
    directories: Seq<Seq<char>>,
    names: Seq<Seq<char>>,
    last: Seq<char>,
    shorter: JsonView,
)
    requires
        json::media_filenames(document) == names.push(last),
        json::media_filenames(shorter) == names,
    ensures
        manifest::document_references(document, directories) == manifest::document_references(
            shorter,
            directories,
        ) + manifest::filename_references(last, directories),
{
    let place = |filename: Seq<char>| manifest::filename_references(filename, directories);
    let lists = names.map_values(place);
    lists.lemma_flatten_push(manifest::filename_references(last, directories));
    assert(names.push(last).map_values(place) =~= lists.push(
        manifest::filename_references(last, directories),
    ));
}

/// A document leads to a place just where that is a place of one of the media names
/// that stand in it.
pub proof fn law_manifest_references(
    document: Json,
    directories: Vec<String>,
    found: Vec<ManifestReference>,
    place: ManifestReferenceView,
)
    requires
        call_ensures(manifest_references, (&document, &directories), found),
    ensures
        found.deep_view() == manifest::document_references(
            document.tree(),
            directories.deep_view(),
        ),
        found.deep_view().contains(place) <==> exists|value: Seq<char>| #[trigger]
            holds_string(document.tree(), value) && media_named(value)
                && manifest::filename_references(value, directories.deep_view()).contains(place),
{
    lemma_document_leads_to(document.tree(), directories.deep_view(), place);
}

proof fn lemma_document_leads_to(
    document: JsonView,
    directories: Seq<Seq<char>>,
    place: ManifestReferenceView,
)
    ensures
        manifest::document_references(document, directories).contains(place) <==> exists|
            value: Seq<char>,
        | #[trigger]
            holds_string(document, value) && media_named(value) && manifest::filename_references(
                value,
                directories,
            ).contains(place),
{
    let names = json::media_filenames(document);
    let lists = names.map_values(
        |filename: Seq<char>| manifest::filename_references(filename, directories),
    );
    if lists.flatten().contains(place) {
        list_lemmas::lemma_flatten_from(lists, place);
        let i = choose|i: int| 0 <= i < lists.len() && (#[trigger] lists[i]).contains(place);
        assert(names.contains(names[i]));
        law_media_strings_are_collected(document, names[i]);
        assert(holds_string(document, names[i]));
    }
    if exists|value: Seq<char>| #[trigger]
        holds_string(document, value) && media_named(value) && manifest::filename_references(
            value,
            directories,
        ).contains(place) {
        let value = choose|value: Seq<char>| #[trigger]
            holds_string(document, value) && media_named(value) && manifest::filename_references(
                value,
                directories,
            ).contains(place);
        law_media_strings_are_collected(document, value);
        let i = choose|i: int| 0 <= i < names.len() && names[i] == value;
        let list = manifest::filename_references(value, directories);
        let j = choose|j: int| 0 <= j < list.len() && list[j] == place;
        rule_laws::lemma_flatten_has(lists, i, j);
    }
}

/// Each place is joined to the origin of the scan or to the manifest, as it says.
pub proof fn law_joined_places(
    origin: UrlView,
    at: UrlView,
    places: Seq<ManifestReferenceView>,
    i: int,
)
    ensures
        manifest::joined_references(origin, at, places).len() == places.len(),
        0 <= i < places.len() && places[i].from_origin ==> manifest::joined_references(
            origin,
            at,
            places,
        )[i] == urls::joined_url(origin, places[i].target),
        0 <= i < places.len() && !places[i].from_origin ==> manifest::joined_references(
            origin,
            at,
            places,
        )[i] == urls::joined_url(at, places[i].target),
{
}

/// The URLs that come of the places of a manifest are those that each of them gives.
pub proof fn law_resolve_references(
    origin: PageUrl,
    at: PageUrl,
    places: Vec<ManifestReference>,
    found: Vec<PageUrl>,
)
    requires
        call_ensures(resolve_references, (&origin, &at, &places), found),
    ensures
        found.deep_view() == resolve::kept(
            manifest::joined_references(origin@, at@, places.deep_view()),
        ),
{
}

/// A body that is no document leads to nothing; else it leads to the places of its
/// media names.
pub proof fn law_extract_manifest_media(
    origin: PageUrl,
    at: PageUrl,
    body: &str,
    directories: Vec<String>,
    found: Vec<PageUrl>,
)
    requires
        call_ensures(extract_manifest_media, (&origin, &at, body, &directories), found),
    ensures
        json::json_document(body@) is None ==> found@.len() == 0,
        json::json_document(body@) is Some ==> found.deep_view() == resolve::kept(
            manifest::joined_references(
                origin@,
                at@,
                manifest::document_references(
                    json::json_document(body@)->0,
                    directories.deep_view(),
                ),
            ),
        ),
{
    assert(found.deep_view().len() == found@.len());
}

/// The extensions of two lists of presets put together are those of each, in order;
/// those of one preset are its own, as they stand.
pub proof fn law_preset_list(
    a: Seq<FilePresetView>,
    b: Seq<FilePresetView>,
    one: FilePresetView,
)
    ensures
        brute::preset_list(a + b) == brute::preset_list(a) + brute::preset_list(b),
        brute::preset_list(seq![one]) == one.extensions,
{
    let own = |preset: FilePresetView| preset.extensions;
    vstd::seq_lib::lemma_flatten_concat(a.map_values(own), b.map_values(own));
    assert((a + b).map_values(own) =~= a.map_values(own) + b.map_values(own));
    assert(seq![one].map_values(own) =~= seq![one.extensions]);
    seq![one.extensions].lemma_flatten_one_element();
}

/// Paths are filled with the selected extensions, but with those of all presets where
/// everything is looked for or nothing is selected.
pub proof fn law_filled_extensions(
    presets: Seq<FilePresetView>,
    extensions: Seq<Seq<char>>,
    first: Seq<char>,
)
    ensures
        brute::filled_extensions(presets, extensions, true) == brute::preset_list(presets),
        brute::filled_extensions(presets, Seq::empty(), false) == brute::preset_list(presets),
        brute::filled_extensions(presets, extensions.push(first), false) == extensions.push(first),
{
}

/// The paths of two lists of patterns put together are those of each, in order; those
/// of one pattern are its own.
pub proof fn law_filled_add(
    a: Seq<Seq<char>>,
    b: Seq<Seq<char>>,
    one: Seq<char>,
    extensions: Seq<Seq<char>>,
)
    ensures
        brute::all_filled_paths(a + b, extensions) == brute::all_filled_paths(a, extensions)
            + brute::all_filled_paths(b, extensions),
        brute::all_filled_paths(seq![one], extensions) == brute::filled_paths(one, extensions),
{
    let fill = |pattern: Seq<char>| brute::filled_paths(pattern, extensions);
    vstd::seq_lib::lemma_flatten_concat(a.map_values(fill), b.map_values(fill));
    assert((a + b).map_values(fill) =~= a.map_values(fill) + b.map_values(fill));
    assert(seq![one].map_values(fill) =~= seq![brute::filled_paths(one, extensions)]);
    seq![brute::filled_paths(one, extensions)].lemma_flatten_one_element();
}

/// Whether a pattern does not hold the mark for an extension.
pub open spec fn unmarked(pattern: Seq<char>) -> bool {
    forall|i: int| 0 <= i <= pattern.len() ==> !(#[trigger] "{ext}"@.is_prefix_of(pattern.skip(i)))
}

/// A pattern without the mark is one path, as it stands.
pub proof fn law_plain_pattern(pattern: Seq<char>, extensions: Seq<Seq<char>>)
    requires
        unmarked(pattern),
    ensures
        brute::filled_paths(pattern, extensions) == seq![pattern],
{
    if text::has_text(pattern, "{ext}"@) {
        let i = choose|i: int|
            0 <= i <= pattern.len() && #[trigger] "{ext}"@.is_prefix_of(pattern.skip(i));
        assert(!"{ext}"@.is_prefix_of(pattern.skip(i)));
    }
}

/// A pattern with the mark gives one path for each extension, in order: the extension
/// stands in place of the mark, without dots before it, and so on behind it.
pub proof fn law_marked_pattern(
    before: Seq<char>,
    after: Seq<char>,
    extensions: Seq<Seq<char>>,
    i: int,
    dots: Seq<char>,
    core: Seq<char>,
)
    requires
        forall|k: int|
            0 <= k < before.len() ==> !(#[trigger] "{ext}"@.is_prefix_of(
                (before + "{ext}"@ + after).skip(k),
            )),
        0 <= i < extensions.len(),
        extensions[i] == dots + core,
        text_laws::all_in(dots, CharClass::Only('.')),
        core.len() > 0 ==> core.first() != '.',
    ensures
        brute::filled_paths(before + "{ext}"@ + after, extensions).len() == extensions.len(),
        unmarked(after) ==> brute::filled_paths(before + "{ext}"@ + after, extensions)[i] == before
            + core + after,
        !unmarked(after) ==> brute::filled_paths(before + "{ext}"@ + after, extensions)[i]
            == before + core + brute::filled_paths(after, extensions)[i],
{
    reveal_strlit("{ext}");
    let pattern = before + "{ext}"@ + after;
    text_laws::law_has_text(before, "{ext}"@, after, pattern);
    text_laws::law_left_trim(dots, core, CharClass::Only('.'));
    text_laws::law_replace_first(before, "{ext}"@, after, core);
    if unmarked(after) {
        text_laws::law_replace_none(after, "{ext}"@, core);
    } else {
        let k = choose|k: int|
            0 <= k <= after.len() && #[trigger] "{ext}"@.is_prefix_of(after.skip(k));
        assert(text::has_text(after, "{ext}"@));
    }
}

/// The paths that are tried are those of the patterns, filled with the extensions
/// that are looked for.
pub proof fn law_brute_force_paths(
    patterns: Vec<String>,
    presets: Vec<FilePreset>,
    extensions: Vec<String>,
    everything: bool,
    paths: Vec<String>,
)
    requires
        call_ensures(brute_force_paths, (&patterns, &presets, &extensions, everything), paths),
    ensures
        everything || extensions@.len() == 0 ==> paths.deep_view() == brute::all_filled_paths(
            patterns.deep_view(),
            brute::preset_list(presets.deep_view()),
        ),
        !everything && extensions@.len() > 0 ==> paths.deep_view() == brute::all_filled_paths(
            patterns.deep_view(),
            extensions.deep_view(),
        ),
{
    assert(extensions.deep_view().len() == extensions@.len());
}

/// The URLs that are tried are those that the paths give, joined to the base.
pub proof fn law_brute_force_urls(
    base: PageUrl,
    patterns: Vec<String>,
    presets: Vec<FilePreset>,
    extensions: Vec<String>,
    everything: bool,
    paths: Vec<String>,
    found: Vec<PageUrl>,
    url: UrlView,
)
    requires
        call_ensures(brute_force_paths, (&patterns, &presets, &extensions, everything), paths),
        call_ensures(
            brute_force_urls,
            (&base, &patterns, &presets, &extensions, everything),
            found,
        ),
    ensures
        found.deep_view() == resolve::kept(resolve::joined_each(base@, paths.deep_view())),
        found.deep_view().contains(url) <==> exists|i: int|
            0 <= i < paths.deep_view().len() && urls::joined_url(
                base@,
                #[trigger] paths.deep_view()[i],
            ) == Some(url),
{
    page_laws::lemma_resolved(base@, paths.deep_view(), url);
}

} // verus!
