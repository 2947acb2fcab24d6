//! Media files that a JSON manifest names.
use vstd::prelude::*;

use crate::extension;
use crate::extension::{companion_media_filenames, is_bare_filename};
use crate::json;
use crate::json::{collect_media_filenames, parse_json, Json, JsonView};
use crate::resolve;
use crate::resolve::keep_joined;
use crate::text::concat3;
use crate::urls;
use crate::urls::{join_url, PageUrl, UrlView};

verus! {

/// A reference from a manifest: relative to the origin of the scan, or to the
/// manifest itself.
#[derive(Debug)]
pub struct ManifestReference {
    pub from_origin: bool,
    pub target: String,
}

/// What a [`ManifestReference`] stands for.
pub struct ManifestReferenceView {
    pub from_origin: bool,
    pub target: Seq<char>,
}

impl DeepView for ManifestReference {
    type V = ManifestReferenceView;

    open spec fn deep_view(&self) -> ManifestReferenceView {
        ManifestReferenceView { from_origin: self.from_origin, target: self.target@ }
    }
}

/// A media file and the pictures that may lie beside it.
pub open spec fn with_companions(filename: Seq<char>) -> Seq<Seq<char>> {
    seq![filename] + extension::companions(filename)
}

/// A media file and its companions, relative to the manifest.
pub open spec fn beside_manifest(filename: Seq<char>) -> Seq<ManifestReferenceView> {
    with_companions(filename).map_values(
        |name: Seq<char>| ManifestReferenceView { from_origin: false, target: name },
    )
}

/// A media file and its companions, in a directory of the origin.
pub open spec fn in_directory(
    directory: Seq<char>,
    filename: Seq<char>,
) -> Seq<ManifestReferenceView> {
    with_companions(filename).map_values(
        |name: Seq<char>|
            ManifestReferenceView { from_origin: true, target: directory + "/"@ + name },
    )
}

/// Where the file of a name may lie: beside the manifest and, for a bare name,
/// in each of the media directories of the origin.
pub open spec fn filename_references(
    filename: Seq<char>,
    directories: Seq<Seq<char>>,
) -> Seq<ManifestReferenceView> {
    if extension::bare_filename(filename) {
        beside_manifest(filename) + directories.map_values(
            |directory: Seq<char>| in_directory(directory, filename),
        ).flatten()
    } else {
        beside_manifest(filename)
    }
}

/// Where the media files that a manifest names may lie, in order.
pub open spec fn document_references(
    document: JsonView,
    directories: Seq<Seq<char>>,
) -> Seq<ManifestReferenceView> {
    json::media_filenames(document).map_values(
        |filename: Seq<char>| filename_references(filename, directories),
    ).flatten()
}

/// A media file and the pictures that may lie beside it.
fn name_with_companions(filename: &str) -> (names: Vec<String>)
    ensures
        names.deep_view() == with_companions(filename@),
{
    let mut companions = companion_media_filenames(filename);
    let ghost rest = companions.deep_view();
    let mut names: Vec<String> = Vec::new();
    names.push(filename.to_owned());
    names.append(&mut companions);
    assert(names.deep_view() =~= seq![filename@] + rest);
    names
}

/// Adds a media file and its companions, relative to the manifest.
fn add_beside_manifest(filename: &str, names: &Vec<String>, found: &mut Vec<ManifestReference>)
    requires
        names.deep_view() == with_companions(filename@),
    ensures
        final(found).deep_view() == old(found).deep_view() + beside_manifest(filename@),
{
    let ghost before = found.deep_view();
    let ghost block = beside_manifest(filename@);
    assert(before + block.take(0) =~= before);
    let mut i: usize = 0;
    while i < names.len()
        invariant
            i <= names.len(),
            names.deep_view() == with_companions(filename@),
            block == beside_manifest(filename@),
            found.deep_view() == before + block.take(i as int),
        decreases names.len() - i,
    {
        let ghost so_far = found.deep_view();
        found.push(ManifestReference { from_origin: false, target: names[i].clone() });
        assert(with_companions(filename@)[i as int] == names@[i as int]@);
        assert(found.deep_view() =~= so_far.push(block[i as int]));
        assert(before + block.take(i + 1) =~= (before + block.take(i as int)).push(
            block[i as int],
        ));
        i += 1;
    }
    assert(block.take(i as int) =~= block);
}

/// Adds a media file and its companions, in a directory of the origin.
fn add_in_directory(
    directory: &str,
    filename: &str,
    names: &Vec<String>,
    found: &mut Vec<ManifestReference>,
)
    requires
        names.deep_view() == with_companions(filename@),
    ensures
        final(found).deep_view() == old(found).deep_view() + in_directory(directory@, filename@),
{
    let ghost before = found.deep_view();
    let ghost block = in_directory(directory@, filename@);
    assert(before + block.take(0) =~= before);
    let mut i: usize = 0;
    while i < names.len()
        invariant
            i <= names.len(),
            names.deep_view() == with_companions(filename@),
            block == in_directory(directory@, filename@),
            found.deep_view() == before + block.take(i as int),
        decreases names.len() - i,
    {
        let ghost so_far = found.deep_view();
        found.push(
            ManifestReference {
                from_origin: true,
                target: concat3(directory, "/", names[i].as_str()),
            },
        );
        assert(with_companions(filename@)[i as int] == names@[i as int]@);
        assert(found.deep_view() =~= so_far.push(block[i as int]));
        assert(before + block.take(i + 1) =~= (before + block.take(i as int)).push(
            block[i as int],
        ));
        i += 1;
    }
    assert(block.take(i as int) =~= block);
}

/// Adds the places where the file of a name may lie.
fn add_filename_references(
    filename: &str,
    directories: &Vec<String>,
    found: &mut Vec<ManifestReference>,
)
    ensures
        final(found).deep_view() == old(found).deep_view() + filename_references(
            filename@,
            directories.deep_view(),
        ),
{
    let names = name_with_companions(filename);
    add_beside_manifest(filename, &names, found);
    if is_bare_filename(filename) {
        let ghost before = found.deep_view();
        let ghost blocks = directories.deep_view().map_values(
            |directory: Seq<char>| in_directory(directory, filename@),
        );
        assert(before + blocks.take(0).flatten() =~= before);
        let mut i: usize = 0;
        while i < directories.len()
            invariant
                i <= directories.len(),
                names.deep_view() == with_companions(filename@),
                blocks == directories.deep_view().map_values(
                    |directory: Seq<char>| in_directory(directory, filename@),
                ),
                found.deep_view() == before + blocks.take(i as int).flatten(),
            decreases directories.len() - i,
        {
            let ghost done = blocks.take(i as int);
            let ghost block = blocks[i as int];
            add_in_directory(directories[i].as_str(), filename, &names, found);
            assert(block == in_directory(directories@[i as int]@, filename@));
            assert(blocks.take(i + 1) =~= done.push(block));
            proof {
                done.lemma_flatten_push(block);
            }
            assert(found.deep_view() =~= before + (done.flatten() + block));
            i += 1;
        }
        assert(blocks.take(i as int) =~= blocks);
        proof {
            assert(found.deep_view() =~= old(found).deep_view() + (beside_manifest(filename@)
                + blocks.flatten()));
        }
    }
}

/// Where the media files that a manifest names may lie, in order.
pub fn manifest_references(document: &Json, media_directories: &Vec<String>) -> (found: Vec<
    ManifestReference,
>)
    ensures
        found.deep_view() == document_references(document.tree(), media_directories.deep_view()),
{
    let ghost directories = media_directories.deep_view();
    let mut filenames: Vec<String> = Vec::new();
    collect_media_filenames(document, &mut filenames);
    let ghost named = json::media_filenames(document.tree());
    assert(filenames.deep_view() =~= named);
    let ghost blocks = named.map_values(
        |filename: Seq<char>| filename_references(filename, directories),
    );
    let mut found: Vec<ManifestReference> = Vec::new();
    assert(found.deep_view() =~= blocks.take(0).flatten());
    let mut i: usize = 0;
    while i < filenames.len()
        invariant
            i <= filenames.len(),
            directories == media_directories.deep_view(),
            filenames.deep_view() == named,
            blocks == named.map_values(
                |filename: Seq<char>| filename_references(filename, directories),
            ),
            found.deep_view() == blocks.take(i as int).flatten(),
        decreases filenames.len() - i,
    {
        let ghost done = blocks.take(i as int);
        let ghost block = blocks[i as int];
        add_filename_references(filenames[i].as_str(), media_directories, &mut found);
        assert(named[i as int] == filenames@[i as int]@);
        assert(blocks.take(i + 1) =~= done.push(block));
        proof {
            done.lemma_flatten_push(block);
        }
        i += 1;
    }
    assert(blocks.take(i as int) =~= blocks);
    found
}

/// What joining each reference of a manifest gives.
pub open spec fn joined_references(
    origin: UrlView,
    manifest: UrlView,
    references: Seq<ManifestReferenceView>,
) -> Seq<Option<UrlView>> {
    references.map_values(
        |reference: ManifestReferenceView|
            urls::joined_url(
                if reference.from_origin {
                    origin
                } else {
                    manifest
                },
                reference.target,
            ),
    )
}

/// The URLs of the media files that a manifest names.
pub open spec fn manifest_urls(
    origin: UrlView,
    manifest: UrlView,
    document: Option<JsonView>,
    directories: Seq<Seq<char>>,
) -> Seq<UrlView> {
    match document {
        Some(given) => resolve::kept(
            joined_references(origin, manifest, document_references(given, directories)),
        ),
        None => Seq::empty(),
    }
}

/// Joins each reference of a manifest and keeps the URLs that come out.
pub fn resolve_references(
    origin: &PageUrl,
    current: &PageUrl,
    references: &Vec<ManifestReference>,
) -> (resolved: Vec<PageUrl>)
    ensures
        resolved.deep_view() == resolve::kept(
            joined_references(origin@, current@, references.deep_view()),
        ),
        urls::all_read_back(resolved.deep_view()),
{
    let ghost wanted = joined_references(origin@, current@, references.deep_view());
    let mut outcomes: Vec<Option<PageUrl>> = Vec::new();
    let mut i: usize = 0;
    while i < references.len()
        invariant
            i <= references.len(),
            wanted == joined_references(origin@, current@, references.deep_view()),
            outcomes.deep_view() == wanted.take(i as int),
            forall|j: int| 0 <= j < i ==> urls::reads_back_if_any(#[trigger] wanted[j]),
        decreases references.len() - i,
    {
        let ghost before = outcomes.deep_view();
        let base = if references[i].from_origin {
            origin
        } else {
            current
        };
        outcomes.push(join_url(base, references[i].target.as_str()));
        assert(references.deep_view()[i as int] == references@[i as int].deep_view());
        assert(outcomes.deep_view() =~= before.push(wanted[i as int]));
        assert(wanted.take(i + 1) =~= wanted.take(i as int).push(wanted[i as int]));
        i += 1;
    }
    assert(wanted.take(i as int) =~= wanted);
    proof {
        resolve::lemma_kept_read_back(wanted);
    }
    keep_joined(outcomes)
}

/// The URLs of the media files that a body names, where it is a JSON manifest.
pub fn extract_manifest_media(
    origin: &PageUrl,
    current: &PageUrl,
    body: &str,
    media_directories: &Vec<String>,
) -> (media: Vec<PageUrl>)
    ensures
        media.deep_view() == manifest_urls(
            origin@,
            current@,
            json::json_document(body@),
            media_directories.deep_view(),
        ),
        urls::all_read_back(media.deep_view()),
{
    match parse_json(body) {
        Some(document) => resolve_references(
            origin,
            current,
            &manifest_references(&document, media_directories),
        ),
        None => {
            let none: Vec<PageUrl> = Vec::new();
            assert(none.deep_view() =~= Seq::empty());
            none
        },
    }
}

} // verus!
