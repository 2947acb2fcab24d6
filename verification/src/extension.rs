//! File extensions: how they are read from a path, normalised and grouped.
use vstd::prelude::*;

use crate::text;
use crate::text::{
    contains_char, count_bytes, rsplit_once, same_text, split_first, split_last, starts_with,
    to_ascii_lowercase, trim, trim_start_class, CharClass,
};

verus! {

/// An extension without white space around it, without leading dots and in lower case.
pub open spec fn normalized_extension(extension: Seq<char>) -> Seq<char> {
    text::lowercased(text::left_trimmed(text::trimmed(extension), CharClass::Only('.')))
}

/// Trims an extension, drops its leading dots and puts it in lower case.
pub fn normalize_extension(extension: &str) -> (normalized: String)
    ensures
        normalized@ == normalized_extension(extension@),
{
    to_ascii_lowercase(trim_start_class(trim(extension), CharClass::Only('.')))
}

/// The last segment of a path, without the query.
pub open spec fn file_name(path: Seq<char>) -> Seq<char> {
    text::after_last(text::before_first(path, '?'), '/')
}

/// The normalised extension of the last segment of a path: what follows its
/// last dot, if that is 1 to 12 bytes long.
pub open spec fn path_extension(path: Seq<char>) -> Option<Seq<char>> {
    match text::split_at_last(file_name(path), '.') {
        Some((_, raw)) => if 1 <= text::byte_len(raw) <= 12 {
            Some(normalized_extension(raw))
        } else {
            None
        },
        None => None,
    }
}

/// The normalised extension of the last segment of a path, if it has one.
pub fn url_extension_from_path(path: &str) -> (extension: Option<String>)
    ensures
        extension.deep_view() == path_extension(path@),
{
    let name = split_last(split_first(path, '?'), '/');
    match rsplit_once(name, '.') {
        Some((_, raw)) => {
            let size: usize = count_bytes(raw);
            if size == 0 || size > 12 {
                None
            } else {
                Some(normalize_extension(raw))
            }
        },
        None => None,
    }
}

pub open spec fn names_video(extension: Seq<char>) -> bool {
    ||| extension == "webm"@
    ||| extension == "mp4"@
    ||| extension == "mkv"@
    ||| extension == "avi"@
    ||| extension == "mov"@
}

pub open spec fn names_audio(extension: Seq<char>) -> bool {
    ||| extension == "mp3"@
    ||| extension == "wav"@
    ||| extension == "ogg"@
    ||| extension == "flac"@
}

pub open spec fn names_media(extension: Seq<char>) -> bool {
    names_video(extension) || names_audio(extension)
}

pub(crate) fn is_video_extension(extension: &str) -> (found: bool)
    ensures
        found == names_video(extension@),
{
    same_text(extension, "webm") || same_text(extension, "mp4") || same_text(extension, "mkv")
        || same_text(extension, "avi") || same_text(extension, "mov")
}

pub(crate) fn is_audio_extension(extension: &str) -> (found: bool)
    ensures
        found == names_audio(extension@),
{
    same_text(extension, "mp3") || same_text(extension, "wav") || same_text(extension, "ogg")
        || same_text(extension, "flac")
}

/// Whether a normalised extension names a video or audio format.
pub fn is_media_extension(extension: &str) -> (found: bool)
    ensures
        found == names_media(extension@),
{
    is_video_extension(extension) || is_audio_extension(extension)
}

/// Whether a reference is a file name without directories or a URL scheme.
pub open spec fn bare_filename(value: Seq<char>) -> bool {
    &&& !value.contains('/')
    &&& !value.contains('\\')
    &&& !"http"@.is_prefix_of(value)
}

/// Whether a reference is a file name without directories or a URL scheme.
pub fn is_bare_filename(value: &str) -> (bare: bool)
    ensures
        bare == bare_filename(value@),
{
    !contains_char(value, '/') && !contains_char(value, '\\') && !starts_with(value, "http")
}

/// The picture files that may lie beside a video file: same name, with the
/// extensions of three picture formats. A file that is no video has none.
pub open spec fn companions(filename: Seq<char>) -> Seq<Seq<char>> {
    match text::split_at_last(filename, '.') {
        Some((stem, raw)) => if names_video(normalized_extension(raw)) {
            seq![stem + ".webp"@, stem + ".png"@, stem + ".jpg"@]
        } else {
            Seq::empty()
        },
        None => Seq::empty(),
    }
}

/// `stem` followed by `ending`.
fn with_ending(stem: &str, ending: &str) -> (name: String)
    ensures
        name@ == stem@ + ending@,
{
    let mut name = stem.to_owned();
    name.append(ending);
    name
}

/// The picture files that may lie beside a video file.
pub fn companion_media_filenames(filename: &str) -> (names: Vec<String>)
    ensures
        names.deep_view() == companions(filename@),
{
    let mut names: Vec<String> = Vec::new();
    if let Some((stem, raw)) = rsplit_once(filename, '.') {
        if is_video_extension(normalize_extension(raw).as_str()) {
            names.push(with_ending(stem, ".webp"));
            names.push(with_ending(stem, ".png"));
            names.push(with_ending(stem, ".jpg"));
        }
    }
    assert(names.deep_view() =~= companions(filename@));
    names
}

} // verus!
