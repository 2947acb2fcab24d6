//! Paths that are tried without a link to them.
use vstd::prelude::*;

use crate::options::{FilePreset, FilePresetView};
use crate::resolve;
use crate::resolve::resolve_all;
use crate::text;
use crate::text::{contains_text, copy_texts, replace_text, trim_start_class, CharClass};
use crate::urls::{PageUrl, UrlView};

verus! {

/// The extensions of all presets, in order.
pub open spec fn preset_list(presets: Seq<FilePresetView>) -> Seq<Seq<char>> {
    presets.map_values(|preset: FilePresetView| preset.extensions).flatten()
}

/// The extensions that paths are filled with: those of all presets where
/// everything is looked for or nothing is selected, else the selected ones.
pub open spec fn filled_extensions(
    presets: Seq<FilePresetView>,
    extensions: Seq<Seq<char>>,
    everything: bool,
) -> Seq<Seq<char>> {
    if everything || extensions.len() == 0 {
        preset_list(presets)
    } else {
        extensions
    }
}

/// The paths that a pattern stands for: one for each extension where it holds
/// the mark `{ext}`, else the pattern itself.
pub open spec fn filled_paths(pattern: Seq<char>, extensions: Seq<Seq<char>>) -> Seq<Seq<char>> {
    if text::has_text(pattern, "{ext}"@) {
        extensions.map_values(
            |e: Seq<char>|
                text::replaced(pattern, "{ext}"@, text::left_trimmed(e, CharClass::Only('.'))),
        )
    } else {
        seq![pattern]
    }
}

/// The paths that a list of patterns stands for, in order.
pub open spec fn all_filled_paths(
    patterns: Seq<Seq<char>>,
    extensions: Seq<Seq<char>>,
) -> Seq<Seq<char>> {
    patterns.map_values(|pattern: Seq<char>| filled_paths(pattern, extensions)).flatten()
}

/// The paths that are tried.
pub open spec fn tried_paths(
    patterns: Seq<Seq<char>>,
    presets: Seq<FilePresetView>,
    extensions: Seq<Seq<char>>,
    everything: bool,
) -> Seq<Seq<char>> {
    all_filled_paths(patterns, filled_extensions(presets, extensions, everything))
}

/// The extensions of all presets, in order.
fn list_presets(presets: &Vec<FilePreset>) -> (extensions: Vec<String>)
    ensures
        extensions.deep_view() == preset_list(presets.deep_view()),
{
    let ghost blocks = presets.deep_view().map_values(|preset: FilePresetView| preset.extensions);
    let mut extensions: Vec<String> = Vec::new();
    assert(extensions.deep_view() =~= blocks.take(0).flatten());
    let mut i: usize = 0;
    while i < presets.len()
        invariant
            i <= presets.len(),
            blocks == presets.deep_view().map_values(
                |preset: FilePresetView| preset.extensions,
            ),
            extensions.deep_view() == blocks.take(i as int).flatten(),
        decreases presets.len() - i,
    {
        let ghost done = blocks.take(i as int);
        let ghost block = blocks[i as int];
        let ghost before = extensions.deep_view();
        let mut copy = copy_texts(&presets[i].extensions);
        assert(block == copy.deep_view());
        extensions.append(&mut copy);
        assert(extensions.deep_view() =~= before + block);
        assert(blocks.take(i + 1) =~= done.push(block));
        proof {
            done.lemma_flatten_push(block);
        }
        i += 1;
    }
    assert(blocks.take(i as int) =~= blocks);
    extensions
}

/// Adds the paths that a pattern stands for.
fn add_filled_paths(pattern: &str, extensions: &Vec<String>, paths: &mut Vec<String>)
    ensures
        final(paths).deep_view() == old(paths).deep_view() + filled_paths(
            pattern@,
            extensions.deep_view(),
        ),
{
    let ghost before = paths.deep_view();
    proof {
        reveal_strlit("{ext}");
    }
    if contains_text(pattern, "{ext}") {
        let ghost block = filled_paths(pattern@, extensions.deep_view());
        assert(before + block.take(0) =~= before);
        let mut i: usize = 0;
        while i < extensions.len()
            invariant
                i <= extensions.len(),
                "{ext}"@.len() > 0,
                text::has_text(pattern@, "{ext}"@),
                block == filled_paths(pattern@, extensions.deep_view()),
                paths.deep_view() == before + block.take(i as int),
            decreases extensions.len() - i,
        {
            let ghost so_far = paths.deep_view();
            let clean = trim_start_class(extensions[i].as_str(), CharClass::Only('.'));
            paths.push(replace_text(pattern, "{ext}", clean));
            assert(extensions.deep_view()[i as int] == extensions@[i as int]@);
            assert(paths.deep_view() =~= so_far.push(block[i as int]));
            assert(before + block.take(i + 1) =~= (before + block.take(i as int)).push(
                block[i as int],
            ));
            i += 1;
        }
        assert(block.take(i as int) =~= block);
    } else {
        paths.push(pattern.to_owned());
        assert(paths.deep_view() =~= before + seq![pattern@]);
    }
}

/// The paths that are tried, in order.
pub fn brute_force_paths(
    patterns: &Vec<String>,
    presets: &Vec<FilePreset>,
    extensions: &Vec<String>,
    scan_everything: bool,
) -> (paths: Vec<String>)
    ensures
        paths.deep_view() == tried_paths(
            patterns.deep_view(),
            presets.deep_view(),
            extensions.deep_view(),
            scan_everything,
        ),
{
    let filled = if scan_everything || extensions.len() == 0 {
        list_presets(presets)
    } else {
        copy_texts(extensions)
    };
    let ghost used = filled_extensions(
        presets.deep_view(),
        extensions.deep_view(),
        scan_everything,
    );
    let ghost blocks = patterns.deep_view().map_values(
        |pattern: Seq<char>| filled_paths(pattern, used),
    );
    let mut paths: Vec<String> = Vec::new();
    assert(paths.deep_view() =~= blocks.take(0).flatten());
    let mut i: usize = 0;
    while i < patterns.len()
        invariant
            i <= patterns.len(),
            filled.deep_view() == used,
            blocks == patterns.deep_view().map_values(
                |pattern: Seq<char>| filled_paths(pattern, used),
            ),
            paths.deep_view() == blocks.take(i as int).flatten(),
        decreases patterns.len() - i,
    {
        let ghost done = blocks.take(i as int);
        let ghost block = blocks[i as int];
        add_filled_paths(patterns[i].as_str(), &filled, &mut paths);
        assert(block == filled_paths(patterns@[i as int]@, used));
        assert(blocks.take(i + 1) =~= done.push(block));
        proof {
            done.lemma_flatten_push(block);
        }
        i += 1;
    }
    assert(blocks.take(i as int) =~= blocks);
    paths
}

/// The URLs that are tried.
pub open spec fn tried_urls(
    base: UrlView,
    patterns: Seq<Seq<char>>,
    presets: Seq<FilePresetView>,
    extensions: Seq<Seq<char>>,
    everything: bool,
) -> Seq<UrlView> {
    resolve::kept(
        resolve::joined_each(base, tried_paths(patterns, presets, extensions, everything)),
    )
}

/// The URLs that are tried, as far as their paths can be joined to the base.
pub fn brute_force_urls(
    base: &PageUrl,
    patterns: &Vec<String>,
    presets: &Vec<FilePreset>,
    extensions: &Vec<String>,
    scan_everything: bool,
) -> (tried: Vec<PageUrl>)
    ensures
        tried.deep_view() == tried_urls(
            base@,
            patterns.deep_view(),
            presets.deep_view(),
            extensions.deep_view(),
            scan_everything,
        ),
{
    resolve_all(base, &brute_force_paths(patterns, presets, extensions, scan_everything))
}

} // verus!
