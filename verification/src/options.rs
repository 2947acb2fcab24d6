//! What a scan is asked to do, and the word lists that it works with.
use std::time::Duration;

use vstd::prelude::*;

use crate::extension;
use crate::extension::normalize_extension;
use crate::text;
use crate::text::{copy_texts, eq_ignore_ascii_case, holds_text, split_class, trim, CharClass};

verus! {

/// A named group of extensions, such as the video formats.
#[derive(Debug)]
pub struct FilePreset {
    pub key: String,
    pub extensions: Vec<String>,
}

/// What a [`FilePreset`] stands for.
pub struct FilePresetView {
    pub key: Seq<char>,
    pub extensions: Seq<Seq<char>>,
}

impl DeepView for FilePreset {
    type V = FilePresetView;

    open spec fn deep_view(&self) -> FilePresetView {
        FilePresetView { key: self.key@, extensions: self.extensions.deep_view() }
    }
}

/// What a file scan is asked to do.
#[derive(Debug)]
pub struct FileScanOptions {
    pub base_url: String,
    pub presets: Vec<String>,
    pub custom_extensions: Vec<String>,
    pub scan_everything: bool,
    pub brute_force: bool,
    pub crawl: bool,
    pub max_depth: usize,
    pub concurrency: usize,
    pub timeout: Duration,
}

/// A request for a file scan, as it stands in a query string.
#[derive(Debug)]
pub struct FileQuery {
    pub url: String,
    pub presets: Option<String>,
    pub custom: Option<String>,
    pub everything: Option<bool>,
    pub brute: Option<bool>,
    pub crawl: Option<bool>,
    pub max_depth: Option<usize>,
}

/// What a subdomain scan is asked to do.
#[derive(Debug)]
pub struct SubdomainScanOptions {
    pub domain: String,
    pub concurrency: usize,
    pub timeout: Duration,
}

impl Clone for FileScanOptions {
    fn clone(&self) -> (copy: FileScanOptions)
        ensures
            copy.base_url@ == self.base_url@,
            copy.presets.deep_view() == self.presets.deep_view(),
            copy.custom_extensions.deep_view() == self.custom_extensions.deep_view(),
            copy.scan_everything == self.scan_everything,
            copy.brute_force == self.brute_force,
            copy.crawl == self.crawl,
            copy.max_depth == self.max_depth,
            copy.concurrency == self.concurrency,
            copy.timeout == self.timeout,
    {
        FileScanOptions {
            base_url: self.base_url.clone(),
            presets: copy_texts(&self.presets),
            custom_extensions: copy_texts(&self.custom_extensions),
            scan_everything: self.scan_everything,
            brute_force: self.brute_force,
            crawl: self.crawl,
            max_depth: self.max_depth,
            concurrency: self.concurrency,
            timeout: self.timeout,
        }
    }
}

impl Clone for SubdomainScanOptions {
    fn clone(&self) -> (copy: SubdomainScanOptions)
        ensures
            copy.domain@ == self.domain@,
            copy.concurrency == self.concurrency,
            copy.timeout == self.timeout,
    {
        SubdomainScanOptions {
            domain: self.domain.clone(),
            concurrency: self.concurrency,
            timeout: self.timeout,
        }
    }
}

/// The candidates that a file scan checks at a time.
pub const FILE_CONCURRENCY: usize = 48;

/// The hosts that a subdomain scan checks at a time.
pub const SUBDOMAIN_CONCURRENCY: usize = 64;

/// How deep a file scan crawls where the request does not say.
pub const DEFAULT_DEPTH: usize = 2;

/// The deepest that a file scan crawls.
pub const DEEPEST: usize = 5;

/// The seconds that a file scan waits for a response.
pub const FILE_TIMEOUT_SECONDS: u64 = 8;

/// The seconds that a subdomain scan waits for a response.
pub const SUBDOMAIN_TIMEOUT_SECONDS: u64 = 6;

/// A piece of a comma-separated list: trimmed, and dropped where nothing is left.
pub open spec fn csv_item(piece: Seq<char>) -> Option<Seq<char>> {
    if text::trimmed(piece).len() > 0 {
        Some(text::trimmed(piece))
    } else {
        None
    }
}

/// The items of a comma-separated list.
pub open spec fn csv_items(value: Seq<char>) -> Seq<Seq<char>> {
    text::pieces(value, CharClass::Only(',')).filter_map(|piece: Seq<char>| csv_item(piece))
}

/// The items of a comma-separated list that may be missing.
pub open spec fn optional_csv_items(value: Option<Seq<char>>) -> Seq<Seq<char>> {
    match value {
        Some(given) => csv_items(given),
        None => Seq::empty(),
    }
}

/// Splits a comma-separated list, drops white space round the items and
/// leaves out empty ones.
pub fn split_csv(value: Option<String>) -> (items: Vec<String>)
    ensures
        items.deep_view() == optional_csv_items(value.deep_view()),
{
    let mut items: Vec<String> = Vec::new();
    if let Some(given) = value {
        let parts = split_class(given.as_str(), CharClass::Only(','));
        let ghost all = text::pieces(given@, CharClass::Only(','));
        let ghost pick = |piece: Seq<char>| csv_item(piece);
        let mut i: usize = 0;
        assert(items.deep_view() =~= all.take(0).filter_map(pick));
        while i < parts.len()
            invariant
                i <= parts.len(),
                parts.deep_view() == all,
                pick == (|piece: Seq<char>| csv_item(piece)),
                items.deep_view() == all.take(i as int).filter_map(pick),
            decreases parts.len() - i,
        {
            let ghost before = items.deep_view();
            let item = trim(parts[i].as_str());
            proof {
                all.lemma_filter_map_take_succ(pick, i as int);
                assert(all[i as int] == parts@[i as int]@);
            }
            if !item.is_empty() {
                items.push(item.to_owned());
                assert(items.deep_view() =~= before + seq![item@]);
            } else {
                assert(items.deep_view() =~= before + Seq::empty());
            }
            i += 1;
        }
        assert(all.take(i as int) =~= all);
    } else {
        assert(items.deep_view() =~= Seq::empty());
    }
    items
}

/// The options that a request for a file scan asks for.
pub fn file_scan_options(query: FileQuery, timeout: Duration) -> (options: FileScanOptions)
    ensures
        options.base_url@ == query.url@,
        options.presets.deep_view() == optional_csv_items(query.presets.deep_view()),
        options.custom_extensions.deep_view() == optional_csv_items(query.custom.deep_view()),
        options.scan_everything == (query.everything == Some(true)),
        options.brute_force == (query.brute != Some(false)),
        options.crawl == (query.crawl != Some(false)),
        options.max_depth == (match query.max_depth {
            Some(depth) => if depth <= DEEPEST {
                depth
            } else {
                DEEPEST
            },
            None => DEFAULT_DEPTH,
        }),
        options.concurrency == FILE_CONCURRENCY,
        options.timeout == timeout,
{
    let depth: usize = query.max_depth.unwrap_or(DEFAULT_DEPTH);
    FileScanOptions {
        base_url: query.url,
        presets: split_csv(query.presets),
        custom_extensions: split_csv(query.custom),
        scan_everything: query.everything.unwrap_or(false),
        brute_force: query.brute.unwrap_or(true),
        crawl: query.crawl.unwrap_or(true),
        max_depth: if depth > DEEPEST {
            DEEPEST
        } else {
            depth
        },
        concurrency: FILE_CONCURRENCY,
        timeout,
    }
}

/// The options that a request for a subdomain scan asks for.
pub fn subdomain_scan_options(domain: String, timeout: Duration) -> (options: SubdomainScanOptions)
    ensures
        options.domain@ == domain@,
        options.concurrency == SUBDOMAIN_CONCURRENCY,
        options.timeout == timeout,
{
    SubdomainScanOptions { domain, concurrency: SUBDOMAIN_CONCURRENCY, timeout }
}

/// How many workers run at a time: as many as asked for, but at least one.
pub fn worker_permits(concurrency: usize) -> (permits: usize)
    ensures
        permits == (if concurrency == 0 {
            1
        } else {
            concurrency as int
        }),
{
    if concurrency == 0 {
        1
    } else {
        concurrency
    }
}

/// The first preset with a key, in whatever case that is written.
pub open spec fn preset_named(presets: Seq<FilePresetView>, key: Seq<char>) -> Option<FilePresetView>
    decreases presets.len(),
{
    if presets.len() == 0 {
        None
    } else if text::lowercased(presets.first().key) == text::lowercased(key) {
        Some(presets.first())
    } else {
        preset_named(presets.drop_first(), key)
    }
}

/// The extensions of a list, each normalised.
pub open spec fn all_normalized(extensions: Seq<Seq<char>>) -> Seq<Seq<char>> {
    extensions.map_values(|e: Seq<char>| extension::normalized_extension(e))
}

/// The normalised extensions of the preset with a key; none where there is no
/// such preset.
pub open spec fn preset_extensions(presets: Seq<FilePresetView>, key: Seq<char>) -> Seq<Seq<char>> {
    match preset_named(presets, key) {
        Some(preset) => all_normalized(preset.extensions),
        None => Seq::empty(),
    }
}

/// The normalised extensions that a request names: those of its presets, then
/// its own.
pub open spec fn named_extensions(
    presets: Seq<FilePresetView>,
    keys: Seq<Seq<char>>,
    custom: Seq<Seq<char>>,
) -> Seq<Seq<char>> {
    keys.map_values(|key: Seq<char>| preset_extensions(presets, key)).flatten() + all_normalized(
        custom,
    )
}

/// Whether `list` holds just the items of `named`, each once.
pub open spec fn lists_once(list: Seq<Seq<char>>, named: Seq<Seq<char>>) -> bool {
    &&& list.no_duplicates()
    &&& forall|item: Seq<char>| #[trigger] list.contains(item) <==> named.contains(item)
}

/// Adds an item that is not in the list yet.
fn add_once(list: &mut Vec<String>, item: String)
    requires
        old(list).deep_view().no_duplicates(),
    ensures
        final(list).deep_view().no_duplicates(),
        forall|other: Seq<char>| #[trigger]
            final(list).deep_view().contains(other) <==> (old(list).deep_view().contains(other)
                || other == item@),
{
    let ghost before = list.deep_view();
    if !holds_text(list, item.as_str()) {
        let ghost added = item@;
        list.push(item);
        let ghost after = list.deep_view();
        assert(after =~= before.push(added));
        assert forall|other: Seq<char>| #[trigger] after.contains(other) implies (before.contains(
            other,
        ) || other == added) by {
            let i = choose|i: int| 0 <= i < after.len() && after[i] == other;
            if i < before.len() {
                assert(before[i] == other);
            }
        }
        assert forall|other: Seq<char>| before.contains(other) || other == added implies
            #[trigger] after.contains(other) by {
            if before.contains(other) {
                let i = choose|i: int| 0 <= i < before.len() && before[i] == other;
                assert(after[i] == other);
            } else {
                assert(after[before.len() as int] == other);
            }
        }
        assert forall|i: int, j: int|
            0 <= i < after.len() && 0 <= j < after.len() && i != j implies after[i] != after[j] by {
            if i == before.len() {
                assert(before[j] == after[j]);
                assert(before.contains(before[j]));
            } else if j == before.len() {
                assert(before[i] == after[i]);
                assert(before.contains(before[i]));
            }
        }
    }
}

/// Adds the normalised form of every extension that is not in the list yet.
fn add_extensions(list: &mut Vec<String>, extensions: &Vec<String>)
    requires
        old(list).deep_view().no_duplicates(),
    ensures
        final(list).deep_view().no_duplicates(),
        forall|item: Seq<char>| #[trigger]
            final(list).deep_view().contains(item) <==> (old(list).deep_view().contains(item)
                || all_normalized(extensions.deep_view()).contains(item)),
{
    let ghost added = all_normalized(extensions.deep_view());
    let ghost before = list.deep_view();
    let mut i: usize = 0;
    while i < extensions.len()
        invariant
            i <= extensions.len(),
            added == all_normalized(extensions.deep_view()),
            list.deep_view().no_duplicates(),
            forall|item: Seq<char>| #[trigger]
                list.deep_view().contains(item) <==> (before.contains(item) || added.take(
                    i as int,
                ).contains(item)),
        decreases extensions.len() - i,
    {
        let ghost earlier = list.deep_view();
        add_once(list, normalize_extension(extensions[i].as_str()));
        assert(added[i as int] == extension::normalized_extension(extensions@[i as int]@));
        assert forall|item: Seq<char>| #[trigger] list.deep_view().contains(item) <==> (
        before.contains(item) || added.take(i + 1).contains(item)) by {
            assert(added.take(i + 1) =~= added.take(i as int).push(added[i as int]));
            text::lemma_push_contains(added.take(i as int), added[i as int], item);
        }
        i += 1;
    }
    assert(added.take(i as int) =~= added);
}

/// Finds the first preset with a key, in whatever case that is written.
fn find_preset<'a>(presets: &'a Vec<FilePreset>, key: &str) -> (found: Option<&'a FilePreset>)
    ensures
        found.deep_view() == preset_named(presets.deep_view(), key@),
{
    let ghost all = presets.deep_view();
    let mut i: usize = 0;
    assert(all.skip(0) =~= all);
    while i < presets.len()
        invariant
            i <= presets.len(),
            all == presets.deep_view(),
            preset_named(all, key@) == preset_named(all.skip(i as int), key@),
        decreases presets.len() - i,
    {
        assert(all.skip(i as int).first() == presets@[i as int].deep_view());
        assert(all.skip(i as int).drop_first() =~= all.skip(i + 1));
        if eq_ignore_ascii_case(presets[i].key.as_str(), key) {
            return Some(&presets[i]);
        }
        i += 1;
    }
    None
}

/// The extensions that a file scan looks for: those of the presets that the
/// options name and those that they give, each normalised and listed once.
pub fn selected_extensions(options: &FileScanOptions, presets: &Vec<FilePreset>) -> (extensions: Vec<
    String,
>)
    ensures
        lists_once(
            extensions.deep_view(),
            named_extensions(
                presets.deep_view(),
                options.presets.deep_view(),
                options.custom_extensions.deep_view(),
            ),
        ),
{
    let ghost all = presets.deep_view();
    let ghost keys = options.presets.deep_view();
    let ghost by_key = keys.map_values(|key: Seq<char>| preset_extensions(all, key));
    let mut extensions: Vec<String> = Vec::new();
    assert(extensions.deep_view() =~= by_key.take(0).flatten());
    let mut i: usize = 0;
    while i < options.presets.len()
        invariant
            i <= options.presets.len(),
            all == presets.deep_view(),
            keys == options.presets.deep_view(),
            by_key == keys.map_values(|key: Seq<char>| preset_extensions(all, key)),
            extensions.deep_view().no_duplicates(),
            forall|item: Seq<char>| #[trigger]
                extensions.deep_view().contains(item) <==> by_key.take(
                    i as int,
                ).flatten().contains(item),
        decreases options.presets.len() - i,
    {
        let ghost earlier = extensions.deep_view();
        let ghost block = by_key[i as int];
        assert(block == preset_extensions(all, options.presets@[i as int]@));
        if let Some(found) = find_preset(presets, options.presets[i].as_str()) {
            add_extensions(&mut extensions, &found.extensions);
        }
        assert forall|item: Seq<char>| #[trigger]
            extensions.deep_view().contains(item) <==> by_key.take(i + 1).flatten().contains(
                item,
            ) by {
            let done = by_key.take(i as int);
            assert(by_key.take(i + 1) =~= done.push(block));
            done.lemma_flatten_push(block);
            text::lemma_add_contains(done.flatten(), block, item);
        }
        i += 1;
    }
    assert(by_key.take(i as int) =~= by_key);
    let ghost earlier = extensions.deep_view();
    add_extensions(&mut extensions, &options.custom_extensions);
    let ghost custom = all_normalized(options.custom_extensions.deep_view());
    assert forall|item: Seq<char>| #[trigger] extensions.deep_view().contains(item) <==> (
    by_key.flatten() + custom).contains(item) by {
        text::lemma_add_contains(by_key.flatten(), custom, item);
    }
    extensions
}

} // verus!
