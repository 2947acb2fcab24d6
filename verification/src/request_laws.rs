//! What the rules on requests mean: lists, presets and the options of a scan.
use std::time::Duration;

use vstd::prelude::*;

use crate::extension;
use crate::list_lemmas;
use crate::options;
use crate::options::{
    file_scan_options, selected_extensions, split_csv, subdomain_scan_options, worker_permits,
    FilePreset, FilePresetView, FileQuery, FileScanOptions, SubdomainScanOptions,
};
use crate::rule_laws;
use crate::text;
use crate::text::CharClass;
use crate::text_laws;

verus! {

/// A preset and a request read as their fields stand.
pub proof fn law_preset_view(preset: FilePreset)
    ensures
        preset.deep_view().key == preset.key@,
        preset.deep_view().extensions == preset.extensions.deep_view(),
{
}

/// A list that is split at a comma holds the items before it, then those behind.
pub proof fn law_list_at_comma(before: Seq<char>, after: Seq<char>)
    ensures
        options::csv_items(before.push(',') + after) == options::csv_items(before)
            + options::csv_items(after),
{
    text_laws::law_split(before, ',', after, CharClass::Only(','));
    list_lemmas::lemma_filter_map_add(
        text::pieces(before, CharClass::Only(',')),
        text::pieces(after, CharClass::Only(',')),
        |piece: Seq<char>| options::csv_item(piece),
    );
}

/// A list without commas is one item, which is what stands between white space, or
/// none where nothing else stands there.
pub proof fn law_list_of_one(lead: Seq<char>, core: Seq<char>, tail: Seq<char>)
    requires
        text_laws::all_in(lead, CharClass::WhiteSpace),
        text_laws::all_in(tail, CharClass::WhiteSpace),
        text_laws::bare_ends(core, CharClass::WhiteSpace),
        !core.contains(','),
    ensures
        options::csv_items(lead + core + tail) == if core.len() > 0 {
            seq![core]
        } else {
            Seq::empty()
        },
{
    let whole = lead + core + tail;
    assert forall|i: int| 0 <= i < whole.len() implies !CharClass::Only(',').has_char(
        #[trigger] whole[i],
    ) by {
        if i < lead.len() {
            assert(CharClass::WhiteSpace.has_char(lead[i]));
        } else if i < lead.len() + core.len() {
            assert(core.contains(core[i - lead.len()]));
        } else {
            assert(CharClass::WhiteSpace.has_char(tail[i - lead.len() - core.len()]));
        }
    }
    text_laws::law_unsplit(whole, CharClass::Only(','));
    text_laws::law_trim(lead, core, tail, CharClass::WhiteSpace);
    list_lemmas::lemma_filter_map_one(whole, |piece: Seq<char>| options::csv_item(piece));
}

/// Splitting gives the items of the list, and none where there is no list.
pub proof fn law_split_list(value: Option<String>, items: Vec<String>)
    requires
        call_ensures(split_csv, (value,), items),
    ensures
        value is None ==> items@.len() == 0,
        value is Some ==> items.deep_view() == options::csv_items(value->0@),
{
    assert(items.deep_view().len() == items@.len());
}

/// What a request for a file scan asks for: the lists that it gives, brute force and
/// crawling unless it says no, everything just where it says yes, and the depth that
/// it names, but at most five, and two where it names none.
pub proof fn law_file_scan_options(query: FileQuery, timeout: Duration, given: FileScanOptions)
    requires
        call_ensures(file_scan_options, (query, timeout), given),
    ensures
        given.base_url@ == query.url@,
        query.presets is None ==> given.presets@.len() == 0,
        query.presets is Some ==> given.presets.deep_view() == options::csv_items(
            query.presets->0@,
        ),
        query.custom is None ==> given.custom_extensions@.len() == 0,
        query.custom is Some ==> given.custom_extensions.deep_view() == options::csv_items(
            query.custom->0@,
        ),
        query.everything is None ==> !given.scan_everything,
        query.everything is Some ==> given.scan_everything == query.everything->0,
        query.brute is None ==> given.brute_force,
        query.brute is Some ==> given.brute_force == query.brute->0,
        query.crawl is None ==> given.crawl,
        query.crawl is Some ==> given.crawl == query.crawl->0,
        given.max_depth <= 5,
        query.max_depth is None ==> given.max_depth == 2,
        query.max_depth is Some && query.max_depth->0 <= 5 ==> given.max_depth
            == query.max_depth->0,
        query.max_depth is Some && query.max_depth->0 > 5 ==> given.max_depth == 5,
        given.concurrency == 48,
        given.timeout == timeout,
{
    assert(given.presets.deep_view().len() == given.presets@.len());
    assert(given.custom_extensions.deep_view().len() == given.custom_extensions@.len());
}

/// What a request for a subdomain scan asks for.
pub proof fn law_subdomain_scan_options(
    domain: String,
    timeout: Duration,
    given: SubdomainScanOptions,
)
    requires
        call_ensures(subdomain_scan_options, (domain, timeout), given),
    ensures
        given.domain@ == domain@,
        given.concurrency == 64,
        given.timeout == timeout,
{
}

/// The seconds that the two scans wait for an answer.
pub proof fn law_timeouts()
    ensures
        options::FILE_TIMEOUT_SECONDS == 8,
        options::SUBDOMAIN_TIMEOUT_SECONDS == 6,
{
}

/// There is always a worker, and no more than were asked for where any were.
pub proof fn law_worker_permits(concurrency: usize, permits: usize)
    requires
        call_ensures(worker_permits, (concurrency,), permits),
    ensures
        permits >= 1,
        concurrency >= 1 ==> permits == concurrency,
        concurrency == 0 ==> permits == 1,
{
}

/// Whether two keys are the same but for the case of their ASCII letters.
pub open spec fn same_key(a: Seq<char>, b: Seq<char>) -> bool {
    text::lowercased(a) == text::lowercased(b)
}

/// A key names the first preset that has it in any case, wherever that stands in the
/// list.
pub proof fn law_first_preset_is_named(presets: Seq<FilePresetView>, key: Seq<char>, i: int)
    requires
        0 <= i < presets.len(),
        same_key(presets[i].key, key),
        forall|j: int| 0 <= j < i ==> !same_key(#[trigger] presets[j].key, key),
    ensures
        options::preset_named(presets, key) == Some(presets[i]),
    decreases i,
{
    if i > 0 {
        let rest = presets.drop_first();
        assert(!same_key(presets[0].key, key));
        assert forall|j: int| 0 <= j < i - 1 implies !same_key(#[trigger] rest[j].key, key) by {
            assert(rest[j] == presets[j + 1]);
        }
        law_first_preset_is_named(rest, key, i - 1);
    }
}

/// A key that no preset has names none.
pub proof fn law_unknown_preset(presets: Seq<FilePresetView>, key: Seq<char>)
    requires
        forall|j: int| 0 <= j < presets.len() ==> !same_key(#[trigger] presets[j].key, key),
    ensures
        options::preset_named(presets, key) is None,
    decreases presets.len(),
{
    if presets.len() > 0 {
        let rest = presets.drop_first();
        assert(!same_key(presets[0].key, key));
        assert forall|j: int| 0 <= j < rest.len() implies !same_key(#[trigger] rest[j].key, key) by {
            assert(rest[j] == presets[j + 1]);
        }
        law_unknown_preset(rest, key);
    }
}

/// Whether a preset is the first of a list that has a key in any case.
pub open spec fn first_with_key(presets: Seq<FilePresetView>, i: int, key: Seq<char>) -> bool {
    &&& 0 <= i < presets.len()
    &&& same_key(presets[i].key, key)
    &&& forall|j: int| 0 <= j < i ==> !same_key(#[trigger] presets[j].key, key)
}

/// Every extension of the first preset that has one of the keys is selected, in its
/// normal form, wherever the preset stands in the list and whatever the other keys
/// are.
pub proof fn law_preset_is_selected(
    given: FileScanOptions,
    presets: Vec<FilePreset>,
    selected: Vec<String>,
    k: int,
    i: int,
    j: int,
)
    requires
        call_ensures(selected_extensions, (&given, &presets), selected),
        0 <= k < given.presets@.len(),
        first_with_key(presets.deep_view(), i, given.presets@[k]@),
        0 <= j < presets@[i].extensions@.len(),
    ensures
        selected.deep_view().contains(
            extension::normalized_extension(presets@[i].extensions@[j]@),
        ),
{
    let all = presets.deep_view();
    let keys = given.presets.deep_view();
    let key = given.presets@[k]@;
    assert(keys[k] == key);
    law_first_preset_is_named(all, key, i);
    let lists = keys.map_values(|key: Seq<char>| options::preset_extensions(all, key));
    assert(lists[k] == options::all_normalized(all[i].extensions));
    let wanted = extension::normalized_extension(presets@[i].extensions@[j]@);
    assert(all[i].extensions[j] == presets@[i].extensions@[j]@);
    assert(lists[k][j] == wanted);
    rule_laws::lemma_flatten_has(lists, k, j);
    text::lemma_add_contains(
        lists.flatten(),
        options::all_normalized(given.custom_extensions.deep_view()),
        wanted,
    );
}

/// Every extension that a request gives itself is selected, in its normal form.
pub proof fn law_own_extension_is_selected(
    given: FileScanOptions,
    presets: Vec<FilePreset>,
    selected: Vec<String>,
    j: int,
)
    requires
        call_ensures(selected_extensions, (&given, &presets), selected),
        0 <= j < given.custom_extensions@.len(),
    ensures
        selected.deep_view().contains(
            extension::normalized_extension(given.custom_extensions@[j]@),
        ),
{
    let custom = options::all_normalized(given.custom_extensions.deep_view());
    let wanted = extension::normalized_extension(given.custom_extensions@[j]@);
    assert(custom[j] == wanted);
    let lists = given.presets.deep_view().map_values(
        |key: Seq<char>| options::preset_extensions(presets.deep_view(), key),
    );
    text::lemma_add_contains(lists.flatten(), custom, wanted);
}

/// Whether an extension belongs, in its normal form, to the first preset that has
/// one of some keys.
pub open spec fn of_a_named_preset(
    presets: Seq<FilePresetView>,
    keys: Seq<Seq<char>>,
    item: Seq<char>,
) -> bool {
    exists|k: int, i: int, j: int|
        0 <= k < keys.len() && #[trigger] first_with_key(presets, i, keys[k]) && 0 <= j
            < presets[i].extensions.len() && extension::normalized_extension(
            #[trigger] presets[i].extensions[j],
        ) == item
}

/// Whether an extension is given, in its normal form, by the first preset that has one
/// of some keys, or by a list of its own.
pub open spec fn selected_by(
    presets: Seq<FilePresetView>,
    keys: Seq<Seq<char>>,
    own: Seq<Seq<char>>,
    item: Seq<char>,
) -> bool {
    of_a_named_preset(presets, keys, item) || exists|j: int|
        0 <= j < own.len() && extension::normalized_extension(#[trigger] own[j]) == item
}

/// No extension is selected twice.
pub proof fn law_selected_once(
    given: FileScanOptions,
    presets: Vec<FilePreset>,
    selected: Vec<String>,
    n: int,
    m: int,
)
    requires
        call_ensures(selected_extensions, (&given, &presets), selected),
        0 <= n < m < selected@.len(),
    ensures
        selected@[n]@ != selected@[m]@,
{
    let list = selected.deep_view();
    assert(list[n] == selected@[n]@ && list[m] == selected@[m]@);
}

/// What a list of the named extensions holds.
pub(crate) proof fn lemma_listed(
    list: Seq<Seq<char>>,
    presets: Seq<FilePresetView>,
    keys: Seq<Seq<char>>,
    own: Seq<Seq<char>>,
    item: Seq<char>,
)
    requires
        options::lists_once(list, options::named_extensions(presets, keys, own)),
    ensures
        list.no_duplicates(),
        list.contains(item) <==> selected_by(presets, keys, own, item),
{
    let custom = options::all_normalized(own);
    let lists = keys.map_values(|key: Seq<char>| options::preset_extensions(presets, key));
    text::lemma_add_contains(lists.flatten(), custom, item);
    if custom.contains(item) {
        let j = choose|j: int| 0 <= j < custom.len() && custom[j] == item;
        assert(extension::normalized_extension(own[j]) == item);
    }
    if exists|j: int|
        0 <= j < own.len() && extension::normalized_extension(#[trigger] own[j]) == item {
        let j = choose|j: int|
            0 <= j < own.len() && extension::normalized_extension(#[trigger] own[j]) == item;
        assert(custom[j] == item);
    }
    if lists.flatten().contains(item) {
        list_lemmas::lemma_flatten_from(lists, item);
        let k = choose|k: int| 0 <= k < lists.len() && (#[trigger] lists[k]).contains(item);
        let i = lemma_named_place(presets, keys[k]);
        let j = choose|j: int| 0 <= j < lists[k].len() && lists[k][j] == item;
        assert(lists[k] == options::all_normalized(presets[i].extensions));
        assert(extension::normalized_extension(presets[i].extensions[j]) == item);
        assert(first_with_key(presets, i, keys[k]));
    }
    if of_a_named_preset(presets, keys, item) {
        let (k, i, j) = choose|k: int, i: int, j: int|
            0 <= k < keys.len() && #[trigger] first_with_key(presets, i, keys[k]) && 0 <= j
                < presets[i].extensions.len() && extension::normalized_extension(
                #[trigger] presets[i].extensions[j],
            ) == item;
        law_first_preset_is_named(presets, keys[k], i);
        assert(lists[k] == options::all_normalized(presets[i].extensions));
        assert(lists[k][j] == item);
        rule_laws::lemma_flatten_has(lists, k, j);
    }
}

/// An extension is selected just where a named preset or the request itself gives it.
pub proof fn law_selected(
    given: FileScanOptions,
    presets: Vec<FilePreset>,
    selected: Vec<String>,
    item: Seq<char>,
)
    requires
        call_ensures(selected_extensions, (&given, &presets), selected),
    ensures
        selected.deep_view().contains(item) <==> selected_by(
            presets.deep_view(),
            given.presets.deep_view(),
            given.custom_extensions.deep_view(),
            item,
        ),
{
    lemma_listed(
        selected.deep_view(),
        presets.deep_view(),
        given.presets.deep_view(),
        given.custom_extensions.deep_view(),
        item,
    );
}

/// The place of the preset that a key names.
proof fn lemma_named_place(presets: Seq<FilePresetView>, key: Seq<char>) -> (i: int)
    requires
        options::preset_named(presets, key) is Some,
    ensures
        first_with_key(presets, i, key),
        options::preset_named(presets, key) == Some(presets[i]),
    decreases presets.len(),
{
    if same_key(presets.first().key, key) {
        0
    } else {
        let rest = presets.drop_first();
        let i = lemma_named_place(rest, key);
        assert forall|j: int| 0 <= j < i + 1 implies !same_key(#[trigger] presets[j].key, key) by {
            if j > 0 {
                assert(presets[j] == rest[j - 1]);
                assert(!same_key(rest[j - 1].key, key));
            }
        }
        i + 1
    }
}

/// Copies of options are the same in each field.
pub proof fn law_options_copy(
    file: FileScanOptions,
    file_copy: FileScanOptions,
    subdomain: SubdomainScanOptions,
    subdomain_copy: SubdomainScanOptions,
)
    requires
        call_ensures(FileScanOptions::clone, (&file,), file_copy),
        call_ensures(SubdomainScanOptions::clone, (&subdomain,), subdomain_copy),
    ensures
        file_copy.base_url@ == file.base_url@,
        file_copy.presets.deep_view() == file.presets.deep_view(),
        file_copy.custom_extensions.deep_view() == file.custom_extensions.deep_view(),
        file_copy.scan_everything == file.scan_everything,
        file_copy.brute_force == file.brute_force && file_copy.crawl == file.crawl,
        file_copy.max_depth == file.max_depth && file_copy.concurrency == file.concurrency,
        file_copy.timeout == file.timeout,
        subdomain_copy.domain@ == subdomain.domain@,
        subdomain_copy.concurrency == subdomain.concurrency,
        subdomain_copy.timeout == subdomain.timeout,
{
}

} // verus!
