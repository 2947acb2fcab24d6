//! What the answers of a server lead to: which are taken for missing files, which
//! are reported, and with what.
use std::collections::hash_map::DefaultHasher;

use vstd::prelude::*;
use vstd::std_specs::hash::DefaultHasherAdditionalSpecFns;

use crate::candidate;
use crate::candidate::{check_candidate, is_rejected_status, CandidateResponse};
use crate::content;
use crate::extension;
use crate::list_lemmas;
use crate::name_laws;
use crate::number;
use crate::resolve;
use crate::results;
use crate::results::{
    client_error_message, fetch_error_message, file_result, finished, inferred_api_result,
    inferred_directory_result, progress, worker_error_message, worker_updates, FileProgress,
    FileResult, FileScanUpdate, FileUpdateView, ScanCounters, WorkerOutcome,
};
use crate::soft404;
use crate::soft404::{
    body_signature, build_soft_404_profile, soft_404_probe_paths, soft_404_probes, ProbeResponse,
    ProbeResponseView, Soft404Profile, Soft404Sample, Soft404SampleView,
};
use crate::urls::PageUrl;

verus! {

/// Answers, samples and results read as their fields stand.
pub proof fn law_answer_views(
    response: CandidateResponse,
    probe: ProbeResponse,
    sample: Soft404Sample,
    result: FileResult,
)
    ensures
        response@.status == response.status,
        response@.content_type == response.content_type.deep_view(),
        response@.content_range == response.content_range.deep_view(),
        response@.content_length == response.content_length,
        response@.body == response.body@,
        probe.deep_view().status == probe.status,
        probe.deep_view().content_type == probe.content_type.deep_view(),
        probe.deep_view().body == probe.body@,
        sample.deep_view().status == sample.status,
        sample.deep_view().family == sample.content_type_family@,
        sample.deep_view().body_len == sample.body_len,
        sample.deep_view().signature == sample.body_signature,
        result@.url == result.url@,
        result@.status == result.status,
        result@.content_type == result.content_type@,
        result@.size == result.size,
        result@.extension == result.extension@,
        result.deep_view() == result@,
{
}

/// Reports read as their fields stand.
pub proof fn law_report_views(
    total: usize,
    result: FileResult,
    progress: FileProgress,
    checked: usize,
    found: usize,
    elapsed_ms: u128,
    message: String,
)
    ensures
        (FileScanUpdate::Started { total }).deep_view() == (FileUpdateView::Started { total }),
        (FileScanUpdate::Result { result }).deep_view() == (FileUpdateView::Result {
            result: result@,
        }),
        (FileScanUpdate::Progress { progress }).deep_view() == (FileUpdateView::Progress {
            progress,
        }),
        (FileScanUpdate::Finished { checked, found, elapsed_ms }).deep_view() == (
        FileUpdateView::Finished { checked, found, elapsed_ms }),
        (FileScanUpdate::Error { message }).deep_view() == (FileUpdateView::Error {
            message: message@,
        }),
{
}

/// The signature of a body is the hash of at most its first 16384 bytes, with their
/// number before them and the length of the whole body behind them.
pub proof fn law_signature(bytes: &[u8], signature: u64, start: Seq<u8>, rest: Seq<u8>)
    requires
        call_ensures(body_signature, (bytes,), signature),
        bytes@ == start + rest,
        start.len() <= 16384,
        start.len() < 16384 ==> rest.len() == 0,
    ensures
        signature == DefaultHasher::spec_finish(
            seq![
                vstd::bytes::spec_u64_to_le_bytes(start.len() as u64),
                start,
                vstd::bytes::spec_u64_to_le_bytes((start.len() + rest.len()) as u64),
            ],
        ),
        signature == soft404::signature_of(bytes@),
{
    assert(bytes@.take(start.len() as int) =~= start);
}

/// An answer looks like a sample just where their status, the family of their content
/// type and their signature are the same and their lengths lie at most 32 bytes
/// apart.
pub proof fn law_looks_like(
    sample: Soft404SampleView,
    status: u16,
    family: Seq<char>,
    body_len: usize,
    signature: u64,
)
    ensures
        sample.looks_like(status, family, body_len, signature) <==> sample.status == status
            && sample.family == family && sample.signature == signature && -32
            <= sample.body_len - body_len <= 32,
{
}

/// An answer is taken for one to a missing file just where it looks like one of the
/// samples, wherever that stands among them.
pub proof fn law_soft_404(
    profile: Soft404Profile,
    status: u16,
    content_type: &str,
    body_len: usize,
    signature: u64,
    found: bool,
)
    requires
        call_ensures(
            Soft404Profile::matches,
            (&profile, status, content_type, body_len, signature),
            found,
        ),
    ensures
        found <==> exists|i: int|
            0 <= i < profile.samples@.len() && (#[trigger] profile.samples@[i]).status == status
                && profile.samples@[i].content_type_family@ == content::family_of(content_type@)
                && profile.samples@[i].body_signature == signature && -32
                <= profile.samples@[i].body_len - body_len <= 32,
{
    let samples = profile@;
    let family = content::family_of(content_type@);
    if found {
        let i = choose|i: int|
            0 <= i < samples.len() && (#[trigger] samples[i]).looks_like(
                status,
                family,
                body_len,
                signature,
            );
        assert(samples[i] == profile.samples@[i].deep_view());
    }
    if exists|i: int|
        0 <= i < profile.samples@.len() && (#[trigger] profile.samples@[i]).status == status
            && profile.samples@[i].content_type_family@ == family
            && profile.samples@[i].body_signature == signature && -32
            <= profile.samples@[i].body_len - body_len <= 32 {
        let i = choose|i: int|
            0 <= i < profile.samples@.len() && (#[trigger] profile.samples@[i]).status == status
                && profile.samples@[i].content_type_family@ == family
                && profile.samples@[i].body_signature == signature && -32
                <= profile.samples@[i].body_len - body_len <= 32;
        assert(samples[i] == profile.samples@[i].deep_view());
        assert(samples[i].looks_like(status, family, body_len, signature));
    }
}

/// What is kept of two lists of answers put together is what is kept of each. Of one
/// answer its status, the family of its content type, the length of its body and its
/// signature are kept; a missing answer leaves nothing.
pub proof fn law_profile(
    a: Seq<Option<ProbeResponseView>>,
    b: Seq<Option<ProbeResponseView>>,
    status: u16,
    content_type: Seq<char>,
    body: Seq<u8>,
)
    requires
        body.len() <= usize::MAX,
    ensures
        soft404::profile_of(a + b) == soft404::profile_of(a) + soft404::profile_of(b),
        soft404::profile_of(seq![None]) == Seq::<Soft404SampleView>::empty(),
        soft404::profile_of(
            seq![Some(ProbeResponseView { status, content_type: Some(content_type), body })],
        ) == seq![
            Soft404SampleView {
                status,
                family: content::family_of(content_type),
                body_len: body.len() as usize,
                signature: soft404::signature_of(body),
            },
        ],
        soft404::profile_of(
            seq![Some(ProbeResponseView { status, content_type: None, body })],
        ) == seq![
            Soft404SampleView {
                status,
                family: content::family_of(Seq::empty()),
                body_len: body.len() as usize,
                signature: soft404::signature_of(body),
            },
        ],
{
    let pick = |response: Option<ProbeResponseView>| soft404::sample_if_any(response);
    list_lemmas::lemma_filter_map_add(a, b, pick);
    list_lemmas::lemma_filter_map_one(None, pick);
    list_lemmas::lemma_filter_map_one(
        Some(ProbeResponseView { status, content_type: Some(content_type), body }),
        pick,
    );
    list_lemmas::lemma_filter_map_one(
        Some(ProbeResponseView { status, content_type: None, body }),
        pick,
    );
}

/// The profile that is built is what is kept of the answers.
pub proof fn law_build_profile(responses: Vec<Option<ProbeResponse>>, profile: Soft404Profile)
    requires
        call_ensures(build_soft_404_profile, (&responses,), profile),
    ensures
        profile.samples.deep_view() == soft404::profile_of(responses.deep_view()),
{
}

/// The two files that cannot be there are named after the number, and are joined to
/// the base.
pub proof fn law_probe_paths(
    base: PageUrl,
    nonce: u128,
    paths: Vec<String>,
    probes: Vec<PageUrl>,
)
    requires
        call_ensures(soft_404_probe_paths, (nonce,), paths),
        call_ensures(soft_404_probes, (&base, nonce), probes),
    ensures
        paths@.len() == 2,
        paths@[0]@ == ".mocha-scanner-missing-"@ + number::decimal_text(nonce as nat) + ".txt"@,
        paths@[1]@ == "mocha-scanner/missing-"@ + number::decimal_text(nonce as nat) + ".json"@,
        probes.deep_view() == resolve::kept(resolve::joined_each(base@, paths.deep_view())),
{
    let texts = paths.deep_view();
    assert(texts.len() == paths@.len());
    assert(texts[0] == paths@[0]@ && texts[1] == paths@[1]@);
}

/// As many bytes of a candidate are asked for as the signature of a body reads.
pub proof fn law_candidate_range()
    ensures
        candidate::CANDIDATE_RANGE@ == "bytes=0-16383"@,
        soft404::SAMPLE_BYTES == 16384,
{
}

/// Which statuses say that there is no file.
pub proof fn law_rejected_status(status: u16, rejected: bool)
    requires
        call_ensures(is_rejected_status, (status,), rejected),
    ensures
        rejected <==> status == 404 || status == 416 || status / 100 == 5,
        rejected <==> candidate::status_rejected(status),
{
}

/// Where a candidate is reported and its content range names a total, that total is
/// its size, whatever its status and its content length are.
pub proof fn law_size_is_the_total(
    url: PageUrl,
    extensions: Vec<String>,
    profile: Soft404Profile,
    everything: bool,
    response: CandidateResponse,
    result: Option<FileResult>,
    range: Seq<char>,
    total: Seq<char>,
    n: nat,
)
    requires
        call_ensures(
            check_candidate,
            (&url, &extensions, &profile, everything, &response),
            result,
        ),
        result is Some,
        response.content_range is Some,
        response.content_range->0@ == range.push('/') + total,
        !total.contains('/'),
        number::unsigned_value(total) == Some(n),
        n <= u64::MAX,
    ensures
        result->0.size == Some(n as u64),
{
    name_laws::law_range_total(range, total);
    assert(result.deep_view()->0 == result->0@);
}

/// Whether an answer names the total of its content range: behind the last slash, as
/// a number of 64 bits.
pub open spec fn names_total(response: CandidateResponse) -> bool {
    response.content_range is Some && exists|range: Seq<char>, total: Seq<char>|
        response.content_range->0@ == #[trigger] (range.push('/') + total) && !total.contains('/')
            && number::unsigned_value(total) is Some && number::unsigned_value(total)->0
            <= u64::MAX
}

/// Where a candidate is reported whose answer names no total, its size is its content
/// length; where there is none either, it is the number of bytes that came.
pub proof fn law_size_without_total(
    url: PageUrl,
    extensions: Vec<String>,
    profile: Soft404Profile,
    everything: bool,
    response: CandidateResponse,
    result: Option<FileResult>,
)
    requires
        call_ensures(
            check_candidate,
            (&url, &extensions, &profile, everything, &response),
            result,
        ),
        result is Some,
        !names_total(response),
    ensures
        response.content_length is Some ==> result->0.size == response.content_length,
        response.content_length is None ==> result->0.size == Some(response.body@.len() as u64),
{
    assert(result.deep_view()->0 == result->0@);
    if response.content_range is Some {
        let value = response.content_range->0@;
        if content::range_total(value) is Some {
            value.index_of_last_ensures('/');
            let i = value.index_of_last('/')->0;
            let range = value.take(i);
            let total = value.skip(i + 1);
            assert(range.push('/') + total =~= value);
            assert(!total.contains('/')) by {
                if total.contains('/') {
                    let j = choose|j: int| 0 <= j < total.len() && total[j] == '/';
                    assert(value[i + 1 + j] == '/');
                }
            }
            assert(names_total(response));
        }
    }
}

/// The content type that an answer names; empty where it names none.
pub open spec fn named_type(response: CandidateResponse) -> Seq<char> {
    if response.content_type is Some {
        response.content_type->0@
    } else {
        Seq::empty()
    }
}

/// A candidate is not reported where its status says that there is no file, where its
/// answer looks like one to a missing file, where it is not looked for, or where its
/// content type does not fit its name. In each other case it is.
pub proof fn law_candidate_is_reported(
    url: PageUrl,
    extensions: Vec<String>,
    profile: Soft404Profile,
    everything: bool,
    response: CandidateResponse,
    result: Option<FileResult>,
)
    requires
        call_ensures(
            check_candidate,
            (&url, &extensions, &profile, everything, &response),
            result,
        ),
    ensures
        response.status == 404 || response.status == 416 || response.status / 100 == 5
            ==> result is None,
        soft404::is_soft_404(
            profile@,
            response.status,
            named_type(response),
            response.body@.len() as usize,
            soft404::signature_of(response.body@),
        ) ==> result is None,
        !content::worth_reporting(
            url@.path,
            extensions.deep_view(),
            everything,
            named_type(response),
        ) ==> result is None,
        !content::content_fits(url@.path, named_type(response), everything) ==> result is None,
        response.status != 404 && response.status != 416 && response.status / 100 != 5
            && !soft404::is_soft_404(
            profile@,
            response.status,
            named_type(response),
            response.body@.len() as usize,
            soft404::signature_of(response.body@),
        ) && content::worth_reporting(
            url@.path,
            extensions.deep_view(),
            everything,
            named_type(response),
        ) && content::content_fits(url@.path, named_type(response), everything) ==> result is Some,
{
}

/// What is reported of a candidate: its own URL, its status, but 200 where a part of
/// it came, its content type and its extension, each of the two unknown where it is
/// missing.
pub proof fn law_report_of_a_candidate(
    url: PageUrl,
    extensions: Vec<String>,
    profile: Soft404Profile,
    everything: bool,
    response: CandidateResponse,
    result: Option<FileResult>,
)
    requires
        call_ensures(
            check_candidate,
            (&url, &extensions, &profile, everything, &response),
            result,
        ),
        result is Some,
    ensures
        result->0.url@ == url@.text,
        response.status == 206 ==> result->0.status == 200,
        response.status != 206 ==> result->0.status == response.status,
        named_type(response).len() == 0 ==> result->0.content_type@ == "unknown"@,
        named_type(response).len() > 0 ==> result->0.content_type@ == named_type(response),
        extension::path_extension(url@.path) is Some ==> result->0.extension@
            == extension::path_extension(url@.path)->0,
        extension::path_extension(url@.path) is None ==> result->0.extension@ == "unknown"@,
{
    assert(result.deep_view()->0 == result->0@);
}

/// What is reported of a page that was fetched: its URL, status and size as they
/// stand, and its content type and extension, unknown where they are missing.
pub proof fn law_file_result(
    url: PageUrl,
    status: u16,
    content_type: &str,
    size: Option<u64>,
    result: FileResult,
)
    requires
        call_ensures(file_result, (&url, status, content_type, size), result),
    ensures
        result.url@ == url@.text,
        result.status == status,
        result.size == size,
        content_type@.len() == 0 ==> result.content_type@ == "unknown"@,
        content_type@.len() > 0 ==> result.content_type@ == content_type@,
        extension::path_extension(url@.path) is Some ==> result.extension@
            == extension::path_extension(url@.path)->0,
        extension::path_extension(url@.path) is None ==> result.extension@ == "unknown"@,
        result@ == results::reported_file(url@, status, content_type@, size),
{
}

/// What is reported of a directory and of an endpoint that no request was made for.
pub proof fn law_inferred_results(url: PageUrl, directory: FileResult, endpoint: FileResult)
    requires
        call_ensures(inferred_directory_result, (&url,), directory),
        call_ensures(inferred_api_result, (&url,), endpoint),
    ensures
        directory.url@ == url@.text && directory.status == 0 && directory.size is None,
        directory.content_type@ == "inferred directory"@ && directory.extension@ == "dir"@,
        directory@ == results::inferred_directory(url@),
        endpoint.url@ == url@.text && endpoint.status == 0 && endpoint.size is None,
        endpoint.content_type@ == "discovered API endpoint"@ && endpoint.extension@ == "api"@,
        endpoint@ == results::inferred_api(url@),
{
}

/// The messages say what failed, and then why.
pub proof fn law_messages(page: &str, detail: &str, made: String, failed: String, fetched: String)
    requires
        call_ensures(client_error_message, (detail,), made),
        call_ensures(worker_error_message, (detail,), failed),
        call_ensures(fetch_error_message, (page, detail), fetched),
    ensures
        made@ == "Failed to create HTTP client: "@ + detail@,
        failed@ == "Worker failed: "@ + detail@,
        fetched@ == "Failed to fetch "@ + page@ + ": "@ + detail@,
        fetched@ == results::fetch_error(page@, detail@),
{
}

/// Counters begin at zero. A candidate that was checked adds one to the first of them,
/// one that was also found one to both, up to the largest number of their type, after
/// which they begin again.
pub proof fn law_counters(counters: ScanCounters, fresh: ScanCounters)
    requires
        call_ensures(ScanCounters::new, (), fresh),
    ensures
        fresh.checked == 0 && fresh.found == 0,
        fresh == ScanCounters::zero(),
        counters.with_outcome(false).found == counters.found,
        counters.with_outcome(true).checked == counters.with_outcome(false).checked,
        counters.checked < usize::MAX ==> counters.with_outcome(false).checked == counters.checked
            + 1,
        counters.checked == usize::MAX ==> counters.with_outcome(false).checked == 0,
        counters.found < usize::MAX ==> counters.with_outcome(true).found == counters.found + 1,
        counters.found == usize::MAX ==> counters.with_outcome(true).found == 0,
        counters.with_checked() == counters.with_outcome(false),
        counters.with_found().checked == counters.checked,
        counters.with_found().found == counters.with_outcome(true).found,
{
}

/// Counting does to the counters what was said, and nothing else.
pub proof fn law_counting(
    checked: &mut ScanCounters,
    hit: &mut ScanCounters,
    both: &mut ScanCounters,
    found: bool,
)
    requires
        call_ensures(ScanCounters::count_checked, (checked,), ()),
        call_ensures(ScanCounters::count_found, (hit,), ()),
        call_ensures(ScanCounters::count_outcome, (both, found), ()),
    ensures
        *final(checked) == old(checked).with_outcome(false),
        final(hit).checked == old(hit).checked,
        final(hit).found == old(hit).with_outcome(true).found,
        *final(both) == old(both).with_outcome(found),
{
}

/// Progress tells the counters and the time as they stand, and a total that is what
/// was expected, or what was checked where that is more.
pub proof fn law_progress(
    counters: ScanCounters,
    total_hint: usize,
    elapsed_ms: u128,
    told: FileProgress,
)
    requires
        call_ensures(progress, (counters, total_hint, elapsed_ms), told),
    ensures
        told.checked == counters.checked,
        told.found == counters.found,
        told.elapsed_ms == elapsed_ms,
        counters.checked <= total_hint ==> told.total == total_hint,
        counters.checked > total_hint ==> told.total == counters.checked,
        told == results::progress_of(counters, total_hint, elapsed_ms),
{
}

/// The last report tells the counters and the time as they stand.
pub proof fn law_finished(counters: ScanCounters, elapsed_ms: u128, update: FileScanUpdate)
    requires
        call_ensures(finished, (counters, elapsed_ms), update),
    ensures
        update.deep_view() == (FileUpdateView::Finished {
            checked: counters.checked,
            found: counters.found,
            elapsed_ms,
        }),
{
}

/// How a worker ended.
pub proof fn law_endings(result: FileResult, detail: String)
    ensures
        WorkerOutcome::Found(result).kind() is Found,
        WorkerOutcome::Nothing.kind() is Nothing,
        WorkerOutcome::Failed(detail).kind() is Failed,
{
}

/// The end of a worker brings what it found or why it failed, if anything, and then
/// the progress.
pub proof fn law_worker_reports(
    outcome: WorkerOutcome,
    counters: ScanCounters,
    total_hint: usize,
    elapsed_ms: u128,
    updates: Vec<FileScanUpdate>,
)
    requires
        call_ensures(worker_updates, (outcome, counters, total_hint, elapsed_ms), updates),
    ensures
        updates@.len() == if outcome is Nothing {
            1int
        } else {
            2int
        },
        updates.deep_view().last() == (FileUpdateView::Progress {
            progress: results::progress_of(counters, total_hint, elapsed_ms),
        }),
        outcome is Found ==> updates.deep_view()[0] == (FileUpdateView::Result {
            result: outcome->Found_0@,
        }),
        outcome is Failed ==> updates.deep_view()[0] == (FileUpdateView::Error {
            message: "Worker failed: "@ + outcome->Failed_0@,
        }),
        updates.deep_view() == results::worker_reports(outcome, counters, total_hint, elapsed_ms),
{
    assert(updates.deep_view().len() == updates@.len());
}

/// A copy of a result is the same in each field.
pub proof fn law_result_copy(result: FileResult, copy: FileResult)
    requires
        call_ensures(FileResult::clone, (&result,), copy),
    ensures
        copy.url@ == result.url@ && copy.status == result.status && copy.size == result.size,
        copy.content_type@ == result.content_type@ && copy.extension@ == result.extension@,
{
    assert(copy@ == result@);
}

} // verus!
