//! What the rules of the scan for subdomains mean: domains, hosts, probes and the
//! reports of them.
use vstd::prelude::*;

use crate::options::SubdomainScanOptions;
use crate::results::ScanCounters;
use crate::subdomain;
use crate::subdomain::{
    check_host, finished, host_result, host_updates, normalize_domain, plan_hosts, probe_http,
    progress, subdomain_hosts, HostAction, HostOutcome, ProbeAction, ScanProgress, SubdomainResult,
    SubdomainScan, SubdomainScanUpdate, SubdomainScanView, SubdomainUpdateView,
};
use crate::text;
use crate::text::CharClass;
use crate::text_laws;
use crate::workers::{Ending, Workers, WorkersView};

verus! {

/// Results read as their fields stand.
pub proof fn law_result_view(result: SubdomainResult)
    ensures
        result@.subdomain == result.subdomain@,
        result@.ip == result.ip@,
        result@.status == result.status,
        result@.response_time_ms == result.response_time_ms,
        result.deep_view() == result@,
{
}

/// Reports read as their fields stand.
pub proof fn law_subdomain_report_views(
    total: usize,
    result: SubdomainResult,
    progress: ScanProgress,
    checked: usize,
    found: usize,
    elapsed_ms: u128,
    message: String,
)
    ensures
        (SubdomainScanUpdate::Started { total }).deep_view() == (SubdomainUpdateView::Started {
            total,
        }),
        (SubdomainScanUpdate::Result { result }).deep_view() == (SubdomainUpdateView::Result {
            result: result@,
        }),
        (SubdomainScanUpdate::Progress { progress }).deep_view() == (
        SubdomainUpdateView::Progress { progress }),
        (SubdomainScanUpdate::Finished { checked, found, elapsed_ms }).deep_view() == (
        SubdomainUpdateView::Finished { checked, found, elapsed_ms }),
        (SubdomainScanUpdate::Error { message }).deep_view() == (SubdomainUpdateView::Error {
            message: message@,
        }),
{
}

/// A text some number of times in a row.
pub open spec fn repeated(part: Seq<char>, times: nat) -> Seq<char>
    decreases times,
{
    if times == 0 {
        Seq::empty()
    } else {
        part + repeated(part, (times - 1) as nat)
    }
}

proof fn lemma_repeated_removed(part: Seq<char>, times: nat, rest: Seq<char>)
    requires
        part.len() > 0,
        !part.is_prefix_of(rest),
    ensures
        text::prefixes_removed(repeated(part, times) + rest, part) == rest,
    decreases times,
{
    if times == 0 {
        assert(repeated(part, times) + rest =~= rest);
        text_laws::law_prefixes(part, rest);
    } else {
        let fewer = repeated(part, (times - 1) as nat);
        assert(repeated(part, times) + rest =~= part + (fewer + rest));
        text_laws::law_prefixes(part, fewer + rest);
        lemma_repeated_removed(part, (times - 1) as nat, rest);
    }
}

/// A domain is what is left, in lower case, without white space round it, schemes
/// before it, however many, those of plain HTTP first, and slashes behind it.
pub proof fn law_domain(
    given: &str,
    domain: String,
    lead: Seq<char>,
    plain: nat,
    secure: nat,
    core: Seq<char>,
    slashes: Seq<char>,
    tail: Seq<char>,
)
    requires
        call_ensures(normalize_domain, (given,), domain),
        given@ == lead + (repeated("http://"@, plain) + (repeated("https://"@, secure) + (core
            + slashes))) + tail,
        text_laws::all_in(lead, CharClass::WhiteSpace),
        text_laws::all_in(tail, CharClass::WhiteSpace),
        text_laws::all_in(slashes, CharClass::Only('/')),
        text_laws::bare_ends(
            repeated("http://"@, plain) + (repeated("https://"@, secure) + (core + slashes)),
            CharClass::WhiteSpace,
        ),
        core.len() > 0 ==> core.last() != '/',
        secure == 0 ==> !"http://"@.is_prefix_of(core + slashes),
        !"https://"@.is_prefix_of(core + slashes),
    ensures
        domain@ == text::lowercased(core),
{
    reveal_strlit("http://");
    reveal_strlit("https://");
    let ended = core + slashes;
    let inner = repeated("https://"@, secure) + ended;
    let whole = repeated("http://"@, plain) + inner;
    text_laws::law_trim(lead, whole, tail, CharClass::WhiteSpace);
    assert(!"http://"@.is_prefix_of(inner)) by {
        if secure == 0 {
            assert(inner =~= ended);
        } else if "http://"@.is_prefix_of(inner) {
            assert(inner =~= "https://"@ + (repeated("https://"@, (secure - 1) as nat) + ended));
            assert(inner[4] == "https://"@[4]);
            assert(inner.subrange(0, 7)[4] == inner[4]);
            assert("http://"@[4] == ':' && "https://"@[4] == 's');
        }
    }
    lemma_repeated_removed("http://"@, plain, inner);
    lemma_repeated_removed("https://"@, secure, ended);
    text_laws::law_right_trim(core, slashes, CharClass::Only('/'));
}

/// There is a host for each label, in order: the label, a dot and the domain.
pub proof fn law_hosts(labels: Vec<String>, domain: &str, hosts: Vec<String>, i: int)
    requires
        call_ensures(subdomain_hosts, (&labels, domain), hosts),
    ensures
        hosts@.len() == labels@.len(),
        0 <= i < labels@.len() ==> hosts@[i]@ == labels@[i]@.push('.') + domain@,
{
    reveal_strlit(".");
    assert(hosts.deep_view().len() == hosts@.len());
    if 0 <= i < labels@.len() {
        assert(hosts.deep_view()[i] == hosts@[i]@);
        assert(labels.deep_view()[i] == labels@[i]@);
        assert(labels@[i]@ + "."@ =~= labels@[i]@.push('.'));
    }
}

/// A scan is planned just where the domain has a dot, with a host for each label;
/// else there is a message.
pub proof fn law_plan(
    options: SubdomainScanOptions,
    labels: Vec<String>,
    hosts: Result<Vec<String>, String>,
    given: &str,
    domain: String,
    i: int,
)
    requires
        given@ == options.domain@,
        call_ensures(normalize_domain, (given,), domain),
        call_ensures(plan_hosts, (&options, &labels), hosts),
    ensures
        hosts is Ok <==> exists|k: int| 0 <= k < domain@.len() && #[trigger] domain@[k] == '.',
        hosts is Ok ==> hosts->Ok_0@.len() == labels@.len(),
        hosts is Ok && 0 <= i < labels@.len() ==> hosts->Ok_0@[i]@ == labels@[i]@.push('.')
            + domain@,
        hosts is Err ==> hosts->Err_0@ == "Enter a valid root domain, for example example.com."@,
{
    reveal_strlit(".");
    if let Ok(planned) = hosts {
        assert(planned.deep_view().len() == planned@.len());
        if 0 <= i < labels@.len() {
            assert(planned.deep_view()[i] == planned@[i]@);
            assert(labels.deep_view()[i] == labels@[i]@);
            assert(labels@[i]@ + "."@ =~= labels@[i]@.push('.'));
        }
    }
}

/// Any answer ends a probe, whatever its status, with that status and that time.
/// Without one the host is asked over HTTPS first, then over plain HTTP, and then no
/// more.
pub proof fn law_probe(
    host: &str,
    failures: usize,
    status: u16,
    elapsed_ms: u128,
    answered: ProbeAction,
    unanswered: ProbeAction,
)
    requires
        call_ensures(probe_http, (host, failures, Some((status, elapsed_ms))), answered),
        call_ensures(probe_http, (host, failures, None), unanswered),
    ensures
        answered == (ProbeAction::Done { probe: Some((status, elapsed_ms)) }),
        failures == 0 ==> unanswered is Get && unanswered->url@ == "https://"@ + host@ + "/"@,
        failures == 1 ==> unanswered is Get && unanswered->url@ == "http://"@ + host@ + "/"@,
        failures >= 2 ==> unanswered == (ProbeAction::Done { probe: None }),
{
}

/// A host without an address is not found and not asked. Any answer of another,
/// whatever its status, ends the work on it, with its first address, that status and
/// that time.
pub proof fn law_host_answer(
    host: &str,
    addresses: Vec<String>,
    failures: usize,
    status: u16,
    elapsed_ms: u128,
    action: HostAction,
)
    requires
        call_ensures(
            check_host,
            (host, &addresses, failures, Some((status, elapsed_ms))),
            action,
        ),
    ensures
        action is Done,
        addresses@.len() == 0 ==> action->result is None,
        addresses@.len() > 0 ==> action->result is Some && action->result->0.subdomain@ == host@
            && action->result->0.ip@ == addresses@[0]@ && action->result->0.status == Some(status)
            && action->result->0.response_time_ms == Some(elapsed_ms),
{
    lemma_host_action(host, addresses, failures, Some((status, elapsed_ms)), action);
}

/// A host with an address that does not answer is asked over HTTPS, then over plain
/// HTTP, and is then reported with its first address and without a status or a time.
pub proof fn law_host_without_answer(
    host: &str,
    addresses: Vec<String>,
    failures: usize,
    action: HostAction,
)
    requires
        call_ensures(check_host, (host, &addresses, failures, None), action),
    ensures
        addresses@.len() == 0 ==> action is Done && action->result is None,
        addresses@.len() > 0 && failures == 0 ==> action is Get && action->url@ == "https://"@
            + host@ + "/"@,
        addresses@.len() > 0 && failures == 1 ==> action is Get && action->url@ == "http://"@
            + host@ + "/"@,
        addresses@.len() > 0 && failures >= 2 ==> action is Done && action->result is Some
            && action->result->0.subdomain@ == host@ && action->result->0.ip@ == addresses@[0]@
            && action->result->0.status is None && action->result->0.response_time_ms is None,
{
    lemma_host_action(host, addresses, failures, None, action);
}

proof fn lemma_host_action(
    host: &str,
    addresses: Vec<String>,
    failures: usize,
    answer: Option<(u16, u128)>,
    action: HostAction,
)
    requires
        call_ensures(check_host, (host, &addresses, failures, answer), action),
    ensures
        addresses.deep_view().len() == addresses@.len(),
        addresses@.len() > 0 ==> addresses.deep_view().first() == addresses@[0]@,
        action is Done && action->result is Some ==> action@->result == Some(action->result->0@),
        action is Done && action->result is None ==> action@->result is None,
{
}

/// What is reported of a host is its name, its first address, and the status and the
/// time of its answer, if any; nothing where it has no address.
pub proof fn law_host_result(
    host: &str,
    addresses: Vec<String>,
    probe: Option<(u16, u128)>,
    result: Option<SubdomainResult>,
)
    requires
        call_ensures(host_result, (host, &addresses, probe), result),
    ensures
        result is Some <==> addresses@.len() > 0,
        result is Some ==> result->0.subdomain@ == host@ && result->0.ip@ == addresses@[0]@,
        result is Some && probe is None ==> result->0.status is None
            && result->0.response_time_ms is None,
        result is Some && probe is Some ==> ({
            let (status, elapsed_ms) = probe->0;
            result->0.status == Some(status) && result->0.response_time_ms == Some(elapsed_ms)
        }),
{
    assert(addresses.deep_view().len() == addresses@.len());
    if result is Some {
        assert(result.deep_view()->0 == result->0@);
    }
}

/// Progress and the last report tell the counters, the total and the time as they
/// stand.
pub proof fn law_host_progress(
    counters: ScanCounters,
    total: usize,
    elapsed_ms: u128,
    told: ScanProgress,
    last: SubdomainScanUpdate,
)
    requires
        call_ensures(progress, (counters, total, elapsed_ms), told),
        call_ensures(finished, (counters, elapsed_ms), last),
    ensures
        told.checked == counters.checked,
        told.found == counters.found,
        told.total == total,
        told.elapsed_ms == elapsed_ms,
        told == subdomain::progress_of(counters, total, elapsed_ms),
        last.deep_view() == (SubdomainUpdateView::Finished {
            checked: counters.checked,
            found: counters.found,
            elapsed_ms,
        }),
{
}

/// How a worker ended.
pub proof fn law_host_endings(result: SubdomainResult, detail: String)
    ensures
        HostOutcome::Found(result).kind() is Found,
        HostOutcome::Nothing.kind() is Nothing,
        HostOutcome::Failed(detail).kind() is Failed,
{
}

/// The end of a worker brings what it found or why it failed, if anything, and then
/// the progress.
pub proof fn law_host_reports(
    outcome: HostOutcome,
    counters: ScanCounters,
    total: usize,
    elapsed_ms: u128,
    updates: Vec<SubdomainScanUpdate>,
)
    requires
        call_ensures(host_updates, (outcome, counters, total, elapsed_ms), updates),
    ensures
        updates@.len() == if outcome is Nothing {
            1int
        } else {
            2int
        },
        updates.deep_view().last() == (SubdomainUpdateView::Progress {
            progress: subdomain::progress_of(counters, total, elapsed_ms),
        }),
        outcome is Found ==> updates.deep_view()[0] == (SubdomainUpdateView::Result {
            result: outcome->Found_0@,
        }),
        outcome is Failed ==> updates.deep_view()[0] == (SubdomainUpdateView::Error {
            message: "Worker failed: "@ + outcome->Failed_0@,
        }),
        updates.deep_view() == subdomain::host_reports(outcome, counters, total, elapsed_ms),
{
    assert(updates.deep_view().len() == updates@.len());
}

/// Workers that have just begun have all still to count. One that counts moves to those
/// that have counted what it did; one that ends leaves those that ended in its way. The
/// number that is awaited falls by one with each end, and with nothing else.
pub proof fn law_workers(workers: WorkersView, count: nat, found: bool, ending: Ending)
    ensures
        WorkersView::begun(count).at_work == count,
        WorkersView::begun(count).found == 0 && WorkersView::begun(count).nothing == 0,
        workers.left() == workers.at_work + workers.found + workers.nothing,
        workers.counted() == workers.found + workers.nothing,
        workers.at_work > 0 ==> workers.after_count(found).at_work == workers.at_work - 1
            && workers.after_count(true).found == workers.found + 1
            && workers.after_count(true).nothing == workers.nothing
            && workers.after_count(false).found == workers.found
            && workers.after_count(false).nothing == workers.nothing + 1
            && workers.after_count(found).left() == workers.left(),
        workers.can_end(Ending::Found) <==> workers.found > 0,
        workers.can_end(Ending::Nothing) <==> workers.nothing > 0,
        workers.can_end(Ending::Failed) <==> workers.at_work > 0,
        workers.can_end(ending) ==> workers.after_end(ending).left() == workers.left() - 1,
        workers.can_end(ending) && !(ending is Failed) ==> workers.after_end(ending).at_work
            == workers.at_work,
        workers.can_end(ending) && !(ending is Found) ==> workers.after_end(ending).found
            == workers.found,
        workers.can_end(ending) && !(ending is Nothing) ==> workers.after_end(ending).nothing
            == workers.nothing,
{
}

/// What the workers are asked about holds of their numbers.
pub proof fn law_workers_asked(
    workers: Workers,
    ending: Ending,
    counts: bool,
    ends: bool,
    over: bool,
    count: usize,
    fresh: Workers,
)
    requires
        call_ensures(Workers::awaits_count, (&workers,), counts),
        call_ensures(Workers::awaits_end, (&workers, ending), ends),
        call_ensures(Workers::all_ended, (&workers,), over),
        call_ensures(Workers::begin, (count,), fresh),
    ensures
        counts <==> workers@.at_work > 0,
        ends <==> workers@.can_end(ending),
        over <==> workers@.at_work == 0 && workers@.found == 0 && workers@.nothing == 0,
        fresh@ == WorkersView::begun(count as nat),
{
}

/// A scan begins with its total, nothing counted and a worker for each host. It tells
/// its total, and that it is over where there is no host.
pub proof fn law_subdomain_scan_begins(
    total: usize,
    scan: SubdomainScan,
    elapsed_ms: u128,
    updates: Vec<SubdomainScanUpdate>,
    over: bool,
)
    requires
        call_ensures(SubdomainScan::new, (total,), scan),
        call_ensures(SubdomainScan::begin, (&scan, elapsed_ms), updates),
        call_ensures(SubdomainScan::is_over, (&scan,), over),
    ensures
        scan@.total == total,
        scan@.counters.checked == 0 && scan@.counters.found == 0,
        scan@.workers == WorkersView::begun(total as nat),
        over <==> total == 0,
        updates@.len() == if total == 0 {
            2int
        } else {
            1int
        },
        updates.deep_view()[0] == (SubdomainUpdateView::Started { total }),
        total == 0 ==> updates.deep_view()[1] == (SubdomainUpdateView::Finished {
            checked: 0,
            found: 0,
            elapsed_ms,
        }),
{
    assert(updates.deep_view().len() == updates@.len());
}

/// A worker that counts changes the counters and nothing else. One that ends brings its
/// reports, and the last of them the end of the scan behind them.
pub proof fn law_subdomain_scan_goes_on(
    scan: SubdomainScanView,
    found: bool,
    outcome: HostOutcome,
    elapsed_ms: u128,
)
    ensures
        scan.counted(found).total == scan.total,
        scan.counted(found).workers == scan.workers.after_count(found),
        scan.counted(found).counters == scan.counters.with_outcome(found),
        scan.joined(outcome, elapsed_ms).0.total == scan.total,
        scan.joined(outcome, elapsed_ms).0.counters == scan.counters,
        scan.joined(outcome, elapsed_ms).0.workers == scan.workers.after_end(outcome.kind()),
        scan.workers.can_end(outcome.kind()) && scan.workers.left() > 1 ==> scan.joined(
            outcome,
            elapsed_ms,
        ).1 == subdomain::host_reports(outcome, scan.counters, scan.total, elapsed_ms),
        scan.workers.can_end(outcome.kind()) && scan.workers.left() == 1 ==> scan.joined(
            outcome,
            elapsed_ms,
        ).1 == subdomain::host_reports(outcome, scan.counters, scan.total, elapsed_ms).push(
            SubdomainUpdateView::Finished {
                checked: scan.counters.checked,
                found: scan.counters.found,
                elapsed_ms,
            },
        ),
{
}

/// What the workers of a scan do is taken note of as was said.
pub proof fn law_subdomain_scan_steps(
    counting: &mut SubdomainScan,
    found: bool,
    joining: &mut SubdomainScan,
    outcome: HostOutcome,
    elapsed_ms: u128,
    updates: Vec<SubdomainScanUpdate>,
)
    requires
        call_ensures(SubdomainScan::worker_counted, (counting, found), ()),
        call_ensures(SubdomainScan::worker_joined, (joining, outcome, elapsed_ms), updates),
    ensures
        final(counting)@ == old(counting)@.counted(found),
        final(joining)@ == old(joining)@.joined(outcome, elapsed_ms).0,
        updates.deep_view() == old(joining)@.joined(outcome, elapsed_ms).1,
{
}

/// A copy of a result is the same in each field.
pub proof fn law_subdomain_copy(result: SubdomainResult, copy: SubdomainResult)
    requires
        call_ensures(SubdomainResult::clone, (&result,), copy),
    ensures
        copy.subdomain@ == result.subdomain@ && copy.ip@ == result.ip@,
        copy.status == result.status && copy.response_time_ms == result.response_time_ms,
{
    assert(copy@ == result@);
}

} // verus!
