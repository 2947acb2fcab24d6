//! What holds of whole scans for subdomains.
use vstd::prelude::*;

use crate::results::ScanCounters;
use crate::subdomain;
use crate::subdomain::{HostOutcome, SubdomainScanView, SubdomainUpdateView};

verus! {

/// What a worker of a scan does.
pub enum HostEvent {
    /// It counts its host.
    Counted { found: bool },
    /// It ends, at some time.
    Joined { outcome: HostOutcome, elapsed_ms: u128 },
}

/// Whether there is a worker that can do this.
pub open spec fn awaits(scan: SubdomainScanView, event: HostEvent) -> bool {
    match event {
        HostEvent::Counted { .. } => scan.workers.at_work > 0,
        HostEvent::Joined { outcome, .. } => scan.workers.can_end(outcome.kind()),
    }
}

/// The state of a scan after what a worker does, and the reports of it.
pub open spec fn step(scan: SubdomainScanView, event: HostEvent) -> (
    SubdomainScanView,
    Seq<SubdomainUpdateView>,
) {
    match event {
        HostEvent::Counted { found } => (scan.counted(found), Seq::empty()),
        HostEvent::Joined { outcome, elapsed_ms } => scan.joined(outcome, elapsed_ms),
    }
}

/// The state of a scan after what its workers did.
pub open spec fn run(scan: SubdomainScanView, events: Seq<HostEvent>) -> SubdomainScanView
    decreases events.len(),
{
    if events.len() == 0 {
        scan
    } else {
        step(run(scan, events.drop_last()), events.last()).0
    }
}

/// Whether workers did what they can.
pub open spec fn all_awaited(scan: SubdomainScanView, events: Seq<HostEvent>) -> bool
    decreases events.len(),
{
    events.len() == 0 || (all_awaited(scan, events.drop_last()) && awaits(
        run(scan, events.drop_last()),
        events.last(),
    ))
}

/// The reports of a scan that begins at some time, up to what its workers did.
pub open spec fn reported(scan: SubdomainScanView, begin_ms: u128, events: Seq<HostEvent>) -> Seq<
    SubdomainUpdateView,
>
    decreases events.len(),
{
    if events.len() == 0 {
        scan.first_reports(begin_ms)
    } else {
        reported(scan, begin_ms, events.drop_last()) + step(
            run(scan, events.drop_last()),
            events.last(),
        ).1
    }
}

/// How many of some reports are results.
pub open spec fn result_count(reports: Seq<SubdomainUpdateView>) -> nat
    decreases reports.len(),
{
    if reports.len() == 0 {
        0
    } else {
        result_count(reports.drop_last()) + if reports.last() is Result {
            1nat
        } else {
            0nat
        }
    }
}

/// How many of some reports end a scan.
pub open spec fn finished_count(reports: Seq<SubdomainUpdateView>) -> nat
    decreases reports.len(),
{
    if reports.len() == 0 {
        0
    } else {
        finished_count(reports.drop_last()) + if reports.last() is Finished {
            1nat
        } else {
            0nat
        }
    }
}

/// How many of some reports show progress.
pub open spec fn progress_count(reports: Seq<SubdomainUpdateView>) -> nat
    decreases reports.len(),
{
    if reports.len() == 0 {
        0
    } else {
        progress_count(reports.drop_last()) + if reports.last() is Progress {
            1nat
        } else {
            0nat
        }
    }
}

/// Whether all progress among some reports is out of a total and not beyond it,
/// and never falls.
pub open spec fn in_order(reports: Seq<SubdomainUpdateView>, total: usize) -> bool {
    &&& forall|i: int|
        0 <= i < reports.len() ==> match #[trigger] reports[i] {
            SubdomainUpdateView::Progress { progress } => progress.total == total
                && progress.checked <= total,
            _ => true,
        }
    &&& forall|i: int, j: int|
        0 <= i < j < reports.len() ==> match (#[trigger] reports[i], #[trigger] reports[j]) {
            (
                SubdomainUpdateView::Progress { progress: earlier },
                SubdomainUpdateView::Progress { progress: later },
            ) => earlier.checked <= later.checked && earlier.found <= later.found,
            (_, _) => true,
        }
}

/// Whether no progress among some reports is beyond these counters.
spec fn up_to(reports: Seq<SubdomainUpdateView>, counters: ScanCounters) -> bool {
    forall|i: int|
        0 <= i < reports.len() ==> match #[trigger] reports[i] {
            SubdomainUpdateView::Progress { progress } => progress.checked <= counters.checked
                && progress.found <= counters.found,
            _ => true,
        }
}

/// How many workers failed.
pub open spec fn failed(events: Seq<HostEvent>) -> nat
    decreases events.len(),
{
    if events.len() == 0 {
        0
    } else {
        failed(events.drop_last()) + match events.last() {
            HostEvent::Joined { outcome, .. } => if outcome is Failed {
                1nat
            } else {
                0nat
            },
            _ => 0nat,
        }
    }
}

proof fn lemma_counts_add(a: Seq<SubdomainUpdateView>, b: Seq<SubdomainUpdateView>)
    ensures
        result_count(a + b) == result_count(a) + result_count(b),
        finished_count(a + b) == finished_count(a) + finished_count(b),
        progress_count(a + b) == progress_count(a) + progress_count(b),
    decreases b.len(),
{
    if b.len() == 0 {
        assert(a + b =~= a);
    } else {
        lemma_counts_add(a, b.drop_last());
        assert((a + b).drop_last() =~= a + b.drop_last());
        assert((a + b).last() == b.last());
    }
}

proof fn lemma_joined(scan: SubdomainScanView, outcome: HostOutcome, elapsed_ms: u128)
    ensures
        ({
            let (after, reports) = scan.joined(outcome, elapsed_ms);
            &&& reports.len() > 0
            &&& result_count(reports) == if outcome is Found {
                1nat
            } else {
                0nat
            }
            &&& finished_count(reports) == if after.is_over() {
                1nat
            } else {
                0nat
            }
            &&& progress_count(reports) == 1
            &&& after.is_over() ==> reports.last() == after.last_report(elapsed_ms)
            &&& forall|i: int|
                0 <= i < reports.len() ==> match #[trigger] reports[i] {
                    SubdomainUpdateView::Progress { progress } => progress.checked
                        == scan.counters.checked && progress.found == scan.counters.found
                        && progress.total == scan.total,
                    _ => true,
                }
        }),
{
    reveal_with_fuel(result_count, 4);
    reveal_with_fuel(finished_count, 4);
    reveal_with_fuel(progress_count, 4);
    let first = subdomain::host_reports(outcome, scan.counters, scan.total, elapsed_ms);
    assert(first.push(scan.last_report(elapsed_ms)).drop_last() =~= first);
    let none: Seq<SubdomainUpdateView> = Seq::empty();
    if outcome is Nothing {
        assert(first.drop_last() =~= none);
    } else {
        assert(first.drop_last().drop_last() =~= none);
    }
}

/// A scan for subdomains begins with its total. At every time it has reported its
/// progress once for each worker that ended, always out of all hosts, with counts
/// that never fall; what it has found is the number of results that it has
/// reported and of those that its workers are about to hand over; and all workers
/// but those at work and those that failed are checked. When all its workers have
/// ended, and not before, it is over and has said so once, in its last report, with
/// what is counted.
pub proof fn law_subdomain_scan(total: usize, begin_ms: u128, events: Seq<HostEvent>)
    requires
        all_awaited(SubdomainScanView::fresh(total), events),
    ensures
        ({
            let scan = SubdomainScanView::fresh(total);
            let after = run(scan, events);
            let reports = reported(scan, begin_ms, events);
            &&& reports.len() > 0
            &&& reports.first() == (SubdomainUpdateView::Started { total })
            &&& after.total == total
            &&& progress_count(reports) + after.workers.left() == total
            &&& in_order(reports, total)
            &&& after.counters.found == result_count(reports) + after.workers.found
            &&& after.counters.checked + failed(events) + after.workers.at_work == total
            &&& finished_count(reports) == if after.is_over() {
                1nat
            } else {
                0nat
            }
            &&& after.is_over() ==> exists|elapsed_ms: u128|
                reports.last() == #[trigger] after.last_report(elapsed_ms)
        }),
{
    lemma_run(total, begin_ms, events);
}

proof fn lemma_run(total: usize, begin_ms: u128, events: Seq<HostEvent>)
    requires
        all_awaited(SubdomainScanView::fresh(total), events),
    ensures
        ({
            let scan = SubdomainScanView::fresh(total);
            let after = run(scan, events);
            let reports = reported(scan, begin_ms, events);
            &&& reports.len() > 0
            &&& reports.first() == (SubdomainUpdateView::Started { total })
            &&& after.total == total
            &&& progress_count(reports) + after.workers.left() == total
            &&& in_order(reports, total)
            &&& up_to(reports, after.counters)
            &&& after.counters.found == result_count(reports) + after.workers.found
            &&& after.counters.found <= after.counters.checked
            &&& after.counters.checked + failed(events) + after.workers.at_work == total
            &&& finished_count(reports) == if after.is_over() {
                1nat
            } else {
                0nat
            }
            &&& after.is_over() ==> exists|elapsed_ms: u128|
                reports.last() == #[trigger] after.last_report(elapsed_ms)
        }),
    decreases events.len(),
{
    let scan = SubdomainScanView::fresh(total);
    if events.len() == 0 {
        reveal_with_fuel(result_count, 3);
        reveal_with_fuel(finished_count, 3);
        reveal_with_fuel(progress_count, 3);
        let none: Seq<SubdomainUpdateView> = Seq::empty();
        let started = seq![SubdomainUpdateView::Started { total }];
        assert(started.drop_last() =~= none);
        assert(seq![
            SubdomainUpdateView::Started { total },
            scan.last_report(begin_ms),
        ].drop_last() =~= started);
        if scan.is_over() {
            assert(reported(scan, begin_ms, events).last() == scan.last_report(begin_ms));
        }
    } else {
        let earlier = events.drop_last();
        lemma_run(total, begin_ms, earlier);
        let middle = run(scan, earlier);
        let before = reported(scan, begin_ms, earlier);
        let (after, more) = step(middle, events.last());
        lemma_counts_add(before, more);
        let all = reported(scan, begin_ms, events);
        assert(all.first() == before.first());
        match events.last() {
            HostEvent::Counted { found } => {
                assert(all =~= before);
            },
            HostEvent::Joined { outcome, elapsed_ms } => {
                lemma_joined(middle, outcome, elapsed_ms);
                assert(all.last() == more.last());
                assert forall|i: int| 0 <= i < all.len() implies match #[trigger] all[i] {
                    SubdomainUpdateView::Progress { progress } => progress.total == total
                        && progress.checked <= after.counters.checked && progress.found
                        <= after.counters.found,
                    _ => true,
                } by {
                    if i < before.len() {
                        assert(all[i] == before[i]);
                    } else {
                        assert(all[i] == more[i - before.len()]);
                    }
                }
                assert forall|i: int, j: int| 0 <= i < j < all.len() implies match (
                    #[trigger] all[i],
                    #[trigger] all[j],
                ) {
                    (
                        SubdomainUpdateView::Progress { progress: first },
                        SubdomainUpdateView::Progress { progress: later },
                    ) => first.checked <= later.checked && first.found <= later.found,
                    (_, _) => true,
                } by {
                    if j < before.len() {
                        assert(all[i] == before[i] && all[j] == before[j]);
                    } else {
                        assert(all[j] == more[j - before.len()]);
                        if i < before.len() {
                            assert(all[i] == before[i]);
                        } else {
                            assert(all[i] == more[i - before.len()]);
                        }
                    }
                }
            },
        }
    }
}

/// A scan for subdomains that is over ends with the number of results that it has
/// reported, and with as many hosts checked as it has reported progress, which is
/// once for each host, but for workers that failed.
pub proof fn law_subdomain_end_sums_up(total: usize, begin_ms: u128, events: Seq<HostEvent>)
    requires
        all_awaited(SubdomainScanView::fresh(total), events),
        run(SubdomainScanView::fresh(total), events).is_over(),
    ensures
        ({
            let reports = reported(SubdomainScanView::fresh(total), begin_ms, events);
            &&& progress_count(reports) == total
            &&& reports.last() matches SubdomainUpdateView::Finished { checked, found, .. }
            &&& found == result_count(reports)
            &&& checked + failed(events) == progress_count(reports)
        }),
{
    law_subdomain_scan(total, begin_ms, events);
}

} // verus!
