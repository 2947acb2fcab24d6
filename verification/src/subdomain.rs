//! The scan for subdomains: which hosts are looked up, how they are probed,
//! and what is reported of them.
use vstd::prelude::*;

use crate::options::SubdomainScanOptions;
use crate::results::{worker_error_message, ScanCounters};
use crate::text;
use crate::text::{
    concat3, contains_char, to_ascii_lowercase, trim, trim_end_class, trim_start_text, CharClass,
};
use crate::workers::{Ending, Workers, WorkersView};

verus! {

/// A subdomain that a scan has found.
#[derive(Debug)]
pub struct SubdomainResult {
    pub subdomain: String,
    pub ip: String,
    pub status: Option<u16>,
    pub response_time_ms: Option<u128>,
}

/// What a [`SubdomainResult`] stands for.
pub struct SubdomainResultView {
    pub subdomain: Seq<char>,
    pub ip: Seq<char>,
    pub status: Option<u16>,
    pub response_time_ms: Option<u128>,
}

impl View for SubdomainResult {
    type V = SubdomainResultView;

    open spec fn view(&self) -> SubdomainResultView {
        SubdomainResultView {
            subdomain: self.subdomain@,
            ip: self.ip@,
            status: self.status,
            response_time_ms: self.response_time_ms,
        }
    }
}

impl DeepView for SubdomainResult {
    type V = SubdomainResultView;

    open spec fn deep_view(&self) -> SubdomainResultView {
        self@
    }
}

impl Clone for SubdomainResult {
    fn clone(&self) -> (copy: SubdomainResult)
        ensures
            copy@ == self@,
    {
        SubdomainResult {
            subdomain: self.subdomain.clone(),
            ip: self.ip.clone(),
            status: self.status,
            response_time_ms: self.response_time_ms,
        }
    }
}

/// How far a subdomain scan has come.
#[derive(Clone, Copy, Debug, PartialEq, Eq, Structural)]
pub struct ScanProgress {
    pub checked: usize,
    pub found: usize,
    pub total: usize,
    pub elapsed_ms: u128,
}

/// A report of a subdomain scan.
#[derive(Debug)]
pub enum SubdomainScanUpdate {
    Started { total: usize },
    Result { result: SubdomainResult },
    Progress { progress: ScanProgress },
    Finished { checked: usize, found: usize, elapsed_ms: u128 },
    Error { message: String },
}

/// What a [`SubdomainScanUpdate`] stands for.
pub enum SubdomainUpdateView {
    Started { total: usize },
    Result { result: SubdomainResultView },
    Progress { progress: ScanProgress },
    Finished { checked: usize, found: usize, elapsed_ms: u128 },
    Error { message: Seq<char> },
}

impl View for SubdomainScanUpdate {
    type V = SubdomainUpdateView;

    open spec fn view(&self) -> SubdomainUpdateView {
        match *self {
            SubdomainScanUpdate::Started { total } => SubdomainUpdateView::Started { total },
            SubdomainScanUpdate::Result { result } => SubdomainUpdateView::Result {
                result: result@,
            },
            SubdomainScanUpdate::Progress { progress } => SubdomainUpdateView::Progress {
                progress,
            },
            SubdomainScanUpdate::Finished { checked, found, elapsed_ms } =>
                SubdomainUpdateView::Finished { checked, found, elapsed_ms },
            SubdomainScanUpdate::Error { message } => SubdomainUpdateView::Error {
                message: message@,
            },
        }
    }
}

impl DeepView for SubdomainScanUpdate {
    type V = SubdomainUpdateView;

    open spec fn deep_view(&self) -> SubdomainUpdateView {
        self@
    }
}

/// A domain without white space around it, schemes before it and slashes
/// after it, in lower case.
pub open spec fn normalized_domain(domain: Seq<char>) -> Seq<char> {
    text::lowercased(
        text::right_trimmed(
            text::prefixes_removed(
                text::prefixes_removed(text::trimmed(domain), "http://"@),
                "https://"@,
            ),
            CharClass::Only('/'),
        ),
    )
}

/// Trims a domain, drops schemes before it and slashes after it, and puts it in
/// lower case.
pub fn normalize_domain(domain: &str) -> (normalized: String)
    ensures
        normalized@ == normalized_domain(domain@),
{
    to_ascii_lowercase(
        trim_end_class(
            trim_start_text(trim_start_text(trim(domain), "http://"), "https://"),
            CharClass::Only('/'),
        ),
    )
}

/// The hosts that are looked up: each label with the domain after it.
pub open spec fn hosts_of(labels: Seq<Seq<char>>, domain: Seq<char>) -> Seq<Seq<char>> {
    labels.map_values(|label: Seq<char>| label + "."@ + domain)
}

/// The hosts that are looked up: each label with the domain after it.
pub fn subdomain_hosts(labels: &Vec<String>, domain: &str) -> (hosts: Vec<String>)
    ensures
        hosts.deep_view() == hosts_of(labels.deep_view(), domain@),
{
    let ghost all = hosts_of(labels.deep_view(), domain@);
    let mut hosts: Vec<String> = Vec::new();
    let mut i: usize = 0;
    while i < labels.len()
        invariant
            i <= labels.len(),
            all == hosts_of(labels.deep_view(), domain@),
            hosts.deep_view() == all.take(i as int),
        decreases labels.len() - i,
    {
        let ghost before = hosts.deep_view();
        hosts.push(concat3(labels[i].as_str(), ".", domain));
        assert(labels.deep_view()[i as int] == labels@[i as int]@);
        assert(hosts.deep_view() =~= before.push(all[i as int]));
        assert(all.take(i + 1) =~= all.take(i as int).push(all[i as int]));
        i += 1;
    }
    assert(all.take(i as int) =~= all);
    hosts
}

/// Whether a normalised domain can be scanned: it has a dot.
pub open spec fn scannable(domain: Seq<char>) -> bool {
    domain.contains('.')
}

/// The hosts of a scan, or a message where the domain that the options name has
/// no dot.
pub fn plan_hosts(options: &SubdomainScanOptions, labels: &Vec<String>) -> (hosts: Result<
    Vec<String>,
    String,
>)
    ensures
        match hosts {
            Ok(planned) => scannable(normalized_domain(options.domain@)) && planned.deep_view()
                == hosts_of(labels.deep_view(), normalized_domain(options.domain@)),
            Err(message) => !scannable(normalized_domain(options.domain@)) && message@
                == "Enter a valid root domain, for example example.com."@,
        },
{
    let domain = normalize_domain(options.domain.as_str());
    if contains_char(domain.as_str(), '.') {
        Ok(subdomain_hosts(labels, domain.as_str()))
    } else {
        Err("Enter a valid root domain, for example example.com.".to_owned())
    }
}

/// What to do next for the probe of a host.
#[derive(Debug)]
pub enum ProbeAction {
    /// Request this URL.
    Get { url: String },
    /// The probe is over: the status and the milliseconds of the answer, if any.
    Done { probe: Option<(u16, u128)> },
}

/// What a [`ProbeAction`] stands for.
pub enum ProbeActionView {
    Get { url: Seq<char> },
    Done { probe: Option<(u16, u128)> },
}

impl View for ProbeAction {
    type V = ProbeActionView;

    open spec fn view(&self) -> ProbeActionView {
        match *self {
            ProbeAction::Get { url } => ProbeActionView::Get { url: url@ },
            ProbeAction::Done { probe } => ProbeActionView::Done { probe },
        }
    }
}

/// The probe of a host after some failed requests and, where the last one
/// succeeded, its answer: https first, then http, then nothing.
pub open spec fn probe_step(
    host: Seq<char>,
    failures: usize,
    answer: Option<(u16, u128)>,
) -> ProbeActionView {
    if answer is Some {
        ProbeActionView::Done { probe: answer }
    } else if failures == 0 {
        ProbeActionView::Get { url: "https://"@ + host + "/"@ }
    } else if failures == 1 {
        ProbeActionView::Get { url: "http://"@ + host + "/"@ }
    } else {
        ProbeActionView::Done { probe: None }
    }
}

/// Decides how the probe of a host goes on after some failed requests and,
/// where the last one succeeded, its answer.
pub fn probe_http(host: &str, failures: usize, answer: Option<(u16, u128)>) -> (action: ProbeAction)
    ensures
        action@ == probe_step(host@, failures, answer),
{
    if answer.is_some() {
        ProbeAction::Done { probe: answer }
    } else if failures == 0 {
        ProbeAction::Get { url: concat3("https://", host, "/") }
    } else if failures == 1 {
        ProbeAction::Get { url: concat3("http://", host, "/") }
    } else {
        ProbeAction::Done { probe: None }
    }
}

/// What is reported of a host: its first address and what its probe gave. A
/// host without an address is not found.
pub open spec fn reported_host(
    host: Seq<char>,
    addresses: Seq<Seq<char>>,
    probe: Option<(u16, u128)>,
) -> Option<SubdomainResultView> {
    if addresses.len() == 0 {
        None
    } else {
        Some(
            SubdomainResultView {
                subdomain: host,
                ip: addresses.first(),
                status: match probe {
                    Some((status, _)) => Some(status),
                    None => None,
                },
                response_time_ms: match probe {
                    Some((_, elapsed)) => Some(elapsed),
                    None => None,
                },
            },
        )
    }
}

/// What is reported of a host with these addresses and this probe.
pub fn host_result(host: &str, addresses: &Vec<String>, probe: Option<(u16, u128)>) -> (result:
    Option<SubdomainResult>)
    ensures
        result.deep_view() == reported_host(host@, addresses.deep_view(), probe),
{
    if addresses.len() == 0 {
        return None;
    }
    let (status, elapsed) = match probe {
        Some((status, elapsed)) => (Some(status), Some(elapsed)),
        None => (None, None),
    };
    Some(
        SubdomainResult {
            subdomain: host.to_owned(),
            ip: addresses[0].clone(),
            status,
            response_time_ms: elapsed,
        },
    )
}

/// What to do next for a host.
#[derive(Debug)]
pub enum HostAction {
    /// Request this URL.
    Get { url: String },
    /// The host is done; it was found where there is a result.
    Done { result: Option<SubdomainResult> },
}

/// What a [`HostAction`] stands for.
pub enum HostActionView {
    Get { url: Seq<char> },
    Done { result: Option<SubdomainResultView> },
}

impl View for HostAction {
    type V = HostActionView;

    open spec fn view(&self) -> HostActionView {
        match *self {
            HostAction::Get { url } => HostActionView::Get { url: url@ },
            HostAction::Done { result } => HostActionView::Done { result: result.deep_view() },
        }
    }
}

/// The work on a host with these addresses: it is probed only where it has one.
pub open spec fn host_step(
    host: Seq<char>,
    addresses: Seq<Seq<char>>,
    failures: usize,
    answer: Option<(u16, u128)>,
) -> HostActionView {
    if addresses.len() == 0 {
        HostActionView::Done { result: None }
    } else {
        match probe_step(host, failures, answer) {
            ProbeActionView::Get { url } => HostActionView::Get { url },
            ProbeActionView::Done { probe } => HostActionView::Done {
                result: reported_host(host, addresses, probe),
            },
        }
    }
}

/// Decides how the work on a host with these addresses goes on after some
/// failed requests and, where the last one succeeded, its answer.
pub fn check_host(
    host: &str,
    addresses: &Vec<String>,
    failures: usize,
    answer: Option<(u16, u128)>,
) -> (action: HostAction)
    ensures
        action@ == host_step(host@, addresses.deep_view(), failures, answer),
{
    if addresses.len() == 0 {
        return HostAction::Done { result: None };
    }
    match probe_http(host, failures, answer) {
        ProbeAction::Get { url } => HostAction::Get { url },
        ProbeAction::Done { probe } => HostAction::Done {
            result: host_result(host, addresses, probe),
        },
    }
}

/// The progress of a scan of `total` hosts.
pub open spec fn progress_of(counters: ScanCounters, total: usize, elapsed_ms: u128) -> ScanProgress {
    ScanProgress { checked: counters.checked, found: counters.found, total, elapsed_ms }
}

/// How far a scan of `total` hosts has come.
pub fn progress(counters: ScanCounters, total: usize, elapsed_ms: u128) -> (progress: ScanProgress)
    ensures
        progress == progress_of(counters, total, elapsed_ms),
{
    ScanProgress { checked: counters.checked, found: counters.found, total, elapsed_ms }
}

/// The report that ends a scan.
pub fn finished(counters: ScanCounters, elapsed_ms: u128) -> (update: SubdomainScanUpdate)
    ensures
        update@ == (SubdomainUpdateView::Finished {
            checked: counters.checked,
            found: counters.found,
            elapsed_ms,
        }),
{
    SubdomainScanUpdate::Finished { checked: counters.checked, found: counters.found, elapsed_ms }
}

/// How the work on one host ended.
#[derive(Debug)]
pub enum HostOutcome {
    /// It was found.
    Found(SubdomainResult),
    /// It was not found.
    Nothing,
    /// The worker ended before its time, for this reason.
    Failed(String),
}

/// The reports that the end of a worker brings: what it found or why it
/// failed, if anything, and then the progress.
pub open spec fn host_reports(
    outcome: HostOutcome,
    counters: ScanCounters,
    total: usize,
    elapsed_ms: u128,
) -> Seq<SubdomainUpdateView> {
    let progress = SubdomainUpdateView::Progress {
        progress: progress_of(counters, total, elapsed_ms),
    };
    match outcome {
        HostOutcome::Found(result) => seq![
            SubdomainUpdateView::Result { result: result@ },
            progress,
        ],
        HostOutcome::Nothing => seq![progress],
        HostOutcome::Failed(detail) => seq![
            SubdomainUpdateView::Error { message: "Worker failed: "@ + detail@ },
            progress,
        ],
    }
}

/// The reports that the end of a worker brings.
pub fn host_updates(
    outcome: HostOutcome,
    counters: ScanCounters,
    total: usize,
    elapsed_ms: u128,
) -> (updates: Vec<SubdomainScanUpdate>)
    ensures
        updates.deep_view() == host_reports(outcome, counters, total, elapsed_ms),
{
    let ghost given = outcome;
    let mut updates: Vec<SubdomainScanUpdate> = Vec::new();
    match outcome {
        HostOutcome::Found(result) => {
            updates.push(SubdomainScanUpdate::Result { result });
        },
        HostOutcome::Nothing => {},
        HostOutcome::Failed(detail) => {
            updates.push(
                SubdomainScanUpdate::Error { message: worker_error_message(detail.as_str()) },
            );
        },
    }
    updates.push(SubdomainScanUpdate::Progress { progress: progress(counters, total, elapsed_ms) });
    assert(updates.deep_view() =~= host_reports(given, counters, total, elapsed_ms));
    updates
}

impl HostOutcome {
    pub open spec fn kind(self) -> Ending {
        match self {
            HostOutcome::Found(_) => Ending::Found,
            HostOutcome::Nothing => Ending::Nothing,
            HostOutcome::Failed(_) => Ending::Failed,
        }
    }

    /// How the worker ended.
    pub fn ending(&self) -> (ending: Ending)
        ensures
            ending == self.kind(),
    {
        match self {
            HostOutcome::Found(_) => Ending::Found,
            HostOutcome::Nothing => Ending::Nothing,
            HostOutcome::Failed(_) => Ending::Failed,
        }
    }
}

/// The state of a scan for subdomains.
pub struct SubdomainScanView {
    /// How many hosts there are.
    pub total: usize,
    pub workers: WorkersView,
    pub counters: ScanCounters,
}

impl SubdomainScanView {
    /// A scan of some hosts that has not begun.
    pub open spec fn fresh(total: usize) -> SubdomainScanView {
        SubdomainScanView {
            total,
            workers: WorkersView::begun(total as nat),
            counters: ScanCounters::zero(),
        }
    }

    /// Whether all workers have ended.
    pub open spec fn is_over(self) -> bool {
        self.workers.left() == 0
    }

    /// The report that ends the scan.
    pub open spec fn last_report(self, elapsed_ms: u128) -> SubdomainUpdateView {
        SubdomainUpdateView::Finished {
            checked: self.counters.checked,
            found: self.counters.found,
            elapsed_ms,
        }
    }

    /// The reports that begin the scan. One without hosts is over at once.
    pub open spec fn first_reports(self, elapsed_ms: u128) -> Seq<SubdomainUpdateView> {
        let started = SubdomainUpdateView::Started { total: self.total };
        if self.is_over() {
            seq![started, self.last_report(elapsed_ms)]
        } else {
            seq![started]
        }
    }

    /// A worker has looked its host up, with or without success, and counts it.
    pub open spec fn counted(self, found: bool) -> SubdomainScanView {
        SubdomainScanView {
            workers: self.workers.after_count(found),
            counters: self.counters.with_outcome(found),
            ..self
        }
    }

    /// A worker ended: its end is reported, and after the last one the scan is
    /// over.
    pub open spec fn joined(self, outcome: HostOutcome, elapsed_ms: u128) -> (
        SubdomainScanView,
        Seq<SubdomainUpdateView>,
    ) {
        let after = SubdomainScanView {
            workers: self.workers.after_end(outcome.kind()),
            ..self
        };
        let reports = host_reports(outcome, self.counters, self.total, elapsed_ms);
        if after.is_over() {
            (after, reports.push(after.last_report(elapsed_ms)))
        } else {
            (after, reports)
        }
    }
}

/// A scan for subdomains. It takes what the workers do, which are made elsewhere,
/// and gives the reports.
#[derive(Debug)]
pub struct SubdomainScan {
    total: usize,
    workers: Workers,
    counters: ScanCounters,
}

impl View for SubdomainScan {
    type V = SubdomainScanView;

    closed spec fn view(&self) -> SubdomainScanView {
        SubdomainScanView {
            total: self.total,
            workers: self.workers@,
            counters: self.counters,
        }
    }
}

impl SubdomainScan {
    /// A scan of some hosts that has not begun.
    pub fn new(total: usize) -> (scan: SubdomainScan)
        ensures
            scan@ == SubdomainScanView::fresh(total),
    {
        SubdomainScan { total, workers: Workers::begin(total), counters: ScanCounters::new() }
    }

    /// Begins the scan; gives the reports of that.
    pub fn begin(&self, elapsed_ms: u128) -> (updates: Vec<SubdomainScanUpdate>)
        ensures
            updates.deep_view() == self@.first_reports(elapsed_ms),
    {
        let mut updates: Vec<SubdomainScanUpdate> = Vec::new();
        updates.push(SubdomainScanUpdate::Started { total: self.total });
        if self.workers.all_ended() {
            updates.push(finished(self.counters, elapsed_ms));
        }
        assert(updates.deep_view() =~= self@.first_reports(elapsed_ms));
        updates
    }

    /// Takes note that a worker has looked its host up, with or without success.
    pub fn worker_counted(&mut self, found: bool)
        requires
            old(self)@.workers.at_work > 0,
        ensures
            final(self)@ == old(self)@.counted(found),
    {
        self.workers = self.workers.count(found);
        self.counters.count_outcome(found);
    }

    /// Takes the end of a worker; gives the reports of it.
    pub fn worker_joined(&mut self, outcome: HostOutcome, elapsed_ms: u128) -> (updates: Vec<
        SubdomainScanUpdate,
    >)
        requires
            old(self)@.workers.can_end(outcome.kind()),
        ensures
            old(self)@.joined(outcome, elapsed_ms) == (final(self)@, updates.deep_view()),
    {
        self.workers = self.workers.end(outcome.ending());
        let mut updates = host_updates(outcome, self.counters, self.total, elapsed_ms);
        let ghost reports = updates.deep_view();
        if self.workers.all_ended() {
            updates.push(finished(self.counters, elapsed_ms));
            assert(updates.deep_view() =~= reports.push(self@.last_report(elapsed_ms)));
        }
        updates
    }

    /// Whether all workers have ended.
    pub fn is_over(&self) -> (over: bool)
        ensures
            over == self@.is_over(),
    {
        self.workers.all_ended()
    }
}

} // verus!
