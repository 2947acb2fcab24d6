//! Soft 404 pages: what a server answers for files that cannot be there, and
//! which other answers look the same.
use std::collections::hash_map::DefaultHasher;
use std::hash::Hasher;

use vstd::bytes::u64_to_le_bytes;
use vstd::prelude::*;
use vstd::slice::slice_subrange;
use vstd::std_specs::hash::DefaultHasherAdditionalSpecFns;

use crate::content;
use crate::content::content_type_family;
use crate::number;
use crate::number::decimal;
use crate::resolve;
use crate::resolve::resolve_all;
use crate::text::{concat3, same_text};
use crate::urls::PageUrl;

verus! {

/// How many bytes of a body its signature reads.
pub const SAMPLE_BYTES: usize = 16384;

/// How far the lengths of two bodies that look the same may lie apart.
pub const LENGTH_TOLERANCE: usize = 32;

/// The number of bytes of a body that its signature reads.
pub open spec fn sample_len(body: Seq<u8>) -> nat {
    if body.len() < SAMPLE_BYTES {
        body.len()
    } else {
        SAMPLE_BYTES as nat
    }
}

/// The hash of the start of a body and of its length.
pub open spec fn signature_of(body: Seq<u8>) -> u64 {
    DefaultHasher::spec_finish(
        seq![
            vstd::bytes::spec_u64_to_le_bytes(sample_len(body) as u64),
            body.take(sample_len(body) as int),
            vstd::bytes::spec_u64_to_le_bytes(body.len() as u64),
        ],
    )
}

/// The hash of the start of a body and of its length.
pub fn body_signature(bytes: &[u8]) -> (signature: u64)
    ensures
        signature == signature_of(bytes@),
{
    let len: usize = bytes.len();
    let sample: usize = if len < SAMPLE_BYTES {
        len
    } else {
        SAMPLE_BYTES
    };
    let mut hasher = DefaultHasher::new();
    let sample_bytes = u64_to_le_bytes(sample as u64);
    hasher.write(sample_bytes.as_slice());
    hasher.write(slice_subrange(bytes, 0, sample));
    let len_bytes = u64_to_le_bytes(len as u64);
    hasher.write(len_bytes.as_slice());
    assert(bytes@.subrange(0, sample as int) =~= bytes@.take(sample as int));
    assert(hasher@ =~= seq![
        vstd::bytes::spec_u64_to_le_bytes(sample as u64),
        bytes@.take(sample as int),
        vstd::bytes::spec_u64_to_le_bytes(len as u64),
    ]);
    hasher.finish()
}

/// An answer for a file that cannot be there.
#[derive(Debug)]
pub struct Soft404Sample {
    pub status: u16,
    pub content_type_family: String,
    pub body_len: usize,
    pub body_signature: u64,
}

/// What a [`Soft404Sample`] stands for.
pub struct Soft404SampleView {
    pub status: u16,
    pub family: Seq<char>,
    pub body_len: usize,
    pub signature: u64,
}

impl DeepView for Soft404Sample {
    type V = Soft404SampleView;

    open spec fn deep_view(&self) -> Soft404SampleView {
        Soft404SampleView {
            status: self.status,
            family: self.content_type_family@,
            body_len: self.body_len,
            signature: self.body_signature,
        }
    }
}

impl Soft404SampleView {
    /// Whether an answer looks like this one: same status, family of content
    /// types and signature, and a body of nearly the same length.
    pub open spec fn looks_like(
        self,
        status: u16,
        family: Seq<char>,
        body_len: usize,
        signature: u64,
    ) -> bool {
        &&& self.status == status
        &&& self.family == family
        &&& self.signature == signature
        &&& self.body_len - body_len <= LENGTH_TOLERANCE
        &&& body_len - self.body_len <= LENGTH_TOLERANCE
    }
}

/// The answers of a server for files that cannot be there.
#[derive(Debug)]
pub struct Soft404Profile {
    pub samples: Vec<Soft404Sample>,
}

impl View for Soft404Profile {
    type V = Seq<Soft404SampleView>;

    open spec fn view(&self) -> Seq<Soft404SampleView> {
        self.samples.deep_view()
    }
}

/// Whether an answer looks like one of the samples.
pub open spec fn is_soft_404(
    samples: Seq<Soft404SampleView>,
    status: u16,
    content_type: Seq<char>,
    body_len: usize,
    signature: u64,
) -> bool {
    exists|i: int|
        0 <= i < samples.len() && (#[trigger] samples[i]).looks_like(
            status,
            content::family_of(content_type),
            body_len,
            signature,
        )
}

impl Soft404Profile {
    /// Whether an answer looks like one for a file that is not there.
    pub fn matches(
        &self,
        status: u16,
        content_type: &str,
        body_len: usize,
        body_signature: u64,
    ) -> (found: bool)
        ensures
            found == is_soft_404(self@, status, content_type@, body_len, body_signature),
    {
        let family = content_type_family(content_type);
        let mut i: usize = 0;
        while i < self.samples.len()
            invariant
                i <= self.samples.len(),
                family@ == content::family_of(content_type@),
                forall|j: int|
                    0 <= j < i ==> !(#[trigger] self@[j]).looks_like(
                        status,
                        family@,
                        body_len,
                        body_signature,
                    ),
            decreases self.samples.len() - i,
        {
            let sample = &self.samples[i];
            let apart: usize = if sample.body_len < body_len {
                body_len - sample.body_len
            } else {
                sample.body_len - body_len
            };
            assert(self@[i as int] == sample.deep_view());
            if sample.status == status && same_text(
                sample.content_type_family.as_str(),
                family.as_str(),
            ) && sample.body_signature == body_signature && apart <= LENGTH_TOLERANCE {
                assert(self@[i as int].looks_like(status, family@, body_len, body_signature));
                return true;
            }
            i += 1;
        }
        false
    }
}

/// The answer to a probe: its status, its content type, where that could be
/// read, and its body.
#[derive(Debug)]
pub struct ProbeResponse {
    pub status: u16,
    pub content_type: Option<String>,
    pub body: Vec<u8>,
}

/// What a [`ProbeResponse`] stands for.
pub struct ProbeResponseView {
    pub status: u16,
    pub content_type: Option<Seq<char>>,
    pub body: Seq<u8>,
}

impl DeepView for ProbeResponse {
    type V = ProbeResponseView;

    open spec fn deep_view(&self) -> ProbeResponseView {
        ProbeResponseView {
            status: self.status,
            content_type: self.content_type.deep_view(),
            body: self.body@,
        }
    }
}

/// The text of a header; empty where there is none.
pub open spec fn header_or_empty(header: Option<Seq<char>>) -> Seq<char> {
    match header {
        Some(value) => value,
        None => Seq::empty(),
    }
}

/// The text of a header; empty where there is none.
pub(crate) fn header_text(header: &Option<String>) -> (value: String)
    ensures
        value@ == header_or_empty(header.deep_view()),
{
    match header {
        Some(given) => given.clone(),
        None => String::new(),
    }
}

/// What is kept of the answer to a probe.
pub open spec fn sample_of(response: ProbeResponseView) -> Soft404SampleView {
    Soft404SampleView {
        status: response.status,
        family: content::family_of(header_or_empty(response.content_type)),
        body_len: response.body.len() as usize,
        signature: signature_of(response.body),
    }
}

/// What is kept of an answer that may be missing.
pub open spec fn sample_if_any(response: Option<ProbeResponseView>) -> Option<Soft404SampleView> {
    match response {
        Some(given) => Some(sample_of(given)),
        None => None,
    }
}

/// What is kept of the answers to the probes; one that failed leaves nothing.
pub open spec fn profile_of(
    responses: Seq<Option<ProbeResponseView>>,
) -> Seq<Soft404SampleView> {
    responses.filter_map(|response: Option<ProbeResponseView>| sample_if_any(response))
}

/// Keeps of each answer to a probe what other answers are held against.
pub fn build_soft_404_profile(responses: &Vec<Option<ProbeResponse>>) -> (profile: Soft404Profile)
    ensures
        profile@ == profile_of(responses.deep_view()),
{
    let ghost all = responses.deep_view();
    let ghost pick = |response: Option<ProbeResponseView>| sample_if_any(response);
    let mut samples: Vec<Soft404Sample> = Vec::new();
    assert(samples.deep_view() =~= all.take(0).filter_map(pick));
    let mut i: usize = 0;
    while i < responses.len()
        invariant
            i <= responses.len(),
            all == responses.deep_view(),
            pick == (|response: Option<ProbeResponseView>| sample_if_any(response)),
            samples.deep_view() == all.take(i as int).filter_map(pick),
        decreases responses.len() - i,
    {
        let ghost before = samples.deep_view();
        proof {
            all.lemma_filter_map_take_succ(pick, i as int);
            assert(all[i as int] == responses@[i as int].deep_view());
        }
        match &responses[i] {
            Some(response) => {
                let content_type = header_text(&response.content_type);
                let sample = Soft404Sample {
                    status: response.status,
                    content_type_family: content_type_family(content_type.as_str()),
                    body_len: response.body.len(),
                    body_signature: body_signature(response.body.as_slice()),
                };
                let ghost kept = sample.deep_view();
                samples.push(sample);
                assert(samples.deep_view() =~= before + seq![kept]);
            },
            None => {
                assert(samples.deep_view() =~= before + Seq::empty());
            },
        }
        i += 1;
    }
    assert(all.take(i as int) =~= all);
    Soft404Profile { samples }
}

/// The paths of two files that cannot be there, made from a number that is
/// used once.
pub open spec fn probe_paths(nonce: nat) -> Seq<Seq<char>> {
    seq![
        ".mocha-scanner-missing-"@ + number::decimal_text(nonce) + ".txt"@,
        "mocha-scanner/missing-"@ + number::decimal_text(nonce) + ".json"@,
    ]
}

/// The paths of two files that cannot be there.
pub fn soft_404_probe_paths(nonce: u128) -> (paths: Vec<String>)
    ensures
        paths.deep_view() == probe_paths(nonce as nat),
{
    let digits = decimal(nonce);
    let mut paths: Vec<String> = Vec::new();
    paths.push(concat3(".mocha-scanner-missing-", digits.as_str(), ".txt"));
    paths.push(concat3("mocha-scanner/missing-", digits.as_str(), ".json"));
    assert(paths.deep_view() =~= probe_paths(nonce as nat));
    paths
}

/// The URLs of two files that cannot be there, as far as they can be joined to
/// the base.
pub fn soft_404_probes(base: &PageUrl, nonce: u128) -> (probes: Vec<PageUrl>)
    ensures
        probes.deep_view() == resolve::kept(
            resolve::joined_each(base@, probe_paths(nonce as nat)),
        ),
{
    resolve_all(base, &soft_404_probe_paths(nonce))
}

} // verus!
