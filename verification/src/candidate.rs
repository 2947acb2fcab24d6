//! Judging the answer to a request for a candidate.
use vstd::prelude::*;

use crate::content;
use crate::content::{content_type_matches_url, parse_content_range_total, should_emit_file};
use crate::results;
use crate::results::{file_result, FileResult, FileResultView};
use crate::soft404;
use crate::soft404::{body_signature, header_text, Soft404Profile, Soft404SampleView};
use crate::urls::{PageUrl, UrlView};

verus! {

/// The answer to a request for the first bytes of a candidate. A header is
/// given where it is there and could be read.
#[derive(Debug)]
pub struct CandidateResponse {
    pub status: u16,
    pub content_type: Option<String>,
    pub content_range: Option<String>,
    pub content_length: Option<u64>,
    pub body: Vec<u8>,
}

/// What a [`CandidateResponse`] stands for.
pub struct CandidateResponseView {
    pub status: u16,
    pub content_type: Option<Seq<char>>,
    pub content_range: Option<Seq<char>>,
    pub content_length: Option<u64>,
    pub body: Seq<u8>,
}

impl View for CandidateResponse {
    type V = CandidateResponseView;

    open spec fn view(&self) -> CandidateResponseView {
        CandidateResponseView {
            status: self.status,
            content_type: self.content_type.deep_view(),
            content_range: self.content_range.deep_view(),
            content_length: self.content_length,
            body: self.body@,
        }
    }
}

/// The bytes of a candidate that are asked for.
pub const CANDIDATE_RANGE: &'static str = "bytes=0-16383";

/// Whether a status says that there is no file: not found, no such range, or
/// an error of the server.
pub open spec fn status_rejected(status: u16) -> bool {
    status == 404 || status == 416 || 500 <= status <= 599
}

/// Whether a status says that there is no file.
pub fn is_rejected_status(status: u16) -> (rejected: bool)
    ensures
        rejected == status_rejected(status),
{
    status == 404 || status == 416 || (500 <= status && status <= 599)
}

/// The status that is reported: part of a file counts as the whole.
pub open spec fn displayed_status(status: u16) -> u16 {
    if status == 206 {
        200
    } else {
        status
    }
}

/// The size of a candidate: the total of its range, else its content length,
/// else the bytes that came.
pub open spec fn size_of(response: CandidateResponseView) -> u64 {
    let total = match response.content_range {
        Some(range) => content::range_total(range),
        None => None,
    };
    match (total, response.content_length) {
        (Some(n), _) => n as u64,
        (None, Some(length)) => length,
        (None, None) => response.body.len() as u64,
    }
}

/// What is reported of a candidate: nothing where the status says that there
/// is no file, where the answer looks like one for a missing file, where the
/// file is not asked for, or where its content type does not fit.
pub open spec fn judged(
    candidate: UrlView,
    extensions: Seq<Seq<char>>,
    samples: Seq<Soft404SampleView>,
    everything: bool,
    response: CandidateResponseView,
) -> Option<FileResultView> {
    let content_type = soft404::header_or_empty(response.content_type);
    if status_rejected(response.status) || soft404::is_soft_404(
        samples,
        response.status,
        content_type,
        response.body.len() as usize,
        soft404::signature_of(response.body),
    ) || !content::worth_reporting(candidate.path, extensions, everything, content_type)
        || !content::content_fits(candidate.path, content_type, everything) {
        None
    } else {
        Some(
            results::reported_file(
                candidate,
                displayed_status(response.status),
                content_type,
                Some(size_of(response)),
            ),
        )
    }
}

/// Judges the answer to a request for a candidate.
pub fn check_candidate(
    url: &PageUrl,
    extensions: &Vec<String>,
    soft_404: &Soft404Profile,
    scan_everything: bool,
    response: &CandidateResponse,
) -> (result: Option<FileResult>)
    ensures
        result.deep_view() == judged(
            url@,
            extensions.deep_view(),
            soft_404@,
            scan_everything,
            response@,
        ),
{
    let status: u16 = response.status;
    if is_rejected_status(status) {
        return None;
    }
    let content_type = header_text(&response.content_type);
    let total: Option<u64> = match &response.content_range {
        Some(range) => parse_content_range_total(range.as_str()),
        None => None,
    };
    let size: u64 = match total {
        Some(n) => n,
        None => match response.content_length {
            Some(length) => length,
            None => response.body.len() as u64,
        },
    };
    assert(size == size_of(response@));
    let signature: u64 = body_signature(response.body.as_slice());
    if soft_404.matches(status, content_type.as_str(), response.body.len(), signature) {
        return None;
    }
    if !should_emit_file(url, extensions, scan_everything, content_type.as_str()) {
        return None;
    }
    if !content_type_matches_url(url, content_type.as_str(), scan_everything) {
        return None;
    }
    let shown: u16 = if status == 206 {
        200
    } else {
        status
    };
    Some(file_result(url, shown, content_type.as_str(), Some(size)))
}

} // verus!
