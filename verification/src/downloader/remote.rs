//! What is said to the remote and what is read from its answers: the
//! `Range` header of a chunk, the statuses that count as success, and the
//! size and range support that a probe reports.

use crate::downloader::failure::{DownloadFailure, FailureView};
use crate::text::{
    decimal, eq_ignore_ascii_case, equals_ignore_ascii_case, parse_decimal_u64, parse_u64,
    push_decimal, text_of,
};
use vstd::prelude::*;
use vstd::string::*;

verus! {

/// Whether `status` is an HTTP success status.
pub open spec fn is_success(status: u16) -> bool {
    200 <= status <= 299
}

/// Tests whether the HTTP status `status` is a success. Any other status on a
/// probe or a fetch is a failure.
pub fn is_success_status(status: u16) -> (r: bool)
    ensures
        r == is_success(status),
{
    200 <= status && status <= 299
}

/// The value of the `Range` header that asks for the bytes `start` to `end`,
/// both included.
pub open spec fn range_header_value(start: u64, end: u64) -> Seq<char> {
    "bytes="@ + decimal(start as nat) + "-"@ + decimal(end as nat)
}

/// Builds the value of the `Range` header for the bytes `start` to `end`,
/// both included.
pub fn range_header(start: u64, end: u64) -> (r: String)
    ensures
        r@ == range_header_value(start, end),
{
    let mut r = String::from_str("bytes=");
    push_decimal(&mut r, start);
    r.append("-");
    push_decimal(&mut r, end);
    r
}

/// Whether the value of an `Accept-Ranges` header advertises byte ranges: it
/// is present and reads `bytes`, in any case of letters.
pub open spec fn advertises_ranges(accept_ranges: Option<Seq<char>>) -> bool {
    match accept_ranges {
        Some(value) => eq_ignore_ascii_case(value, "bytes"@),
        None => false,
    }
}

/// Tests whether the value of an `Accept-Ranges` header advertises byte
/// ranges.
pub fn supports_ranges(accept_ranges: &Option<String>) -> (r: bool)
    ensures
        r == advertises_ranges(text_of(*accept_ranges)),
{
    match accept_ranges {
        Some(value) => equals_ignore_ascii_case(value.as_str(), "bytes"),
        None => false,
    }
}

/// What a probe tells about the remote: the size of the resource and whether
/// ranges are advertised, or why the probe is of no use. A status that is not
/// a success fails the probe; so does a content length that is absent or not
/// a number.
pub open spec fn probe_result(
    status: u16,
    content_length: Option<Seq<char>>,
    accept_ranges: Option<Seq<char>>,
) -> Result<(u64, bool), FailureView> {
    if !is_success(status) {
        Err(FailureView::HttpStatus(status))
    } else {
        match content_length {
            Some(text) => match parse_u64(text) {
                Some(size) => Ok((size, advertises_ranges(accept_ranges))),
                None => Err(FailureView::MissingContentLength),
            },
            None => Err(FailureView::MissingContentLength),
        }
    }
}

/// Reads the answer to a probe: the resource's size and whether the remote
/// advertises range support.
pub fn read_probe(
    status: u16,
    content_length: &Option<String>,
    accept_ranges: &Option<String>,
) -> (r: Result<(u64, bool), DownloadFailure>)
    ensures
        match r {
            Ok(found) => probe_result(status, text_of(*content_length), text_of(*accept_ranges))
                == Ok::<(u64, bool), FailureView>(found),
            Err(failure) => probe_result(
                status,
                text_of(*content_length),
                text_of(*accept_ranges),
            ) == Err::<(u64, bool), FailureView>(failure@),
        },
{
    if !is_success_status(status) {
        return Err(DownloadFailure::HttpStatus(status));
    }
    match content_length {
        Some(text) => match parse_decimal_u64(text.as_str()) {
            Some(size) => Ok((size, supports_ranges(accept_ranges))),
            None => Err(DownloadFailure::MissingContentLength),
        },
        None => Err(DownloadFailure::MissingContentLength),
    }
}

} // verus!
