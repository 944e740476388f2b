use vstd::prelude::*;
use crate::decimal::spec_dec;
use crate::decimal::u64_to_dec_str;
use crate::error::DownloadError;

verus! {

/// Drives one chunk's GET: the caller's loop sends the request (with
/// `range_header_value` when ranged), streams the body into the chunk, and
/// runs every failure through `on_fetch_failure`, which decides between a
/// retry and the final error.
pub struct DownloadTask {}

impl DownloadTask {
    pub fn new() -> (r: DownloadTask) {
        DownloadTask {  }
    }
}

/// The ways one fetch attempt can fail: the request did not go out or got no
/// answer, the answer had an error status, or the body stream broke.
#[derive(PartialEq, Eq, Structural, Clone, Copy, Debug)]
pub enum FetchFailure {
    Transport,
    Status(u16),
    Body,
}

/// The `Range` header for a chunk: `bytes=<position>-<end>`, resuming at the
/// current position.
pub fn range_header_value(position: u64, end: u64) -> (r: String)
    ensures
        r@ == "bytes="@ + spec_dec(position as int) + "-"@ + spec_dec(end as int),
{
    let mut s = String::from_str("bytes=");
    let p = u64_to_dec_str(position);
    s.append(p.as_str());
    s.append("-");
    let e = u64_to_dec_str(end);
    s.append(e.as_str());
    proof {
        assert(s@ =~= "bytes="@ + spec_dec(position as int) + "-"@ + spec_dec(end as int));
    }
    s
}

/// Decides what a failed fetch attempt means: while the retry budget lasts,
/// count the attempt and try again (`None`); once exhausted, the failure
/// becomes its error: `Request` for transport, `Response` with the URL and
/// status code, `ResponseChunk` for a broken body stream.
pub fn on_fetch_failure(
    retry_count: &mut u8,
    retry_limit: u8,
    failure: &FetchFailure,
    url: &str,
) -> (r: Option<DownloadError>)
    ensures
        *old(retry_count) < retry_limit ==> r is None && *final(retry_count) == *old(retry_count)
            + 1,
        *old(retry_count) >= retry_limit ==> {
            &&& *final(retry_count) == *old(retry_count)
            &&& (failure == FetchFailure::Transport ==> r == Some(DownloadError::Request))
            &&& (failure matches FetchFailure::Status(code) ==> (r matches Some(e) && e matches
                DownloadError::Response(u, c) && u@ == url@ && c == code))
            &&& (failure == FetchFailure::Body ==> r == Some(DownloadError::ResponseChunk))
        },
{
    if *retry_count < retry_limit {
        *retry_count = *retry_count + 1;
        return Option::None;
    }
    match failure {
        FetchFailure::Transport => Option::Some(DownloadError::Request),
        FetchFailure::Status(code) => Option::Some(
            DownloadError::Response(String::from_str(url), *code),
        ),
        FetchFailure::Body => Option::Some(DownloadError::ResponseChunk),
    }
}

} // verus!
