use vstd::prelude::*;
use crate::decimal::parse_u64_dec;
use crate::decimal::spec_all_digits;
use crate::decimal::spec_dec_value;
use crate::error::DownloadError;

verus! {

/// Decides what a failed HEAD attempt means: while the retry budget lasts,
/// count the attempt and probe again (`None`); once exhausted, the probe
/// fails with the `Head` error.
pub fn on_head_failure(retry_count: &mut u8, retry_limit: u8) -> (r: Option<DownloadError>)
    ensures
        *old(retry_count) < retry_limit ==> r is None && *final(retry_count) == *old(retry_count)
            + 1,
        *old(retry_count) >= retry_limit ==> *final(retry_count) == *old(retry_count) && r
            == Some(DownloadError::Head),
{
    if *retry_count < retry_limit {
        *retry_count = *retry_count + 1;
        Option::None
    } else {
        Option::Some(DownloadError::Head)
    }
}

/// What the HEAD probe learned about the remote object.
#[derive(PartialEq, Eq, Structural, Clone, Copy, Debug)]
pub struct RemoteFile {
    pub total_length: u64,
    pub support_range_download: bool,
    pub last_modified_time: i64,
}

/// The Unix timestamp an RFC 2822 date string denotes, or nothing when the
/// string does not parse.  It depends on the characters alone.
pub uninterp spec fn rfc2822_epoch_seconds(s: Seq<char>) -> Option<i64>;

/// Relies on `chrono::DateTime::parse_from_rfc2822` and
/// `chrono::DateTime::timestamp`: parsing an RFC 2822 date and reading its
/// Unix timestamp is a pure function of the string.
#[verifier::external_body]
fn parse_rfc2822_timestamp(s: &str) -> (r: Option<i64>)
    ensures
        r == rfc2822_epoch_seconds(s@),
{
    match chrono::DateTime::parse_from_rfc2822(s) {
        Ok(datetime) => Some(datetime.timestamp()),
        Err(_) => None,
    }
}

/// The bytes of the token `bytes`, the only `Accept-Ranges` value that turns
/// range downloads on.
pub open spec fn spec_is_bytes_token(v: Seq<u8>) -> bool {
    v == seq![98u8, 121u8, 116u8, 101u8, 115u8]
}

fn is_bytes_token(v: &Vec<u8>) -> (r: bool)
    ensures
        r == spec_is_bytes_token(v@),
{
    let r = v.len() == 5 && v[0] == 98 && v[1] == 121 && v[2] == 116 && v[3] == 101 && v[4]
        == 115;
    proof {
        if r {
            assert(v@ =~= seq![98u8, 121u8, 116u8, 101u8, 115u8]);
        }
    }
    r
}

/// The total length a `Content-Length` header value denotes: its decimal
/// value when it is a non-empty digit string that fits in a `u64`, else 0.
pub open spec fn spec_content_length_of(v: Option<Vec<u8>>) -> u64 {
    match v {
        Option::Some(b) => if b@.len() > 0 && spec_all_digits(b@) && spec_dec_value(b@)
            <= u64::MAX {
            spec_dec_value(b@) as u64
        } else {
            0
        },
        Option::None => 0,
    }
}

/// The timestamp a `Last-Modified` header value denotes: the Unix seconds of
/// the RFC 2822 date, 0 when absent or unparseable.
pub open spec fn spec_last_modified_of(v: Option<String>) -> i64 {
    match v {
        Option::Some(s) => match rfc2822_epoch_seconds(s@) {
            Option::Some(t) => t,
            Option::None => 0,
        },
        Option::None => 0,
    }
}

impl RemoteFile {
    /// Reads the three headers of the HEAD response, handed in as plain
    /// values: `Accept-Ranges` (range support exactly when it is `bytes`),
    /// `Content-Length` (decimal byte count, 0 when absent or malformed) and
    /// `Last-Modified` (RFC 2822 date as Unix seconds, 0 when absent or
    /// unparseable).
    pub fn new(
        accept_ranges: Option<Vec<u8>>,
        content_length: Option<Vec<u8>>,
        last_modified: Option<String>,
    ) -> (r: RemoteFile)
        ensures
            r.support_range_download == (accept_ranges matches Some(v) && spec_is_bytes_token(
                v@,
            )),
            r.total_length == spec_content_length_of(content_length),
            r.last_modified_time == spec_last_modified_of(last_modified),
    {
        let support_range_download = match &accept_ranges {
            Some(v) => is_bytes_token(v),
            None => false,
        };
        let total_length = match &content_length {
            Some(b) => match parse_u64_dec(b) {
                Some(length) => length,
                None => 0,
            },
            None => 0,
        };
        let last_modified_time = match &last_modified {
            Some(s) => match parse_rfc2822_timestamp(s.as_str()) {
                Some(t) => t,
                None => 0,
            },
            None => 0,
        };
        RemoteFile { total_length, support_range_download, last_modified_time }
    }
}

} // verus!
