use downloader::error::DownloadError;
use downloader::remote_file::RemoteFile;
use downloader::remote_file::on_head_failure;

#[test]
fn head_headers_are_read() {
    let remote = RemoteFile::new(
        Some(b"bytes".to_vec()),
        Some(b"10485760".to_vec()),
        Some("Wed, 21 Oct 2015 07:28:00 GMT".to_string()),
    );
    assert!(remote.support_range_download);
    assert_eq!(remote.total_length, 10485760);
    assert_eq!(remote.last_modified_time, 1445412480);
}

#[test]
fn missing_headers_fall_back() {
    let remote = RemoteFile::new(None, None, None);
    assert!(!remote.support_range_download);
    assert_eq!(remote.total_length, 0);
    assert_eq!(remote.last_modified_time, 0);
}

#[test]
fn only_bytes_enables_ranges() {
    let remote = RemoteFile::new(Some(b"none".to_vec()), None, None);
    assert!(!remote.support_range_download);
    let remote = RemoteFile::new(Some(b"byte".to_vec()), None, None);
    assert!(!remote.support_range_download);
    let remote = RemoteFile::new(Some(b"bytes".to_vec()), None, None);
    assert!(remote.support_range_download);
}

#[test]
fn malformed_lengths_read_as_zero() {
    let remote = RemoteFile::new(None, Some(b"10MB".to_vec()), None);
    assert_eq!(remote.total_length, 0);
    let remote = RemoteFile::new(None, Some(b"".to_vec()), None);
    assert_eq!(remote.total_length, 0);
    let remote = RemoteFile::new(None, Some(b"99999999999999999999999".to_vec()), None);
    assert_eq!(remote.total_length, 0);
}

#[test]
fn unparseable_dates_read_as_zero() {
    let remote = RemoteFile::new(None, None, Some("yesterday".to_string()));
    assert_eq!(remote.last_modified_time, 0);
}

#[test]
fn epoch_matches_chrono() {
    // the same computation the library's date handling relies on
    let s = "Thu, 01 Jan 1970 00:00:01 GMT";
    let expected = chrono::DateTime::parse_from_rfc2822(s).unwrap().timestamp();
    let remote = RemoteFile::new(None, None, Some(s.to_string()));
    assert_eq!(remote.last_modified_time, expected);
    assert_eq!(remote.last_modified_time, 1);
}

#[test]
fn head_retries_then_fails() {
    let mut retry_count: u8 = 0;
    assert!(on_head_failure(&mut retry_count, 2).is_none());
    assert!(on_head_failure(&mut retry_count, 2).is_none());
    assert_eq!(retry_count, 2);
    assert!(matches!(on_head_failure(&mut retry_count, 2), Some(DownloadError::Head)));
    assert_eq!(retry_count, 2);
}
