use downloader::download_configuration::DownloadConfiguration;
use downloader::download_task::FetchFailure;
use downloader::download_task::on_fetch_failure;
use downloader::download_task::range_header_value;
use downloader::download_operation::progress_per_mille;
use downloader::error::DownloadError;
use downloader::file_verify::FileVerify;

#[test]
fn builder_defaults() {
    let config = DownloadConfiguration::new()
        .set_url("http://host/file.bin")
        .set_download_in_memory(true)
        .build()
        .unwrap();
    assert_eq!(config.chunk_size, 5242880);
    assert!(config.range_download);
    assert!(!config.chunk_download);
    assert_eq!(config.remote_version, 0);
    assert_eq!(config.retry_times_on_failure, 0);
    assert_eq!(config.receive_bytes_per_second, 0);
    assert_eq!(config.timeout, 0);
    assert_eq!(config.file_verify, FileVerify::NoVerify);
}

#[test]
fn builder_records_every_option() {
    let config = DownloadConfiguration::new()
        .set_url("http://host/file.bin")
        .set_file_path("out/dl.bin")
        .set_remote_version(7)
        .set_range_download(false)
        .set_chunk_download(true)
        .set_chunk_size(1024)
        .set_retry_times_on_failure(2)
        .set_timeout(30)
        .set_download_speed_limit(1048576)
        .set_file_verify(FileVerify::xxHash(5))
        .build()
        .unwrap();
    assert_eq!(config.url(), "http://host/file.bin");
    assert_eq!(config.get_file_path(), "out/dl.bin");
    assert_eq!(config.get_file_temp_path(), "out/dl.bin.temp");
    assert_eq!(config.remote_version, 7);
    assert!(!config.range_download);
    assert!(config.chunk_download);
    assert_eq!(config.chunk_size, 1024);
    assert_eq!(config.retry_times_on_failure, 2);
    assert_eq!(config.timeout, 30);
    assert_eq!(config.receive_bytes_per_second, 1048576);
    assert_eq!(config.file_verify, FileVerify::xxHash(5));
}

#[test]
fn missing_url_is_a_config_error() {
    let result = DownloadConfiguration::new().build();
    match result {
        Err(DownloadError::Config(message)) => {
            assert_eq!(message, "Download address not configured.");
        },
        _ => panic!("expected a Config error"),
    }
}

#[test]
fn missing_path_is_a_config_error() {
    let result = DownloadConfiguration::new().set_url("http://host/file.bin").build();
    match result {
        Err(DownloadError::Config(message)) => {
            assert_eq!(message, "No download path specified.");
        },
        _ => panic!("expected a Config error"),
    }
}

#[test]
fn error_messages_render() {
    assert_eq!(DownloadError::FileVerify.message(), "FileVerify");
    assert_eq!(DownloadError::Head.message(), "Head");
    assert_eq!(
        DownloadError::Response("http://host/file.bin".to_string(), 404).message(),
        "http://host/file.bin response fail 404"
    );
    assert_eq!(
        DownloadError::FileRename("busy".to_string()).message(),
        "file rename fail busy"
    );
}

#[test]
fn range_header_resumes_at_position() {
    assert_eq!(range_header_value(0, 1023), "bytes=0-1023");
    assert_eq!(range_header_value(5242880, 10485759), "bytes=5242880-10485759");
}

#[test]
fn retries_are_counted_then_errors_surface() {
    let mut retry_count: u8 = 0;
    assert!(on_fetch_failure(&mut retry_count, 2, &FetchFailure::Transport, "http://h/f").is_none());
    assert!(on_fetch_failure(&mut retry_count, 2, &FetchFailure::Body, "http://h/f").is_none());
    assert_eq!(retry_count, 2);
    let err = on_fetch_failure(&mut retry_count, 2, &FetchFailure::Transport, "http://h/f");
    assert!(matches!(err, Some(DownloadError::Request)));
    let err = on_fetch_failure(&mut retry_count, 2, &FetchFailure::Status(404), "http://h/f");
    match err {
        Some(DownloadError::Response(url, code)) => {
            assert_eq!(url, "http://h/f");
            assert_eq!(code, 404);
        },
        _ => panic!("expected a Response error"),
    }
    let err = on_fetch_failure(&mut retry_count, 2, &FetchFailure::Body, "http://h/f");
    assert!(matches!(err, Some(DownloadError::ResponseChunk)));
}

#[test]
fn progress_is_clamped_per_mille() {
    assert_eq!(progress_per_mille(0, 0), 0);
    assert_eq!(progress_per_mille(512, 1024), 500);
    assert_eq!(progress_per_mille(1024, 1024), 1000);
    assert_eq!(progress_per_mille(2048, 1024), 1000);
    assert_eq!(progress_per_mille(1, 3), 333);
}

#[test]
fn progress_never_decreases() {
    let total: u64 = 11534336;
    let mut last: u64 = 0;
    for downloaded in (0..=total).step_by(524288) {
        let p = progress_per_mille(downloaded, total);
        assert!(p >= last);
        last = p;
    }
    assert_eq!(last, 1000);
}
