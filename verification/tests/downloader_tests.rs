use downloader::download_configuration::DownloadConfiguration;
use downloader::download_status::DownloadFile;
use downloader::download_status::DownloadStatus;
use downloader::downloader::Downloader;
use downloader::file_verify::FileVerify;

fn config_with_digest(digest: Option<u64>) -> downloader::download_configuration::DownloadConfiguration {
    let builder = DownloadConfiguration::new()
        .set_url("http://host/file.bin")
        .set_file_path("dl.bin");
    let builder = match digest {
        Some(d) => builder.set_file_verify(FileVerify::xxHash(d)),
        None => builder,
    };
    builder.build().unwrap()
}

#[test]
fn success_path_with_verification() {
    let mut job = Downloader::new(config_with_digest(Some(1)));
    assert_eq!(job.status(), DownloadStatus::Idle);
    assert!(!job.is_done());
    job.pending();
    assert!(job.is_pending());
    job.begin_head();
    assert_eq!(job.status(), DownloadStatus::Head);
    job.begin_download(1024);
    assert_eq!(job.status(), DownloadStatus::Download(DownloadFile::File));
    assert_eq!(job.total_size(), 1024);
    job.begin_post();
    assert_eq!(job.status(), DownloadStatus::DownloadPost);
    assert!(job.needs_verify());
    job.begin_verify();
    assert_eq!(job.status(), DownloadStatus::FileVerify);
    job.complete();
    assert_eq!(job.status(), DownloadStatus::Complete);
    assert!(job.is_done());
}

#[test]
fn success_path_without_verification() {
    let mut job = Downloader::new(config_with_digest(None));
    job.pending();
    job.begin_head();
    job.begin_download(1024);
    job.begin_post();
    assert!(!job.needs_verify());
    job.complete();
    assert_eq!(job.status(), DownloadStatus::Complete);
}

#[test]
fn failure_interrupts_download() {
    let mut job = Downloader::new(config_with_digest(None));
    job.pending();
    job.begin_head();
    job.begin_download(1024);
    job.fail();
    assert_eq!(job.status(), DownloadStatus::Failed);
    assert!(job.is_done());
}

#[test]
fn stop_preserves_terminal_states() {
    let mut job = Downloader::new(config_with_digest(None));
    job.pending();
    job.begin_head();
    job.stop();
    assert_eq!(job.status(), DownloadStatus::Stop);
    // a stopped job can be re-queued
    job.pending();
    assert!(job.is_pending());
    // but a completed one keeps its state
    let mut done = Downloader::new(config_with_digest(None));
    done.pending();
    done.begin_head();
    done.begin_download(10);
    done.begin_post();
    done.complete();
    done.stop();
    assert_eq!(done.status(), DownloadStatus::Complete);
}

#[test]
fn status_messages_render() {
    assert_eq!(DownloadStatus::Idle.message(), "None");
    assert_eq!(DownloadStatus::Download(DownloadFile::File).message(), "Download File");
    assert_eq!(DownloadStatus::Download(DownloadFile::Patch).message(), "Download Patch");
    assert_eq!(DownloadStatus::Complete.message(), "Complete");
    assert_eq!(DownloadFile::Patch.message(), "Patch");
}

#[test]
fn chart_steps_are_recognised() {
    assert!(DownloadStatus::Idle.transition_allowed(&DownloadStatus::Pending));
    assert!(DownloadStatus::Pending.transition_allowed(&DownloadStatus::Head));
    assert!(DownloadStatus::Stop.transition_allowed(&DownloadStatus::Pending));
    assert!(DownloadStatus::DownloadPost.transition_allowed(&DownloadStatus::Complete));
    assert!(!DownloadStatus::Complete.transition_allowed(&DownloadStatus::Pending));
    assert!(!DownloadStatus::Head.transition_allowed(&DownloadStatus::Pending));
    assert!(!DownloadStatus::Complete.transition_allowed(&DownloadStatus::Stop));
}

#[test]
fn chart_walk_steps_forward() {
    assert_eq!(
        DownloadStatus::Head.step_toward(&DownloadStatus::Complete),
        Some(DownloadStatus::Download(DownloadFile::File))
    );
    assert_eq!(
        DownloadStatus::Download(DownloadFile::File).step_toward(&DownloadStatus::Complete),
        Some(DownloadStatus::DownloadPost)
    );
    assert_eq!(
        DownloadStatus::DownloadPost.step_toward(&DownloadStatus::Complete),
        Some(DownloadStatus::Complete)
    );
    assert_eq!(
        DownloadStatus::DownloadPost.step_toward(&DownloadStatus::FileVerify),
        Some(DownloadStatus::FileVerify)
    );
    assert_eq!(DownloadStatus::Head.step_toward(&DownloadStatus::Stop), Some(DownloadStatus::Stop));
    assert_eq!(
        DownloadStatus::Head.step_toward(&DownloadStatus::Failed),
        Some(DownloadStatus::Failed)
    );
    assert_eq!(DownloadStatus::Complete.step_toward(&DownloadStatus::Stop), None);
    assert_eq!(DownloadStatus::Complete.step_toward(&DownloadStatus::Complete), None);
    assert_eq!(DownloadStatus::Pending.step_toward(&DownloadStatus::Head), None);
}

#[test]
fn status_codes_round_trip() {
    let all = [
        DownloadStatus::Idle,
        DownloadStatus::Pending,
        DownloadStatus::Head,
        DownloadStatus::Download(DownloadFile::File),
        DownloadStatus::Download(DownloadFile::Patch),
        DownloadStatus::DownloadPost,
        DownloadStatus::FileVerify,
        DownloadStatus::Complete,
        DownloadStatus::Failed,
        DownloadStatus::Stop,
    ];
    for (code, status) in all.iter().enumerate() {
        assert_eq!(status.to_u8(), code as u8);
        assert_eq!(DownloadStatus::from_u8(code as u8), *status);
    }
    assert_eq!(DownloadStatus::from_u8(200), DownloadStatus::Idle);
}
