use downloader::download_service::DownloadService;
use downloader::download_status::DownloadFile;
use downloader::download_status::DownloadStatus;

#[test]
fn scheduler_respects_parallel_bound() {
    // five jobs, limit two: at most two leave Pending
    let mut service = DownloadService::new();
    service.set_parallel_count(2);
    for _ in 0..5 {
        service.add_downloader();
    }
    service.tick();
    assert_eq!(service.active_ids().len(), 2);
    assert_eq!(service.status_of(0), DownloadStatus::Head);
    assert_eq!(service.status_of(1), DownloadStatus::Head);
    for id in 2..5 {
        assert_eq!(service.status_of(id), DownloadStatus::Pending);
    }
}

#[test]
fn lowering_the_limit_preempts() {
    let mut service = DownloadService::new();
    service.set_parallel_count(2);
    for _ in 0..3 {
        service.add_downloader();
    }
    service.tick();
    assert_eq!(service.active_ids().len(), 2);
    // shrink mid-flight: exactly one active job returns to Pending
    service.set_parallel_count(1);
    service.tick();
    assert_eq!(service.active_ids().len(), 1);
    let demoted = (0..3).filter(|id| service.status_of(*id) == DownloadStatus::Pending).count();
    assert_eq!(demoted, 2);
    let running = (0..3).filter(|id| service.status_of(*id) == DownloadStatus::Head).count();
    assert_eq!(running, 1);
}

#[test]
fn finished_jobs_leave_the_active_set() {
    let mut service = DownloadService::new();
    service.set_parallel_count(1);
    service.add_downloader();
    service.add_downloader();
    service.tick();
    assert_eq!(service.active_ids().len(), 1);
    assert_eq!(service.status_of(0), DownloadStatus::Head);
    // the runtime reports job 0 finishing; one tick frees the slot and the
    // next one starts job 1
    service.update_status(0, DownloadStatus::Download(DownloadFile::File));
    service.update_status(0, DownloadStatus::DownloadPost);
    service.update_status(0, DownloadStatus::Complete);
    service.tick();
    assert_eq!(service.active_ids().len(), 0);
    service.tick();
    assert_eq!(service.active_ids().len(), 1);
    assert_eq!(service.status_of(1), DownloadStatus::Head);
    assert_eq!(service.status_of(0), DownloadStatus::Complete);
}

#[test]
fn stopping_the_service() {
    let mut service = DownloadService::new();
    assert!(!service.is_finished());
    service.stop();
    assert!(service.is_finished());
}

#[test]
fn defaults_match_documentation() {
    let service = DownloadService::new().set_multi_thread(true).set_worker_thread_count(8);
    assert!(!service.is_finished());
    assert_eq!(service.active_ids().len(), 0);
}
