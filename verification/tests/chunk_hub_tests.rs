use downloader::chunk_hub::chunk_count;
use downloader::chunk_hub::chunk_file_path;
use downloader::chunk_hub::initial_downloaded_size;
use downloader::chunk_hub::merge_chunk_buffers;
use downloader::chunk_hub::on_download_post;
use downloader::chunk_hub::validate;
use downloader::download_configuration::DownloadConfiguration;
use downloader::remote_file::RemoteFile;

fn chunked_config(remote_version: i64) -> downloader::download_configuration::DownloadConfiguration {
    DownloadConfiguration::new()
        .set_url("http://host/file.bin")
        .set_file_path("dl.bin")
        .set_chunk_download(true)
        .set_chunk_size(5242880)
        .set_remote_version(remote_version)
        .build()
        .unwrap()
}

fn remote(total_length: u64) -> RemoteFile {
    RemoteFile { total_length, support_range_download: true, last_modified_time: 99 }
}

#[test]
fn chunk_count_follows_capabilities() {
    let config = chunked_config(0);
    assert_eq!(chunk_count(&config, &remote(10485760)), 2);
    assert_eq!(chunk_count(&config, &remote(11534336)), 3);
    assert_eq!(chunk_count(&config, &remote(1024)), 1);
    assert_eq!(chunk_count(&config, &remote(0)), 1);
    let unranged = RemoteFile { support_range_download: false, ..remote(10485760) };
    assert_eq!(chunk_count(&config, &unranged), 1);
    let plain = DownloadConfiguration::new()
        .set_url("http://host/file.bin")
        .set_file_path("dl.bin")
        .build()
        .unwrap();
    assert_eq!(chunk_count(&plain, &remote(10485760)), 1);
}

#[test]
fn chunk_paths_use_temp_or_index() {
    let config = chunked_config(0);
    assert_eq!(chunk_file_path(&config, 1, 0), "dl.bin.temp");
    assert_eq!(chunk_file_path(&config, 3, 0), "dl.bin.chunk0");
    assert_eq!(chunk_file_path(&config, 3, 2), "dl.bin.chunk2");
}

#[test]
fn fresh_download_deletes_leftovers() {
    // no local version recorded: everything on disk is stale
    let config = chunked_config(7);
    let (plans, version) = validate(&config, &remote(11534336), 0, &vec![None, Some(10), None]);
    assert_eq!(version, 7);
    assert_eq!(plans.len(), 3);
    for plan in &plans {
        assert!(plan.delete_existing);
        assert!(!plan.chunk.valid);
        assert_eq!(plan.chunk.chunk_range.position, plan.chunk.chunk_range.start);
    }
}

#[test]
fn stale_version_forces_redownload() {
    // the sidecar said 7 but the caller now expects 8: all chunk files go
    let config = chunked_config(8);
    let disk = vec![Some(5242880), Some(5242880), Some(1048576)];
    let (plans, version) = validate(&config, &remote(11534336), 7, &disk);
    assert_eq!(version, 8);
    for plan in &plans {
        assert!(plan.delete_existing);
        assert!(!plan.chunk.valid);
    }
}

#[test]
fn matching_version_resumes() {
    // two of three chunks already complete, the third half done
    let config = chunked_config(7);
    let disk = vec![Some(5242880), Some(5242880), Some(100000)];
    let (plans, version) = validate(&config, &remote(11534336), 7, &disk);
    assert_eq!(version, 7);
    assert!(plans[0].chunk.valid);
    assert!(plans[1].chunk.valid);
    assert!(!plans[2].chunk.valid);
    assert!(!plans[0].delete_existing);
    assert!(!plans[1].delete_existing);
    assert!(!plans[2].delete_existing);
    assert_eq!(plans[2].chunk.chunk_range.position, 10485760 + 100000);
    assert_eq!(initial_downloaded_size(&plans), 5242880 + 5242880 + 100000);
}

#[test]
fn overlong_chunk_file_is_deleted() {
    let config = chunked_config(7);
    let disk = vec![Some(5242881), None, None];
    let (plans, _) = validate(&config, &remote(11534336), 7, &disk);
    assert!(plans[0].delete_existing);
    assert_eq!(plans[0].chunk.chunk_range.position, 0);
    assert!(!plans[1].delete_existing);
    assert!(!plans[2].delete_existing);
}

#[test]
fn effective_version_falls_back_to_last_modified() {
    let config = chunked_config(0);
    let (_, version) = validate(&config, &remote(1024), 0, &vec![None]);
    assert_eq!(version, 99);
}

#[test]
fn memory_mode_plans_one_memory_chunk() {
    let config = DownloadConfiguration::new()
        .set_url("http://host/file.bin")
        .set_download_in_memory(true)
        .build()
        .unwrap();
    let (plans, _) = validate(&config, &remote(16), 0, &vec![None]);
    assert_eq!(plans.len(), 1);
    assert!(plans[0].chunk.download_in_memory);
    assert!(plans[0].chunk.file_path.is_none());
    assert!(!plans[0].delete_existing);
}

#[test]
fn merge_concatenates_in_order() {
    let buffers = vec![vec![1, 2, 3], vec![], vec![4, 5], vec![6]];
    assert_eq!(merge_chunk_buffers(&buffers), vec![1, 2, 3, 4, 5, 6]);
    assert_eq!(merge_chunk_buffers(&vec![]), Vec::<u8>::new());
}

#[test]
fn post_plan_depends_on_mode_and_count() {
    let config = chunked_config(0);
    let plan = on_download_post(&config, 3);
    assert!(plan.merge_chunks);
    assert!(plan.delete_metadata);
    let plan = on_download_post(&config, 1);
    assert!(!plan.merge_chunks);
    assert!(plan.delete_metadata);
    let memory = DownloadConfiguration::new()
        .set_url("http://host/file.bin")
        .set_download_in_memory(true)
        .build()
        .unwrap();
    let plan = on_download_post(&memory, 1);
    assert!(!plan.merge_chunks);
    assert!(!plan.delete_metadata);
}
