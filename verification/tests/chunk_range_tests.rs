use downloader::chunk_operation::ChunkOperation;
use downloader::chunk_range::ChunkRange;

#[test]
fn partition_single_range() {
    let ranges = ChunkRange::from_chunk_count(1024, 1, 5242880);
    assert_eq!(ranges.len(), 1);
    assert_eq!(ranges[0].start, 0);
    assert_eq!(ranges[0].end, 1023);
    assert_eq!(ranges[0].position, 0);
    assert_eq!(ranges[0].chunk_length(), 1024);
}

#[test]
fn partition_exact_multiple() {
    // 10 MiB in 5 MiB chunks: two ranges meeting exactly
    let ranges = ChunkRange::from_chunk_count(10485760, 2, 5242880);
    assert_eq!(ranges.len(), 2);
    assert_eq!(ranges[0].start, 0);
    assert_eq!(ranges[0].end, 5242879);
    assert_eq!(ranges[1].start, 5242880);
    assert_eq!(ranges[1].end, 10485759);
    let total: u64 = ranges.iter().map(|r| r.chunk_length()).sum();
    assert_eq!(total, 10485760);
}

#[test]
fn partition_non_divisible() {
    // 11 MiB in 5 MiB chunks: three ranges, the last 1 MiB
    let ranges = ChunkRange::from_chunk_count(11534336, 3, 5242880);
    assert_eq!(ranges.len(), 3);
    assert_eq!(ranges[0].start, 0);
    assert_eq!(ranges[0].end, 5242879);
    assert_eq!(ranges[1].start, 5242880);
    assert_eq!(ranges[1].end, 10485759);
    assert_eq!(ranges[2].start, 10485760);
    assert_eq!(ranges[2].end, 11534335);
    assert_eq!(ranges[2].chunk_length(), 1048576);
    let total: u64 = ranges.iter().map(|r| r.chunk_length()).sum();
    assert_eq!(total, 11534336);
}

#[test]
fn partition_empty_object() {
    let ranges = ChunkRange::from_chunk_count(0, 1, 5242880);
    assert_eq!(ranges.len(), 1);
    assert_eq!(ranges[0].start, 0);
    assert_eq!(ranges[0].end, 0);
    assert_eq!(ranges[0].chunk_length(), 0);
}

#[test]
fn range_length_and_eof() {
    let mut range = ChunkRange::from_start_end(100, 199);
    assert_eq!(range.position, 100);
    assert_eq!(range.length(), 0);
    assert_eq!(range.chunk_length(), 100);
    assert!(!range.eof());
    range.set_position(150);
    assert_eq!(range.length(), 50);
    assert!(!range.eof());
    range.set_position(200);
    assert_eq!(range.length(), 100);
    assert!(range.eof());
}

#[test]
fn degenerate_range_has_no_length() {
    let range = ChunkRange::from_start_end(5, 5);
    assert_eq!(range.chunk_length(), 0);
    let range = ChunkRange::from_start_end(7, 3);
    assert_eq!(range.chunk_length(), 0);
}

#[test]
fn completed_partition_sums_to_total() {
    // every range fully received: the downloaded bytes add up to the object
    let mut ranges = ChunkRange::from_chunk_count(11534336, 3, 5242880);
    let mut sum: u64 = 0;
    for range in ranges.iter_mut() {
        let end = range.end;
        range.set_position(end + 1);
        sum += range.length();
    }
    assert_eq!(sum, 11534336);
}

#[test]
fn default_range_is_zeroed() {
    let range = ChunkRange::default();
    assert_eq!(range.start, 0);
    assert_eq!(range.end, 0);
    assert_eq!(range.position, 0);
}

#[test]
fn operation_tracks_chunk() {
    let mut range = ChunkRange::from_start_end(0, 99);
    range.set_position(40);
    let mut op = ChunkOperation::with_chunk(&range);
    assert_eq!(op.get_total_size(), 100);
    assert_eq!(op.get_downloaded_size(), 40);
    op.set_downloaded_size(60);
    op.set_total_size(120);
    assert_eq!(op.get_downloaded_size(), 60);
    assert_eq!(op.get_total_size(), 120);
}

#[test]
fn operation_default_is_zeroed() {
    let mut op = ChunkOperation::default();
    assert_eq!(op.get_downloaded_size(), 0);
    assert_eq!(op.get_total_size(), 0);
}
