use downloader::chunk::Chunk;
use downloader::chunk::VALIDATE_LENGTH_OVERRUN;
use downloader::chunk::VALIDATE_NO_END;
use downloader::chunk::VALIDATE_NO_FILE;
use downloader::chunk::VALIDATE_OK;
use downloader::chunk_range::ChunkRange;

#[test]
fn memory_chunk_collects_bytes() {
    // in-memory mode: 16 bytes arrive and come back verbatim
    let mut chunk = Chunk::from_memory(ChunkRange::from_start_end(0, 15));
    chunk.setup().unwrap();
    chunk.received_bytes(&vec![1, 2, 3, 4, 5, 6, 7, 8]).unwrap();
    chunk.received_bytes(&vec![9, 10, 11, 12, 13, 14, 15, 16]).unwrap();
    assert_eq!(chunk.get_downloaded_size(), 16);
    assert!(chunk.chunk_range.eof());
    let bytes = chunk.bytes().unwrap();
    assert_eq!(bytes, vec![1, 2, 3, 4, 5, 6, 7, 8, 9, 10, 11, 12, 13, 14, 15, 16]);
}

#[test]
fn file_chunk_advances_position_only() {
    let mut chunk = Chunk::from_file("dl.bin.chunk0".to_string(), ChunkRange::from_start_end(0, 99), true);
    chunk.setup().unwrap();
    chunk.received_bytes(&vec![0u8; 40]).unwrap();
    assert_eq!(chunk.get_downloaded_size(), 40);
    assert_eq!(chunk.chunk_range.position, 40);
    assert!(chunk.bytes().is_none());
}

#[test]
fn validate_resumes_partial_file() {
    let mut chunk = Chunk::from_file("dl.bin.chunk0".to_string(), ChunkRange::from_start_end(100, 199), true);
    let code = chunk.validate(Some(30));
    assert_eq!(code, VALIDATE_OK);
    assert_eq!(chunk.chunk_range.position, 130);
    assert!(!chunk.valid);
}

#[test]
fn validate_accepts_complete_file() {
    let mut chunk = Chunk::from_file("dl.bin.chunk0".to_string(), ChunkRange::from_start_end(100, 199), true);
    let code = chunk.validate(Some(100));
    assert_eq!(code, VALIDATE_OK);
    assert_eq!(chunk.chunk_range.position, 200);
    assert!(chunk.valid);
}

#[test]
fn validate_rejects_overlong_file() {
    let mut chunk = Chunk::from_file("dl.bin.chunk0".to_string(), ChunkRange::from_start_end(100, 199), true);
    let code = chunk.validate(Some(101));
    assert_eq!(code, VALIDATE_LENGTH_OVERRUN);
    assert_eq!(chunk.chunk_range.position, 100);
    assert!(!chunk.valid);
}

#[test]
fn validate_without_file_or_end() {
    let mut chunk = Chunk::from_file("dl.bin.chunk0".to_string(), ChunkRange::from_start_end(100, 199), true);
    assert_eq!(chunk.validate(None), VALIDATE_NO_FILE);
    let mut empty = Chunk::from_file("dl.bin.chunk0".to_string(), ChunkRange::from_start_end(0, 0), true);
    assert_eq!(empty.validate(Some(5)), VALIDATE_NO_END);
}

#[test]
fn default_chunk_is_blank() {
    let chunk = Chunk::default();
    assert!(chunk.file_path.is_none());
    assert!(chunk.bytes.is_none());
    assert!(!chunk.download_in_memory);
    assert!(!chunk.range_download);
    assert!(!chunk.valid);
}
