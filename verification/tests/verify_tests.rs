use downloader::error::DownloadError;
use downloader::file_verify::FileVerify;
use downloader::file_verify::calculate_file_xxhash;
use downloader::file_verify::file_validate;

#[test]
fn xxhash_of_empty_input() {
    assert_eq!(calculate_file_xxhash(&vec![], 0), 0xef46db3751d8e999);
}

#[test]
fn xxhash_matches_direct_digest() {
    let data: Vec<u8> = (0u8..=255).cycle().take(10000).collect();
    let expected = xxhash_rust::xxh64::xxh64(&data, 0);
    assert_eq!(calculate_file_xxhash(&data, 0), expected);
    let seeded = xxhash_rust::xxh64::xxh64(&data, 42);
    assert_eq!(calculate_file_xxhash(&data, 42), seeded);
    assert_ne!(expected, seeded);
}

#[test]
fn matching_digest_validates() {
    let data = b"hello download".to_vec();
    let digest = xxhash_rust::xxh64::xxh64(&data, 0);
    assert!(file_validate(&FileVerify::xxHash(digest), &data).is_ok());
}

#[test]
fn mismatching_digest_is_rejected() {
    let data = b"hello download".to_vec();
    let digest = xxhash_rust::xxh64::xxh64(&data, 0);
    let result = file_validate(&FileVerify::xxHash(digest ^ 1), &data);
    assert!(matches!(result, Err(DownloadError::FileVerify)));
}

#[test]
fn no_digest_always_validates() {
    assert!(file_validate(&FileVerify::NoVerify, &b"anything".to_vec()).is_ok());
    assert!(file_validate(&FileVerify::NoVerify, &vec![]).is_ok());
}
