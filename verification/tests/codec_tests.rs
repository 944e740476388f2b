use downloader::chunk_metadata::decode_version;
use downloader::chunk_metadata::encode_version;
use downloader::chunk_metadata::metadata_path_of;
use downloader::decimal::parse_u64_dec;
use downloader::decimal::u64_to_dec_str;

#[test]
fn version_seven_encodes_little_endian() {
    assert_eq!(encode_version(7), vec![7, 0, 0, 0, 0, 0, 0, 0]);
}

#[test]
fn negative_versions_encode_twos_complement() {
    assert_eq!(encode_version(-1), vec![255u8; 8]);
    assert_eq!(encode_version(-123456789), vec![235, 50, 164, 248, 255, 255, 255, 255]);
}

#[test]
fn version_round_trips() {
    for v in [0i64, 1, 7, -1, -123456789, i64::MAX, i64::MIN, 1445412480] {
        assert_eq!(decode_version(&encode_version(v)), v);
    }
}

#[test]
fn short_sidecar_reads_as_version_zero() {
    assert_eq!(decode_version(&vec![]), 0);
    assert_eq!(decode_version(&vec![1, 2, 3]), 0);
    assert_eq!(decode_version(&vec![0u8; 9]), 0);
}

#[test]
fn metadata_path_appends_suffix() {
    assert_eq!(metadata_path_of("dir/file.bin"), "dir/file.bin.metadata");
}

#[test]
fn decimal_rendering_is_exact() {
    assert_eq!(u64_to_dec_str(0), "0");
    assert_eq!(u64_to_dec_str(7), "7");
    assert_eq!(u64_to_dec_str(1024), "1024");
    assert_eq!(u64_to_dec_str(u64::MAX), "18446744073709551615");
}

#[test]
fn decimal_parsing_accepts_digit_strings() {
    assert_eq!(parse_u64_dec(&b"0".to_vec()), Some(0));
    assert_eq!(parse_u64_dec(&b"1024".to_vec()), Some(1024));
    assert_eq!(parse_u64_dec(&b"18446744073709551615".to_vec()), Some(u64::MAX));
}

#[test]
fn decimal_parsing_rejects_bad_input() {
    assert_eq!(parse_u64_dec(&vec![]), None);
    assert_eq!(parse_u64_dec(&b"12a4".to_vec()), None);
    assert_eq!(parse_u64_dec(&b"-5".to_vec()), None);
    assert_eq!(parse_u64_dec(&b"18446744073709551616".to_vec()), None);
}
