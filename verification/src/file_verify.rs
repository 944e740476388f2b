use vstd::prelude::*;
use crate::error::DownloadError;

verus! {

/// The digest a finished download is checked against.  `NoVerify` skips the
/// check; the taxonomy is open for other digests.
#[allow(non_camel_case_types)]
#[derive(PartialEq, Eq, Structural, Clone, Copy, Debug)]
pub enum FileVerify {
    NoVerify,
    xxHash(u64),
}

/// The 64-bit xxHash digest of `data` under `seed`.  It depends on the bytes
/// and the seed alone; nothing more is assumed of it.
pub uninterp spec fn xxh64_of(data: Seq<u8>, seed: u64) -> u64;

/// Relies on `xxhash_rust::xxh64::xxh64`: the one-shot digest is a pure
/// function of the input bytes and the seed.
#[verifier::external_body]
pub fn calculate_file_xxhash(data: &Vec<u8>, seed: u64) -> (r: u64)
    ensures
        r == xxh64_of(data@, seed),
{
    xxhash_rust::xxh64::xxh64(data.as_slice(), seed)
}

/// Checks downloaded bytes against the configured digest: succeeds exactly
/// when no digest is configured or the xxHash of the bytes (seed 0) equals
/// the expected value; a mismatch is the `FileVerify` error.
pub fn file_validate(file_verify: &FileVerify, data: &Vec<u8>) -> (r: Result<(), DownloadError>)
    ensures
        r is Ok <==> match *file_verify {
            FileVerify::NoVerify => true,
            FileVerify::xxHash(expected) => xxh64_of(data@, 0) == expected,
        },
        r matches Err(e) ==> e == DownloadError::FileVerify,
{
    match file_verify {
        FileVerify::NoVerify => Ok(()),
        FileVerify::xxHash(value) => {
            let hash = calculate_file_xxhash(data, 0);
            if hash != *value {
                return Err(DownloadError::FileVerify);
            }
            Ok(())
        },
    }
}

} // verus!
