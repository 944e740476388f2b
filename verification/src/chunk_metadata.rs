use vstd::prelude::*;
use vstd::bytes::lemma_auto_spec_u64_to_from_le_bytes;
use vstd::bytes::spec_u64_from_le_bytes;
use vstd::bytes::spec_u64_to_le_bytes;
use vstd::bytes::u64_from_le_bytes;
use vstd::bytes::u64_to_le_bytes;

verus! {

/// The two's-complement image of a version number in a `u64`.
pub open spec fn spec_version_as_u64(v: i64) -> u64 {
    if v >= 0 {
        v as u64
    } else {
        (v + 0x1_0000_0000_0000_0000) as u64
    }
}

/// The version number a `u64` image stands for.
pub open spec fn spec_version_of_u64(u: u64) -> i64 {
    if u < 0x8000_0000_0000_0000 {
        u as i64
    } else {
        (u - 0x1_0000_0000_0000_0000) as i64
    }
}

/// The eight little-endian bytes of the `.metadata` sidecar for version `v`.
pub open spec fn spec_version_bytes(v: i64) -> Seq<u8> {
    spec_u64_to_le_bytes(spec_version_as_u64(v))
}

/// The version a sidecar's bytes hold: the little-endian signed 64-bit value
/// of exactly eight bytes; anything shorter or longer counts as absent,
/// version 0.
pub open spec fn spec_version_of_bytes(b: Seq<u8>) -> i64 {
    if b.len() != 8 {
        0
    } else {
        spec_version_of_u64(spec_u64_from_le_bytes(b))
    }
}

/// Encodes a version number as the eight little-endian sidecar bytes.
pub fn encode_version(version: i64) -> (r: Vec<u8>)
    ensures
        r@ == spec_version_bytes(version),
        r@.len() == 8,
{
    let u: u64 = if version >= 0 {
        version as u64
    } else if version == i64::MIN {
        0x8000_0000_0000_0000u64
    } else {
        let mag: u64 = (-version) as u64;
        (u64::MAX - mag) + 1
    };
    proof {
        assert(u == spec_version_as_u64(version));
        lemma_auto_spec_u64_to_from_le_bytes();
    }
    u64_to_le_bytes(u)
}

/// Decodes sidecar bytes back into a version number; anything that is not
/// exactly eight bytes reads as version 0.
pub fn decode_version(bytes: &Vec<u8>) -> (r: i64)
    ensures
        r == spec_version_of_bytes(bytes@),
{
    if bytes.len() != 8 {
        return 0;
    }
    let u: u64 = u64_from_le_bytes(bytes.as_slice());
    if u < 0x8000_0000_0000_0000 {
        u as i64
    } else {
        let mag: u64 = u64::MAX - u;
        -(mag as i64) - 1
    }
}

/// Encoding a version and decoding the bytes gives the version back.
pub proof fn lemma_version_round_trip(v: i64)
    ensures
        spec_version_of_bytes(spec_version_bytes(v)) == v,
{
    lemma_auto_spec_u64_to_from_le_bytes();
    assert(spec_version_of_u64(spec_version_as_u64(v)) == v);
}

/// The sidecar's path: `<path>.metadata`.
pub fn metadata_path_of(path: &str) -> (r: String)
    ensures
        r@ == path@ + ".metadata"@,
{
    String::from_str(path).concat(".metadata")
}

} // verus!
