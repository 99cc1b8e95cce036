//! CRC32 integrity checking for uploaded application images.
//!
//! The digest itself comes from the `crc` crate; its value is named by
//! the uninterpreted function [`crc32_ieee`], so contracts elsewhere can
//! speak of "the CRC32 of these bytes" without restating the algorithm.

use vstd::prelude::*;

verus! {

/// The IEEE CRC32 of a byte sequence; the result depends on the bytes alone.
pub uninterp spec fn crc32_ieee(bytes: Seq<u8>) -> u32;

/// Relies on `crc::crc32::checksum_ieee`: the IEEE CRC32 of the slice.
#[verifier::external_body]
pub fn checksum_ieee(bytes: &[u8]) -> (digest: u32)
    ensures
        digest == crc32_ieee(bytes@),
{
    crc::crc32::checksum_ieee(bytes)
}

/// The four bytes of an image's CRC32, least significant first: the
/// order a sender stores them in before reversing them for the wire.
pub open spec fn checksum_bytes_of(image: Seq<u8>) -> Seq<u8> {
    let c = crc32_ieee(image);
    seq![
        (c & 0xff) as u8,
        ((c >> 8) & 0xff) as u8,
        ((c >> 16) & 0xff) as u8,
        ((c >> 24) & 0xff) as u8,
    ]
}

/// Round trip: reconstructing a digest from an image's checksum bytes,
/// reversed into the most-significant-first wire order, gives back the
/// image's CRC32.
pub proof fn lemma_digest_round_trip(image: Seq<u8>)
    ensures
        crate::application_manager::digest_of(checksum_bytes_of(image).reverse())
            == crc32_ieee(image),
{
    let c = crc32_ieee(image);
    let rev = checksum_bytes_of(image).reverse();
    assert((c >> 24) & 0xff < 0x100 && (c >> 16) & 0xff < 0x100 && (c >> 8) & 0xff < 0x100 && c
        & 0xff < 0x100) by (bit_vector);
    assert(rev.len() == 4);
    assert(rev[0] == ((c >> 24) & 0xff) as u8);
    assert(rev[1] == ((c >> 16) & 0xff) as u8);
    assert(rev[2] == ((c >> 8) & 0xff) as u8);
    assert(rev[3] == (c & 0xff) as u8);
    assert(((c >> 24) & 0xff) * 0x1000000 + ((c >> 16) & 0xff) * 0x10000 + ((c >> 8) & 0xff)
        * 0x100 + (c & 0xff) == c) by (bit_vector);
}

} // verus!
