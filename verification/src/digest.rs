//! Digests computed by outside crates: SHA-256 (`sha2`) and the two CRCs of
//! the VBF format (`crc`). Their results are named, not restated.
use sha2::Digest;
use vstd::prelude::*;

verus! {

/// The SHA-256 digest of `data`.
pub uninterp spec fn sha256_digest(data: Seq<u8>) -> Seq<u8>;

/// The CRC-32 of `data` with polynomial 0x04c11db7, initial value and final
/// xor 0xffffffff, input and output reflected (`crc::CRC_32_ISO_HDLC`).
pub uninterp spec fn crc32_checksum(data: Seq<u8>) -> u32;

/// The CRC-16 of `data` with polynomial 0x1021, initial value 0xffff, no
/// reflection and no final xor (`crc::CRC_16_IBM_3740`, CCITT-FALSE).
pub uninterp spec fn crc16_checksum(data: Seq<u8>) -> u16;

/// Calls `<sha2::Sha256 as Digest>::digest` (a fresh hasher fed `data` once,
/// then finalized). Trusted: the 32 bytes returned are the named digest of
/// `data`; nothing else is claimed of them.
#[verifier::external_body]
pub(crate) fn sha256(data: &[u8]) -> (r: [u8; 32])
    ensures
        r@ == sha256_digest(data@),
{
    sha2::Sha256::digest(data).into()
}

/// Calls `crc::Crc::<u32>::checksum` on an engine built from
/// `crc::CRC_32_ISO_HDLC`. Trusted: the result is the named CRC-32 of `data`.
#[verifier::external_body]
pub(crate) fn crc32(data: &[u8]) -> (r: u32)
    ensures
        r == crc32_checksum(data@),
{
    crc::Crc::<u32>::new(&crc::CRC_32_ISO_HDLC).checksum(data)
}

/// Calls `crc::Crc::<u16>::checksum` on an engine built from
/// `crc::CRC_16_IBM_3740`. Trusted: the result is the named CRC-16 of `data`.
#[verifier::external_body]
pub(crate) fn crc16(data: &[u8]) -> (r: u16)
    ensures
        r == crc16_checksum(data@),
{
    crc::Crc::<u16>::new(&crc::CRC_16_IBM_3740).checksum(data)
}

} // verus!
