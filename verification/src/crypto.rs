//! Digests, checksums and randomness supplied by outside collaborators:
//! MD5, CRC-32 (ISO-HDLC), HMAC-SHA256 and a thread-local random source.
//! Each call is wrapped in one trusted function whose contract names the
//! result; everything downstream is verified against those names.

use vstd::prelude::*;
use hmac::Mac;
use md5::Digest;
use nanorand::Rng;

verus! {

/// The 16-byte MD5 digest of a byte string.
pub uninterp spec fn md5_of(data: Seq<u8>) -> Seq<u8>;

/// The CRC-32 checksum (ISO-HDLC polynomial, reflected, init and xorout
/// `0xFFFFFFFF`) of a byte string.
pub uninterp spec fn crc32_of(data: Seq<u8>) -> u32;

/// The 32-byte HMAC-SHA256 tag over a message under a key.
pub uninterp spec fn hmac_sha256_of(key: Seq<u8>, msg: Seq<u8>) -> Seq<u8>;

/// Relies on md-5's `Md5`: the 16-byte digest depends on the input alone.
#[verifier::external_body]
pub fn calc_md5(data: &[u8]) -> (r: Vec<u8>)
    ensures
        r@ == md5_of(data@),
        r@.len() == 16,
{
    let mut hasher = md5::Md5::new();
    hasher.update(data);
    hasher.finalize().to_vec()
}

/// Relies on crc's `Crc::<u32>::checksum` with the ISO-HDLC catalog entry:
/// the checksum depends on the input alone.
#[verifier::external_body]
pub fn calc_crc32(data: &[u8]) -> (r: u32)
    ensures
        r == crc32_of(data@),
{
    let crc = crc::Crc::<u32>::new(&crc::CRC_32_ISO_HDLC);
    crc.checksum(data)
}

/// The CRC-32 checksum of a byte string, as its four big-endian bytes.
pub fn calc_crc32_bytes(data: &[u8]) -> (r: Vec<u8>)
    ensures
        r@ == crate::endian::spec_u32_be(crc32_of(data@)),
        r@.len() == 4,
{
    let mut out: Vec<u8> = Vec::new();
    crate::endian::push_u32_be(&mut out, calc_crc32(data));
    proof {
        assert(out@ =~= crate::endian::spec_u32_be(crc32_of(data@)));
    }
    out
}

/// Relies on nanorand's thread-local `WyRand`: nothing is promised of the
/// bytes but their count.
#[verifier::external_body]
pub fn generate_random_bytes(size: usize) -> (r: Vec<u8>)
    ensures
        r@.len() == size,
{
    let mut rng = nanorand::tls_rng();
    let mut buffer = vec![0u8; size];
    rng.fill_bytes(buffer.as_mut_slice());
    buffer
}

/// Relies on hmac's `Hmac<Sha256>`: the 32-byte tag depends on the key and
/// message alone, and any key length is accepted.
#[verifier::external_body]
pub fn hmac_sha256(key: &[u8], msg: &[u8]) -> (r: Vec<u8>)
    ensures
        r@ == hmac_sha256_of(key@, msg@),
        r@.len() == 32,
{
    let mut mac = <hmac::Hmac<sha2::Sha256> as hmac::KeyInit>::new_from_slice(key)
        .expect("HMAC accepts keys of any length");
    mac.update(msg);
    mac.finalize().into_bytes().to_vec()
}

} // verus!
