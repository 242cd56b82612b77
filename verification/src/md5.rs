//! The MD5 digest, taken on trust from an outside implementation,
//! and a deterministic 32-bit fold of a digest that can seed the
//! handshake challenge.

use vstd::prelude::*;

use crypto::digest::Digest;

verus! {

/// The MD5 digest of a byte string. The digest's value is not
/// written out here; it is a name that the handshake contracts are
/// stated over.
pub uninterp spec fn md5_of(input: Seq<u8>) -> Seq<u8>;

/// Relies on rust-crypto's `Md5`: the digest is sixteen bytes and
/// depends on the input bytes alone.
#[verifier::external_body]
pub fn digest(input: &[u8]) -> (r: Vec<u8>)
    ensures
        r@ == md5_of(input@),
        r@.len() == 16,
{
    let mut d = crypto::md5::Md5::new();
    let mut out = [0u8; 16];
    d.input(input);
    d.result(&mut out);
    out.to_vec()
}

/// The value of four little-endian bytes.
pub open spec fn le32_of(b0: u8, b1: u8, b2: u8, b3: u8) -> u32 {
    (b0 + b1 * 256 + b2 * 65536 + b3 * 16777216) as u32
}

/// A 16-byte digest folded to 32 bits: the four little-endian words
/// combined with exclusive or.
pub open spec fn fold_digest(d: Seq<u8>) -> u32 {
    le32_of(d[0], d[1], d[2], d[3]) ^ le32_of(d[4], d[5], d[6], d[7]) ^ le32_of(
        d[8],
        d[9],
        d[10],
        d[11],
    ) ^ le32_of(d[12], d[13], d[14], d[15])
}

/// The MD5 digest of the input folded to a 32-bit word, one way to
/// derive a handshake challenge; any unpredictable 32-bit value
/// serves, so a caller may prefer a random source.
pub fn digest_u32(input: &[u8]) -> (r: u32)
    ensures
        r == fold_digest(md5_of(input@)),
{
    let d = digest(input);
    let w0 = (d[0] as u32) + (d[1] as u32) * 256 + (d[2] as u32) * 65536 + (d[3] as u32)
        * 16777216;
    let w1 = (d[4] as u32) + (d[5] as u32) * 256 + (d[6] as u32) * 65536 + (d[7] as u32)
        * 16777216;
    let w2 = (d[8] as u32) + (d[9] as u32) * 256 + (d[10] as u32) * 65536 + (d[11] as u32)
        * 16777216;
    let w3 = (d[12] as u32) + (d[13] as u32) * 256 + (d[14] as u32) * 65536 + (d[15] as u32)
        * 16777216;
    w0 ^ w1 ^ w2 ^ w3
}

} // verus!
