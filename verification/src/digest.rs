//! SHA-256 digests, named for contracts and computed by the `sha2` crate.

use vstd::prelude::*;

use crate::hex::{hex_of, to_hex};

verus! {

/// The SHA-256 digest of a byte sequence. The value is a pure function of
/// the input alone; it is left uninterpreted, and the `sha2` crate
/// computes it.
pub uninterp spec fn sha256_of(data: Seq<u8>) -> Seq<u8>;

/// Relies on `sha2::Sha256::digest`: the SHA-256 digest of `data`, which
/// is 32 bytes and depends on the input bytes alone.
#[verifier::external_body]
pub fn sha256(data: &[u8]) -> (r: Vec<u8>)
    ensures
        r@ == sha256_of(data@),
        r@.len() == 32,
{
    <sha2::Sha256 as sha2::Digest>::digest(data).to_vec()
}

/// The lowercase hex form of the SHA-256 digest of `data`.
pub open spec fn sha256_hex_of(data: Seq<u8>) -> Seq<char> {
    hex_of(sha256_of(data))
}

/// Hash `data` and render the digest as lowercase hex.
pub fn sha256_hex(data: &Vec<u8>) -> (r: String)
    ensures
        r@ == sha256_hex_of(data@),
        r@.len() == 64,
{
    let digest = sha256(data.as_slice());
    let r = to_hex(&digest);
    proof {
        crate::hex::lemma_hex_round_trip(digest@);
    }
    r
}

} // verus!
