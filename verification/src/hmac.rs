//! HMAC-SHA256 over in-memory bytes, used to sign and verify report
//! manifests and pack manifests.

use vstd::prelude::*;

use crate::digest::{sha256, sha256_of};

verus! {

/// `s` brought to exactly 64 bytes: truncated, or padded with zeros.
pub open spec fn pad_block(s: Seq<u8>) -> Seq<u8> {
    Seq::new(64, |i: int| if i < s.len() { s[i] } else { 0u8 })
}

/// The 64-byte key block of HMAC-SHA256: long keys are hashed first,
/// then zero-padded.
pub open spec fn hmac_key_block(key: Seq<u8>) -> Seq<u8> {
    if key.len() > 64 {
        pad_block(sha256_of(key))
    } else {
        pad_block(key)
    }
}

/// Each byte of `s` XORed with `mask`.
pub open spec fn xor_each(s: Seq<u8>, mask: u8) -> Seq<u8> {
    s.map_values(|b: u8| b ^ mask)
}

/// HMAC-SHA256 of `message` under `key`, written out from its
/// definition: `H((K' ^ opad) || H((K' ^ ipad) || message))`.
pub open spec fn hmac_sha256_of(key: Seq<u8>, message: Seq<u8>) -> Seq<u8> {
    sha256_of(
        xor_each(hmac_key_block(key), 0x5c) + sha256_of(
            xor_each(hmac_key_block(key), 0x36) + message,
        ),
    )
}

/// The 64-byte key block, executable.
fn key_block(key: &Vec<u8>) -> (r: Vec<u8>)
    ensures
        r@ == hmac_key_block(key@),
{
    let base: Vec<u8> = if key.len() > 64 {
        sha256(key.as_slice())
    } else {
        key.clone()
    };
    let ghost base_seq = base@;
    let mut block: Vec<u8> = Vec::new();
    let mut i: usize = 0;
    while i < 64
        invariant
            base@ == base_seq,
            i <= 64,
            block@.len() == i,
            forall|j: int| 0 <= j < i ==> block@[j] == (if j < base_seq.len() {
                base_seq[j]
            } else {
                0u8
            }),
        decreases 64 - i,
    {
        if i < base.len() {
            block.push(base[i]);
        } else {
            block.push(0u8);
        }
        i = i + 1;
    }
    proof {
        assert(block@ =~= pad_block(base_seq));
        if key@.len() > 64 {
            assert(block@ == hmac_key_block(key@));
        } else {
            assert(block@ == hmac_key_block(key@));
        }
    }
    block
}

/// Each byte of `v` XORed with `mask`, executable.
fn xor_all(v: &Vec<u8>, mask: u8) -> (r: Vec<u8>)
    ensures
        r@ == xor_each(v@, mask),
{
    let mut out: Vec<u8> = Vec::new();
    let mut i: usize = 0;
    while i < v.len()
        invariant
            i <= v@.len(),
            out@.len() == i,
            forall|j: int| 0 <= j < i ==> out@[j] == (v@[j] ^ mask),
        decreases v@.len() - i,
    {
        out.push(v[i] ^ mask);
        i = i + 1;
    }
    proof {
        assert(out@ =~= xor_each(v@, mask));
    }
    out
}

/// `a` followed by `b`, executable.
pub fn concat_bytes(a: &Vec<u8>, b: &Vec<u8>) -> (r: Vec<u8>)
    ensures
        r@ == a@ + b@,
{
    let mut out: Vec<u8> = Vec::new();
    let mut i: usize = 0;
    while i < a.len()
        invariant
            i <= a@.len(),
            out@ == a@.subrange(0, i as int),
        decreases a@.len() - i,
    {
        out.push(a[i]);
        proof {
            assert(out@ =~= a@.subrange(0, i as int + 1));
        }
        i = i + 1;
    }
    proof {
        assert(out@ =~= a@);
    }
    let mut i: usize = 0;
    while i < b.len()
        invariant
            i <= b@.len(),
            out@ == a@ + b@.subrange(0, i as int),
        decreases b@.len() - i,
    {
        out.push(b[i]);
        proof {
            assert(out@ =~= a@ + b@.subrange(0, i as int + 1));
        }
        i = i + 1;
    }
    proof {
        assert(out@ =~= a@ + b@);
    }
    out
}

/// Compute HMAC-SHA256 of `message` under `key`.
pub fn hmac_sha256(key: &Vec<u8>, message: &Vec<u8>) -> (r: Vec<u8>)
    ensures
        r@ == hmac_sha256_of(key@, message@),
        r@.len() == 32,
{
    let block = key_block(key);
    let i_key = xor_all(&block, 0x36);
    let o_key = xor_all(&block, 0x5c);
    let inner_input = concat_bytes(&i_key, message);
    let inner = sha256(inner_input.as_slice());
    let outer_input = concat_bytes(&o_key, &inner);
    sha256(outer_input.as_slice())
}

} // verus!
