//! Pack manifests: a signed grouping of workflow definitions. Schema
//! checking, workflow path resolution, and HMAC signing and verification
//! over the manifest's bytes.

use vstd::prelude::*;

use crate::errors::{ErrorKind, ForgeError};
use crate::hex::{
    all_hex_digits, decode_hex, hex_decoded, hex_of, lemma_hex_not_spacey, lemma_trim_id, to_hex,
};
use crate::hmac::{hmac_sha256, hmac_sha256_of};
use crate::report::signature_verdict;
use crate::text::{
    eq_ignore_case, lower_code, lower_codes, str_eq, str_eq_ignore_case, str_trim, trimmed,
};

verus! {

/// A pack: a named, versioned group of workflow definitions with an
/// optional assets directory.
#[derive(Clone, Debug)]
pub struct PackManifest {
    pub schema_version: String,
    pub name: String,
    pub version: String,
    pub description: Option<String>,
    pub workflows: Vec<String>,
    pub assets: Option<String>,
}

/// The pack schema this library accepts, exactly.
pub fn pack_schema_version() -> (v: &'static str)
    ensures
        v@ == "1.0.0"@,
{
    "1.0.0"
}

/// Check a loaded pack manifest's schema version.
///
/// Succeeds exactly when it is `1.0.0`; any other version is a
/// `Precondition` whose message names it.
pub fn validate_pack_manifest(manifest: &PackManifest) -> (r: Result<(), ForgeError>)
    ensures
        r is Ok <==> manifest.schema_version@ == "1.0.0"@,
        r matches Err(e) ==> e.kind == ErrorKind::Precondition && e.message@
            == "unsupported pack schema version "@ + manifest.schema_version@,
{
    if str_eq(manifest.schema_version.as_str(), "1.0.0") {
        Ok(())
    } else {
        let mut msg = "unsupported pack schema version ".to_owned();
        msg.append(manifest.schema_version.as_str());
        Err(ForgeError { kind: ErrorKind::Precondition, message: msg })
    }
}

/// The workflow paths of a pack, resolved against the manifest's
/// directory: `dir/<workflow>` for each listed workflow, in order.
pub fn resolve_pack_workflow_paths(manifest_dir: &str, manifest: &PackManifest) -> (r: Vec<String>)
    ensures
        r@.len() == manifest.workflows@.len(),
        forall|i: int|
            0 <= i < r@.len() ==> (#[trigger] r@[i])@ == manifest_dir@ + "/"@
                + manifest.workflows@[i]@,
{
    let mut out: Vec<String> = Vec::new();
    let mut i: usize = 0;
    while i < manifest.workflows.len()
        invariant
            i <= manifest.workflows@.len(),
            out@.len() == i,
            forall|j: int|
                0 <= j < i ==> (#[trigger] out@[j])@ == manifest_dir@ + "/"@
                    + manifest.workflows@[j]@,
        decreases manifest.workflows@.len() - i,
    {
        let mut path = manifest_dir.to_owned();
        path.append("/");
        path.append(manifest.workflows[i].as_str());
        out.push(path);
        i = i + 1;
    }
    out
}

/// Sign pack manifest bytes: the lowercase hex of HMAC-SHA256 under the
/// hex-written key.
///
/// Succeeds exactly when the key decodes as hex; the error otherwise is
/// a `Precondition`.
pub fn sign_pack_manifest(manifest_bytes: &Vec<u8>, signing_key_hex: &str) -> (r: Result<
    String,
    ForgeError,
>)
    ensures
        r is Ok <==> trimmed(signing_key_hex@).len() % 2 == 0 && all_hex_digits(
            trimmed(signing_key_hex@),
        ),
        r matches Ok(sig) ==> sig@ == hex_of(
            hmac_sha256_of(hex_decoded(trimmed(signing_key_hex@)), manifest_bytes@),
        ),
        r matches Err(e) ==> e.kind == ErrorKind::Precondition,
{
    let key = match decode_hex(signing_key_hex) {
        Ok(k) => k,
        Err(e) => {
            return Err(e);
        },
    };
    let mac = hmac_sha256(&key, manifest_bytes);
    Ok(to_hex(&mac))
}

/// Verify a stored pack signature against the manifest bytes and the
/// hex-written key.
///
/// Succeeds exactly when the key decodes as hex, with the verdict of the
/// trimmed, case-folded comparison against the recomputed HMAC.
pub fn verify_pack_manifest(
    manifest_bytes: &Vec<u8>,
    signing_key_hex: &str,
    stored_signature: &str,
) -> (r: Result<bool, ForgeError>)
    ensures
        r is Ok <==> trimmed(signing_key_hex@).len() % 2 == 0 && all_hex_digits(
            trimmed(signing_key_hex@),
        ),
        r matches Ok(b) ==> b == signature_verdict(
            hex_decoded(trimmed(signing_key_hex@)),
            manifest_bytes@,
            stored_signature@,
        ),
        r matches Err(e) ==> e.kind == ErrorKind::Precondition,
{
    let key = match decode_hex(signing_key_hex) {
        Ok(k) => k,
        Err(e) => {
            return Err(e);
        },
    };
    let expected = hmac_sha256(&key, manifest_bytes);
    let expected_hex = to_hex(&expected);
    let sig_trimmed = str_trim(stored_signature);
    Ok(str_eq_ignore_case(sig_trimmed.as_str(), expected_hex.as_str()))
}

/// A signature made with key `key` over `bytes` verifies under the same
/// key.
pub proof fn lemma_sign_then_verify(key: Seq<u8>, bytes: Seq<u8>)
    ensures
        signature_verdict(key, bytes, hex_of(hmac_sha256_of(key, bytes))),
{
    let h = hex_of(hmac_sha256_of(key, bytes));
    lemma_hex_not_spacey(hmac_sha256_of(key, bytes));
    lemma_trim_id(h);
}

/// A signature made with one key fails to verify under another, whenever
/// the two MACs differ — which collision resistance of HMAC-SHA256 makes
/// the case for distinct keys in practice.
pub proof fn lemma_verify_other_key(key: Seq<u8>, other: Seq<u8>, bytes: Seq<u8>)
    requires
        hmac_sha256_of(key, bytes) != hmac_sha256_of(other, bytes),
    ensures
        !signature_verdict(other, bytes, hex_of(hmac_sha256_of(key, bytes))),
{
    let a = hmac_sha256_of(key, bytes);
    let b = hmac_sha256_of(other, bytes);
    lemma_hex_not_spacey(a);
    lemma_trim_id(hex_of(a));
    lemma_hex_lower_injective(a, b);
}

/// Hex digit characters are untouched by ASCII case folding.
proof fn lemma_hex_digit_lower_fixed(v: u8)
    requires
        v < 16,
    ensures
        lower_code(crate::hex::hex_digit_spec(v)) == crate::hex::hex_digit_spec(v) as u32,
{
}

/// Distinct byte sequences have hex renderings that differ even up to
/// ASCII case.
proof fn lemma_hex_lower_injective(a: Seq<u8>, b: Seq<u8>)
    requires
        a != b,
    ensures
        !eq_ignore_case(hex_of(a), hex_of(b)),
    decreases a.len() + b.len(),
{
    crate::hex::lemma_hex_round_trip(a);
    crate::hex::lemma_hex_round_trip(b);
    if a.len() != b.len() {
        assert(lower_codes(hex_of(a)).len() != lower_codes(hex_of(b)).len());
    } else {
        assert(a.len() > 0) by {
            if a.len() == 0 {
                assert(a =~= b);
            }
        }
        let ha = hex_of(a);
        let hb = hex_of(b);
        let pa = hex_of(a.drop_last());
        let pb = hex_of(b.drop_last());
        crate::hex::lemma_hex_round_trip(a.drop_last());
        crate::hex::lemma_hex_round_trip(b.drop_last());
        if a.last() != b.last() {
            let va = a.last();
            let vb = b.last();
            assert(va / 16 != vb / 16 || va % 16 != vb % 16);
            lemma_hex_digit_lower_fixed(va / 16);
            lemma_hex_digit_lower_fixed(vb / 16);
            lemma_hex_digit_lower_fixed(va % 16);
            lemma_hex_digit_lower_fixed(vb % 16);
            if va / 16 != vb / 16 {
                assert(ha[ha.len() - 2] == crate::hex::hex_digit_spec(va / 16));
                assert(hb[hb.len() - 2] == crate::hex::hex_digit_spec(vb / 16));
                assert(crate::hex::hex_digit_value(crate::hex::hex_digit_spec(va / 16))
                    != crate::hex::hex_digit_value(crate::hex::hex_digit_spec(vb / 16))) by {
                    crate::hex::lemma_hex_digit_value(va / 16);
                    crate::hex::lemma_hex_digit_value(vb / 16);
                }
                assert(lower_codes(ha)[ha.len() - 2] != lower_codes(hb)[hb.len() - 2]);
            } else {
                assert(ha[ha.len() - 1] == crate::hex::hex_digit_spec(va % 16));
                assert(hb[hb.len() - 1] == crate::hex::hex_digit_spec(vb % 16));
                assert(crate::hex::hex_digit_value(crate::hex::hex_digit_spec(va % 16))
                    != crate::hex::hex_digit_value(crate::hex::hex_digit_spec(vb % 16))) by {
                    crate::hex::lemma_hex_digit_value(va % 16);
                    crate::hex::lemma_hex_digit_value(vb % 16);
                }
                assert(lower_codes(ha)[ha.len() - 1] != lower_codes(hb)[hb.len() - 1]);
            }
        } else {
            assert(a.drop_last() != b.drop_last()) by {
                if a.drop_last() == b.drop_last() {
                    assert(a =~= a.drop_last().push(a.last()));
                    assert(b =~= b.drop_last().push(b.last()));
                }
            }
            lemma_hex_lower_injective(a.drop_last(), b.drop_last());
            let k = choose|k: int|
                0 <= k < lower_codes(pa).len() && lower_codes(pa)[k] != lower_codes(pb)[k];
            assert(lower_codes(pa).len() == lower_codes(pb).len());
            assert(exists|k: int|
                0 <= k < lower_codes(pa).len() && lower_codes(pa)[k] != lower_codes(pb)[k]) by {
                if lower_codes(pa) != lower_codes(pb) {
                    assert(!(lower_codes(pa) =~= lower_codes(pb)));
                }
            }
            let k2 = choose|k2: int|
                0 <= k2 < lower_codes(pa).len() && lower_codes(pa)[k2] != lower_codes(pb)[k2];
            assert(ha[k2] == pa[k2]);
            assert(hb[k2] == pb[k2]);
            assert(lower_codes(ha)[k2] != lower_codes(hb)[k2]);
        }
    }
}

} // verus!
