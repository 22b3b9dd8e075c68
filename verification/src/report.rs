//! Report bundles: the content-addressed manifest over a bundle's files,
//! its canonical JSON form, keyed signing, and verification.
//!
//! A bundle is a set of named files. Writing them to `reports/<run_id>/`
//! and reading them back is the caller's part; everything here is over
//! the in-memory names and bytes.

use vstd::prelude::*;

use crate::digest::{sha256_hex, sha256_hex_of};
use crate::errors::{ErrorKind, ForgeError};
use crate::hex::{decode_hex, hex_of, to_hex, all_hex_digits};
use crate::hmac::{hmac_sha256, hmac_sha256_of};
use crate::jsonout::{dec_str, json_escaped, push_dec, push_json_escaped};
use crate::text::{eq_ignore_case, str_eq, str_eq_ignore_case, str_trim, trimmed};

verus! {

/// A named file of a report bundle: artifacts, and the canonical files
/// themselves.
#[derive(Clone, Debug)]
pub struct ReportArtifact {
    pub name: String,
    pub bytes: Vec<u8>,
}

/// Where a written bundle's pieces ended up on disk.
#[derive(Clone, Debug)]
pub struct ReportPaths {
    pub run_id: String,
    pub root: String,
    pub device_graph_json: String,
    pub run_json: String,
    pub logs_path: String,
    pub manifest_path: String,
    pub signature_path: Option<String>,
}

/// One manifest line: a file name, its byte count, and its SHA-256 in
/// lowercase hex.
#[derive(Clone, Debug)]
pub struct ManifestEntry {
    pub path: String,
    pub bytes: u64,
    pub sha256: String,
}

/// The content-addressed index of a bundle.
#[derive(Clone, Debug)]
pub struct Manifest {
    pub run_id: String,
    pub entries: Vec<ManifestEntry>,
}

/// What verification found: overall verdict, how many listed files were
/// present and checked, the mismatch messages, and the signature verdict
/// when a signature was there.
#[derive(Clone, Debug)]
pub struct ReportVerification {
    pub ok: bool,
    pub entries_checked: usize,
    pub mismatches: Vec<String>,
    pub signature_valid: Option<bool>,
}

/// The first index of `files` whose name reads `name`, if any.
pub open spec fn find_file(files: Seq<ReportArtifact>, name: Seq<char>) -> Option<int>
    decreases files.len(),
{
    if files.len() == 0 {
        None
    } else if files[0].name@ == name {
        Some(0int)
    } else {
        match find_file(files.drop_first(), name) {
            Some(i) => Some(i + 1),
            None => None,
        }
    }
}

/// `find_file` returns exactly the first match.
pub proof fn lemma_find_file_first(files: Seq<ReportArtifact>, name: Seq<char>)
    ensures
        find_file(files, name) matches Some(i) ==> 0 <= i < files.len() && files[i].name@ == name
            && forall|j: int| 0 <= j < i ==> (#[trigger] files[j]).name@ != name,
        find_file(files, name) is None ==> forall|j: int|
            0 <= j < files.len() ==> (#[trigger] files[j]).name@ != name,
    decreases files.len(),
{
    if files.len() > 0 {
        let rest = files.drop_first();
        lemma_find_file_first(rest, name);
        assert(forall|j: int| 0 <= j < rest.len() ==> rest[j] == files[j + 1]);
        if files[0].name@ != name {
            match find_file(rest, name) {
                Some(i) => {
                    assert(find_file(files, name) == Some(i + 1));
                    assert(rest[i] == files[i + 1]);
                    assert(files[i + 1].name@ == name);
                    assert forall|j: int| 0 <= j < i + 1 implies (#[trigger] files[j]).name@
                        != name by {
                        if j > 0 {
                            assert(files[j] == rest[j - 1]);
                        }
                    }
                },
                None => {
                    assert forall|j: int| 0 <= j < files.len() implies (#[trigger] files[j]).name@
                        != name by {
                        if j > 0 {
                            assert(files[j] == rest[j - 1]);
                        }
                    }
                },
            }
        }
    }
}

/// If position `i` is the first match, `find_file` says so.
pub proof fn lemma_find_file_of_first(files: Seq<ReportArtifact>, name: Seq<char>, i: int)
    requires
        0 <= i < files.len(),
        files[i].name@ == name,
        forall|j: int| 0 <= j < i ==> (#[trigger] files[j]).name@ != name,
    ensures
        find_file(files, name) == Some(i),
    decreases i,
{
    if i > 0 {
        let rest = files.drop_first();
        assert(forall|j: int| 0 <= j < rest.len() ==> rest[j] == files[j + 1]);
        lemma_find_file_of_first(rest, name, i - 1);
    }
}

/// Find the first file named `name`.
pub fn find_file_exec(files: &Vec<ReportArtifact>, name: &str) -> (r: Option<usize>)
    ensures
        match r {
            Some(i) => find_file(files@, name@) == Some(i as int),
            None => find_file(files@, name@) is None,
        },
{
    let mut i: usize = 0;
    while i < files.len()
        invariant
            i <= files@.len(),
            forall|j: int| 0 <= j < i ==> (#[trigger] files@[j]).name@ != name@,
        decreases files@.len() - i,
    {
        if str_eq(files[i].name.as_str(), name) {
            proof {
                lemma_find_file_of_first(files@, name@, i as int);
            }
            return Some(i);
        }
        i = i + 1;
    }
    proof {
        lemma_find_file_first(files@, name@);
        assert(find_file(files@, name@) is None) by {
            if find_file(files@, name@) is Some {
                let k = find_file(files@, name@)->0;
                assert(files@[k].name@ == name@);
            }
        }
    }
    None
}

/// Check that an artifact's name is a bare file name.
///
/// Succeeds exactly when the name holds no path separator of either
/// kind; the refusal is a `Precondition`.
pub fn check_artifact_name(name: &str) -> (r: Result<(), ForgeError>)
    ensures
        r is Ok <==> (forall|i: int|
            0 <= i < name@.len() ==> #[trigger] name@[i] != '/' && name@[i] != '\\'),
        r matches Err(e) ==> e.kind == ErrorKind::Precondition && e.message@
            == "artifact name must be a filename only"@,
{
    let len = name.unicode_len();
    let mut i: usize = 0;
    while i < len
        invariant
            len == name@.len(),
            i <= len,
            forall|j: int| 0 <= j < i ==> #[trigger] name@[j] != '/' && name@[j] != '\\',
        decreases len - i,
    {
        let c = name.get_char(i);
        if c == '/' || c == '\\' {
            return Err(ForgeError::new(
                ErrorKind::Precondition,
                "artifact name must be a filename only",
            ));
        }
        i = i + 1;
    }
    Ok(())
}

/// Build the manifest for `files` in their given order: one entry per
/// file, carrying its byte count and hex SHA-256.
pub fn build_manifest(run_id: &str, files: &Vec<ReportArtifact>) -> (m: Manifest)
    ensures
        m.run_id@ == run_id@,
        m.entries@.len() == files@.len(),
        forall|i: int|
            0 <= i < files@.len() ==> {
                let e = #[trigger] m.entries@[i];
                &&& e.path@ == files@[i].name@
                &&& e.bytes == files@[i].bytes@.len()
                &&& e.sha256@ == sha256_hex_of(files@[i].bytes@)
            },
{
    let mut entries: Vec<ManifestEntry> = Vec::new();
    let mut i: usize = 0;
    while i < files.len()
        invariant
            i <= files@.len(),
            entries@.len() == i,
            forall|j: int|
                0 <= j < i ==> {
                    let e = #[trigger] entries@[j];
                    &&& e.path@ == files@[j].name@
                    &&& e.bytes == files@[j].bytes@.len()
                    &&& e.sha256@ == sha256_hex_of(files@[j].bytes@)
                },
        decreases files@.len() - i,
    {
        let f = &files[i];
        let hash = sha256_hex(&f.bytes);
        entries.push(ManifestEntry { path: f.name.clone(), bytes: f.bytes.len() as u64, sha256: hash });
        i = i + 1;
    }
    Manifest { run_id: run_id.to_owned(), entries }
}

/// The pretty JSON text of one manifest entry, as an array element
/// indented two levels.
pub open spec fn entry_json(e: ManifestEntry) -> Seq<char> {
    "{\n      \"path\": \""@ + json_escaped(e.path@) + "\",\n      \"bytes\": "@ + dec_str(
        e.bytes as int,
    ) + ",\n      \"sha256\": \""@ + json_escaped(e.sha256@) + "\"\n    }"@
}

/// The pretty JSON text of a manifest's entry list: each element on its
/// own indented line.
pub open spec fn entries_json(entries: Seq<ManifestEntry>) -> Seq<char>
    decreases entries.len(),
{
    if entries.len() == 0 {
        Seq::empty()
    } else if entries.len() == 1 {
        "\n    "@ + entry_json(entries[0])
    } else {
        entries_json(entries.drop_last()) + ",\n    "@ + entry_json(entries.last())
    }
}

/// The canonical JSON text of a manifest: pretty-printed with two-space
/// indentation, as the bundle layout documents.
pub open spec fn manifest_json(m: Manifest) -> Seq<char> {
    "{\n  \"run_id\": \""@ + json_escaped(m.run_id@) + "\",\n  \"entries\": ["@ + entries_json(
        m.entries@,
    ) + (if m.entries@.len() == 0 {
        "]\n}"@
    } else {
        "\n  ]\n}"@
    })
}

/// Render a manifest as its canonical pretty JSON text.
pub fn manifest_to_json(m: &Manifest) -> (r: String)
    ensures
        r@ == manifest_json(*m),
{
    let mut out = String::new();
    out.append("{\n  \"run_id\": \"");
    push_json_escaped(&mut out, m.run_id.as_str());
    out.append("\",\n  \"entries\": [");
    let ghost prefix = out@;
    let mut i: usize = 0;
    while i < m.entries.len()
        invariant
            i <= m.entries@.len(),
            out@ == prefix + entries_json(m.entries@.subrange(0, i as int)),
        decreases m.entries@.len() - i,
    {
        if i > 0 {
            out.append(",\n    ");
        } else {
            out.append("\n    ");
        }
        let e = &m.entries[i];
        out.append("{\n      \"path\": \"");
        push_json_escaped(&mut out, e.path.as_str());
        out.append("\",\n      \"bytes\": ");
        push_dec(&mut out, e.bytes);
        out.append(",\n      \"sha256\": \"");
        push_json_escaped(&mut out, e.sha256.as_str());
        out.append("\"\n    }");
        proof {
            let pre = m.entries@.subrange(0, i as int + 1);
            assert(pre.drop_last() =~= m.entries@.subrange(0, i as int));
            assert(pre.last() == m.entries@[i as int]);
            assert(out@ =~= prefix + entries_json(pre));
        }
        i = i + 1;
    }
    proof {
        assert(m.entries@.subrange(0, m.entries@.len() as int) =~= m.entries@);
    }
    if m.entries.len() == 0 {
        out.append("]\n}");
    } else {
        out.append("\n  ]\n}");
    }
    proof {
        assert(out@ =~= manifest_json(*m));
    }
    out
}

/// Sign manifest bytes: the lowercase hex of HMAC-SHA256 under the key
/// written in hex.
///
/// Succeeds exactly when the key decodes as hex; the error otherwise is a
/// `Precondition`.
pub fn sign_manifest_bytes(manifest_bytes: &Vec<u8>, signing_key_hex: &str) -> (r: Result<
    String,
    ForgeError,
>)
    ensures
        r is Ok <==> trimmed(signing_key_hex@).len() % 2 == 0 && all_hex_digits(
            trimmed(signing_key_hex@),
        ),
        r matches Ok(sig) ==> sig@ == hex_of(
            hmac_sha256_of(crate::hex::hex_decoded(trimmed(signing_key_hex@)), manifest_bytes@),
        ),
        r matches Err(e) ==> e.kind == ErrorKind::Precondition,
{
    let key = match decode_hex(signing_key_hex) {
        Ok(k) => k,
        Err(e) => {
            return Err(e);
        },
    };
    let mac = hmac_sha256(&key, manifest_bytes);
    Ok(to_hex(&mac))
}

/// The mismatch lines one manifest entry contributes: `missing` when no
/// file carries its name, otherwise `hash mismatch` and `size mismatch`
/// as they apply, in that order.
pub open spec fn entry_mismatches(files: Seq<ReportArtifact>, e: ManifestEntry) -> Seq<Seq<char>> {
    match find_file(files, e.path@) {
        None => seq!["missing "@ + e.path@],
        Some(i) => {
            let data = files[i].bytes@;
            (if sha256_hex_of(data) != e.sha256@ {
                seq!["hash mismatch "@ + e.path@]
            } else {
                Seq::empty()
            }) + (if data.len() != e.bytes {
                seq!["size mismatch "@ + e.path@]
            } else {
                Seq::empty()
            })
        },
    }
}

/// All mismatch lines of a manifest against `files`, in entry order.
pub open spec fn mismatches_of(files: Seq<ReportArtifact>, entries: Seq<ManifestEntry>) -> Seq<
    Seq<char>,
>
    decreases entries.len(),
{
    if entries.len() == 0 {
        Seq::empty()
    } else {
        mismatches_of(files, entries.drop_last()) + entry_mismatches(files, entries.last())
    }
}

/// How many entries name a file that is present.
pub open spec fn count_found(files: Seq<ReportArtifact>, entries: Seq<ManifestEntry>) -> int
    decreases entries.len(),
{
    if entries.len() == 0 {
        0
    } else {
        count_found(files, entries.drop_last()) + (if find_file(
            files,
            entries.last().path@,
        ) is Some {
            1int
        } else {
            0int
        })
    }
}

/// What the signature verdict must be: compare the stored signature,
/// trimmed and case-folded, against the recomputed HMAC in hex.
pub open spec fn signature_verdict(
    key: Seq<u8>,
    manifest_bytes: Seq<u8>,
    stored_sig: Seq<char>,
) -> bool {
    eq_ignore_case(trimmed(stored_sig), hex_of(hmac_sha256_of(key, manifest_bytes)))
}

/// Verify a bundle: check each manifest entry against the files, then
/// the signature when one is stored.
///
/// Fails — with a `Precondition` error — exactly when a signature is
/// stored but no key was supplied, or the supplied key is not valid hex.
/// Otherwise the verdict lists every mismatch in entry order, counts the
/// entries whose file was present, reports the signature verdict when a
/// signature was stored, and is `ok` exactly when nothing mismatched and
/// the signature did not fail.
pub fn verify_report_bundle(
    manifest: &Manifest,
    files: &Vec<ReportArtifact>,
    manifest_bytes: &Vec<u8>,
    stored_signature: Option<&String>,
    signing_key_hex: Option<&String>,
) -> (r: Result<ReportVerification, ForgeError>)
    ensures
        r is Ok <==> (stored_signature is None || (signing_key_hex matches Some(k) && trimmed(
            k@,
        ).len() % 2 == 0 && all_hex_digits(trimmed(k@)))),
        stored_signature is Some && signing_key_hex is None ==> (r matches Err(e) && e.message@
            == "signing key required"@),
        r matches Err(e) ==> e.kind == ErrorKind::Precondition,
        r matches Ok(v) ==> {
            &&& v.entries_checked == count_found(files@, manifest.entries@)
            &&& v.mismatches@.map_values(|s: String| s@) == mismatches_of(
                files@,
                manifest.entries@,
            )
            &&& v.signature_valid == (match (stored_signature, signing_key_hex) {
                (Some(sig), Some(k)) => Some(
                    signature_verdict(
                        crate::hex::hex_decoded(trimmed(k@)),
                        manifest_bytes@,
                        sig@,
                    ),
                ),
                _ => None::<bool>,
            })
            &&& v.ok == (v.mismatches@.len() == 0 && v.signature_valid != Some(false))
        },
{
    let mut mismatches: Vec<String> = Vec::new();
    let mut entries_checked: usize = 0;
    let mut i: usize = 0;
    while i < manifest.entries.len()
        invariant
            i <= manifest.entries@.len(),
            entries_checked == count_found(files@, manifest.entries@.subrange(0, i as int)),
            entries_checked <= i,
            mismatches@.map_values(|s: String| s@) == mismatches_of(
                files@,
                manifest.entries@.subrange(0, i as int),
            ),
        decreases manifest.entries@.len() - i,
    {
        let e = &manifest.entries[i];
        let ghost pre = manifest.entries@.subrange(0, i as int + 1);
        proof {
            assert(pre.drop_last() =~= manifest.entries@.subrange(0, i as int));
            assert(pre.last() == manifest.entries@[i as int]);
        }
        match find_file_exec(files, e.path.as_str()) {
            None => {
                let mut msg = "missing ".to_owned();
                msg.append(e.path.as_str());
                mismatches.push(msg);
                proof {
                    assert(mismatches@.map_values(|s: String| s@) =~= mismatches_of(files@, pre));
                }
            },
            Some(idx) => {
                proof {
                    lemma_find_file_first(files@, e.path@);
                }
                let data = &files[idx].bytes;
                let hash = sha256_hex(data);
                let ghost before = mismatches@;
                if !str_eq(hash.as_str(), e.sha256.as_str()) {
                    let mut msg = "hash mismatch ".to_owned();
                    msg.append(e.path.as_str());
                    mismatches.push(msg);
                }
                if data.len() as u64 != e.bytes {
                    let mut msg = "size mismatch ".to_owned();
                    msg.append(e.path.as_str());
                    mismatches.push(msg);
                }
                entries_checked = entries_checked + 1;
                proof {
                    assert(mismatches@.map_values(|s: String| s@) =~= mismatches_of(files@, pre));
                }
            },
        }
        i = i + 1;
    }
    proof {
        assert(manifest.entries@.subrange(0, manifest.entries@.len() as int)
            =~= manifest.entries@);
    }

    let signature_valid: Option<bool> = match stored_signature {
        None => None,
        Some(sig) => {
            let key_hex = match signing_key_hex {
                Some(k) => k,
                None => {
                    return Err(ForgeError::new(ErrorKind::Precondition, "signing key required"));
                },
            };
            let key = match decode_hex(key_hex.as_str()) {
                Ok(k) => k,
                Err(e) => {
                    return Err(e);
                },
            };
            let expected = hmac_sha256(&key, manifest_bytes);
            let expected_hex = to_hex(&expected);
            let sig_trimmed = str_trim(sig.as_str());
            Some(str_eq_ignore_case(sig_trimmed.as_str(), expected_hex.as_str()))
        },
    };

    let ok = mismatches.len() == 0 && match signature_valid {
        Some(b) => b,
        None => true,
    };
    Ok(ReportVerification { ok, entries_checked, mismatches, signature_valid })
}

/// A bundle verified as it was built — same files, no mutation — has no
/// mismatches, and every entry is checked.
pub proof fn lemma_fresh_bundle_verifies(files: Seq<ReportArtifact>, entries: Seq<ManifestEntry>)
    requires
        entries.len() == files.len(),
        forall|i: int|
            0 <= i < files.len() ==> {
                let e = #[trigger] entries[i];
                &&& e.path@ == files[i].name@
                &&& e.bytes == files[i].bytes@.len()
                &&& e.sha256@ == sha256_hex_of(files[i].bytes@)
            },
        forall|i: int, j: int|
            0 <= i < j < files.len() ==> (#[trigger] files[i]).name@ != (#[trigger] files[j]).name@,
    ensures
        mismatches_of(files, entries) == Seq::<Seq<char>>::empty(),
        count_found(files, entries) == entries.len(),
{
    lemma_fresh_bundle_verifies_prefix(files, entries, entries.len() as int);
    assert(entries.subrange(0, entries.len() as int) =~= entries);
}

/// The induction behind `lemma_fresh_bundle_verifies`: the first `n`
/// entries of a fresh bundle contribute no mismatch.
proof fn lemma_fresh_bundle_verifies_prefix(
    files: Seq<ReportArtifact>,
    entries: Seq<ManifestEntry>,
    n: int,
)
    requires
        entries.len() == files.len(),
        0 <= n <= entries.len(),
        forall|i: int|
            0 <= i < files.len() ==> {
                let e = #[trigger] entries[i];
                &&& e.path@ == files[i].name@
                &&& e.bytes == files[i].bytes@.len()
                &&& e.sha256@ == sha256_hex_of(files[i].bytes@)
            },
        forall|i: int, j: int|
            0 <= i < j < files.len() ==> (#[trigger] files[i]).name@ != (#[trigger] files[j]).name@,
    ensures
        mismatches_of(files, entries.subrange(0, n)) == Seq::<Seq<char>>::empty(),
        count_found(files, entries.subrange(0, n)) == n,
    decreases n,
{
    if n > 0 {
        lemma_fresh_bundle_verifies_prefix(files, entries, n - 1);
        let pre = entries.subrange(0, n);
        assert(pre.drop_last() =~= entries.subrange(0, n - 1));
        assert(pre.last() == entries[n - 1]);
        let e = entries[n - 1];
        assert forall|j: int| 0 <= j < n - 1 implies (#[trigger] files[j]).name@ != e.path@ by {
            assert(files[j].name@ != files[n - 1].name@);
        }
        lemma_find_file_of_first(files, e.path@, n - 1);
        assert(e.sha256@ == sha256_hex_of(files[n - 1].bytes@));
        assert(e.bytes == files[n - 1].bytes@.len());
        assert(entry_mismatches(files, e) =~= Seq::<Seq<char>>::empty());
        assert(mismatches_of(files, pre) == mismatches_of(files, pre.drop_last())
            + entry_mismatches(files, pre.last()));
        assert(mismatches_of(files, pre) =~= Seq::<Seq<char>>::empty());
        assert(count_found(files, pre) == count_found(files, pre.drop_last()) + 1);
    } else {
        assert(entries.subrange(0, 0) =~= Seq::<ManifestEntry>::empty());
    }
}

/// A bundle whose file `i` no longer hashes to what the manifest
/// recorded fails verification, and a mismatch names that file.
pub proof fn lemma_corrupt_file_flagged(
    files: Seq<ReportArtifact>,
    entries: Seq<ManifestEntry>,
    i: int,
)
    requires
        entries.len() == files.len(),
        0 <= i < files.len(),
        forall|k: int| 0 <= k < files.len() ==> (#[trigger] entries[k]).path@ == files[k].name@,
        forall|k: int, j: int|
            0 <= k < j < files.len() ==> (#[trigger] files[k]).name@ != (#[trigger] files[j]).name@,
        sha256_hex_of(files[i].bytes@) != entries[i].sha256@,
    ensures
        mismatches_of(files, entries).contains("hash mismatch "@ + entries[i].path@),
        mismatches_of(files, entries).len() > 0,
{
    lemma_corrupt_file_flagged_prefix(files, entries, i, entries.len() as int);
    assert(entries.subrange(0, entries.len() as int) =~= entries);
    let target = "hash mismatch "@ + entries[i].path@;
    let ms = mismatches_of(files, entries);
    assert(ms.contains(target));
    let k = choose|k: int| 0 <= k < ms.len() && ms[k] == target;
    assert(ms.len() > 0);
}

/// The induction behind `lemma_corrupt_file_flagged`.
proof fn lemma_corrupt_file_flagged_prefix(
    files: Seq<ReportArtifact>,
    entries: Seq<ManifestEntry>,
    i: int,
    n: int,
)
    requires
        entries.len() == files.len(),
        0 <= i < files.len(),
        i < n <= entries.len(),
        forall|k: int| 0 <= k < files.len() ==> (#[trigger] entries[k]).path@ == files[k].name@,
        forall|k: int, j: int|
            0 <= k < j < files.len() ==> (#[trigger] files[k]).name@ != (#[trigger] files[j]).name@,
        sha256_hex_of(files[i].bytes@) != entries[i].sha256@,
    ensures
        mismatches_of(files, entries.subrange(0, n)).contains(
            "hash mismatch "@ + entries[i].path@,
        ),
    decreases n,
{
    let pre = entries.subrange(0, n);
    assert(pre.drop_last() =~= entries.subrange(0, n - 1));
    assert(pre.last() == entries[n - 1]);
    if n - 1 == i {
        let e = entries[i];
        assert(forall|j: int| 0 <= j < i ==> (#[trigger] files[j]).name@ != e.path@);
        lemma_find_file_of_first(files, e.path@, i);
        let ms = entry_mismatches(files, e);
        assert(ms[0] == "hash mismatch "@ + e.path@);
        let whole = mismatches_of(files, pre);
        assert(whole == mismatches_of(files, pre.drop_last()) + ms);
        assert(whole[whole.len() - ms.len()] == ms[0]);
    } else {
        lemma_corrupt_file_flagged_prefix(files, entries, i, n - 1);
        let target = "hash mismatch "@ + entries[i].path@;
        let shorter = mismatches_of(files, entries.subrange(0, n - 1));
        let k = choose|k: int| 0 <= k < shorter.len() && shorter[k] == target;
        assert(mismatches_of(files, pre)[k] == target);
    }
}

} // verus!
