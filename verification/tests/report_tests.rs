use phoenix_forge::hex::{decode_hex, to_hex};
use phoenix_forge::hmac::hmac_sha256;
use phoenix_forge::digest::sha256_hex;
use phoenix_forge::report::{
    build_manifest, manifest_to_json, sign_manifest_bytes, verify_report_bundle, ReportArtifact,
};
use sha2::{Digest, Sha256};

fn hex(bytes: &[u8]) -> String {
    let mut out = String::new();
    for b in bytes {
        out.push_str(&format!("{:02x}", b));
    }
    out
}

fn sample_files() -> Vec<ReportArtifact> {
    vec![
        ReportArtifact {
            name: "device_graph.json".to_string(),
            bytes: br#"{"host":{"os":"linux"},"disks":[]}"#.to_vec(),
        },
        ReportArtifact {
            name: "run.json".to_string(),
            bytes: br#"{"k":"v"}"#.to_vec(),
        },
        ReportArtifact {
            name: "logs.txt".to_string(),
            bytes: b"hello".to_vec(),
        },
    ]
}

#[test]
fn bundle_round_trip() {
    let files = sample_files();
    let key_hex = "00".repeat(32);

    let manifest = build_manifest("run-1", &files);
    assert_eq!(manifest.entries.len(), 3);
    let names: Vec<&str> = manifest.entries.iter().map(|e| e.path.as_str()).collect();
    assert_eq!(names, vec!["device_graph.json", "run.json", "logs.txt"]);
    for (entry, file) in manifest.entries.iter().zip(files.iter()) {
        assert_eq!(entry.bytes, file.bytes.len() as u64);
        assert_eq!(entry.sha256, hex(&Sha256::digest(&file.bytes)));
    }

    let manifest_json = manifest_to_json(&manifest);
    let manifest_bytes = manifest_json.clone().into_bytes();
    let signature = sign_manifest_bytes(&manifest_bytes, &key_hex).unwrap();
    let key = decode_hex(&key_hex).unwrap();
    assert_eq!(signature, hex(&hmac_sha256(&key, &manifest_bytes)));

    let verification = verify_report_bundle(
        &manifest,
        &files,
        &manifest_bytes,
        Some(&signature),
        Some(&key_hex),
    )
    .unwrap();
    assert!(verification.ok);
    assert_eq!(verification.entries_checked, 3);
    assert!(verification.mismatches.is_empty());
    assert_eq!(verification.signature_valid, Some(true));
}

#[test]
fn flipped_byte_fails_verification() {
    let files = sample_files();
    let manifest = build_manifest("run-2", &files);
    let manifest_bytes = manifest_to_json(&manifest).into_bytes();

    let mut corrupted = sample_files();
    corrupted[2].bytes[0] ^= 0x01;

    let verification =
        verify_report_bundle(&manifest, &corrupted, &manifest_bytes, None, None).unwrap();
    assert!(!verification.ok);
    assert!(verification
        .mismatches
        .iter()
        .any(|m| m == "hash mismatch logs.txt"));
    assert_eq!(verification.signature_valid, None);
}

#[test]
fn missing_file_is_reported() {
    let files = sample_files();
    let manifest = build_manifest("run-3", &files);
    let manifest_bytes = manifest_to_json(&manifest).into_bytes();

    let shorter = vec![files[0].clone(), files[1].clone()];
    let verification =
        verify_report_bundle(&manifest, &shorter, &manifest_bytes, None, None).unwrap();
    assert!(!verification.ok);
    assert_eq!(verification.entries_checked, 2);
    assert!(verification.mismatches.iter().any(|m| m == "missing logs.txt"));
}

#[test]
fn wrong_key_fails_signature() {
    let files = sample_files();
    let manifest = build_manifest("run-4", &files);
    let manifest_bytes = manifest_to_json(&manifest).into_bytes();
    let signature = sign_manifest_bytes(&manifest_bytes, &"00".repeat(32)).unwrap();

    let other_key = "11".repeat(32);
    let verification = verify_report_bundle(
        &manifest,
        &files,
        &manifest_bytes,
        Some(&signature),
        Some(&other_key),
    )
    .unwrap();
    assert_eq!(verification.signature_valid, Some(false));
    assert!(!verification.ok);
}

#[test]
fn signature_requires_key() {
    let files = sample_files();
    let manifest = build_manifest("run-5", &files);
    let manifest_bytes = manifest_to_json(&manifest).into_bytes();
    let signature = sign_manifest_bytes(&manifest_bytes, &"00".repeat(32)).unwrap();
    let err = verify_report_bundle(&manifest, &files, &manifest_bytes, Some(&signature), None)
        .unwrap_err();
    assert_eq!(err.message(), "signing key required");
}

#[test]
fn manifest_json_is_pretty_printed() {
    let manifest = build_manifest(
        "abc",
        &vec![ReportArtifact {
            name: "logs.txt".to_string(),
            bytes: b"hello".to_vec(),
        }],
    );
    let json = manifest_to_json(&manifest);
    let parsed: serde_json::Value = serde_json::from_str(&json).unwrap();
    assert_eq!(parsed["run_id"], "abc");
    assert_eq!(parsed["entries"][0]["path"], "logs.txt");
    assert_eq!(parsed["entries"][0]["bytes"], 5);
    assert_eq!(
        parsed["entries"][0]["sha256"],
        hex(&Sha256::digest(b"hello")).as_str()
    );
    // The canonical text is pretty-printed, two-space indented.
    let expected = format!(
        "{{\n  \"run_id\": \"abc\",\n  \"entries\": [\n    {{\n      \"path\": \"logs.txt\",\n      \"bytes\": 5,\n      \"sha256\": \"{}\"\n    }}\n  ]\n}}",
        hex(&Sha256::digest(b"hello"))
    );
    assert_eq!(json, expected);

    let empty = build_manifest("r0", &vec![]);
    let empty_json = manifest_to_json(&empty);
    assert_eq!(empty_json, "{\n  \"run_id\": \"r0\",\n  \"entries\": []\n}");
    let parsed: serde_json::Value = serde_json::from_str(&empty_json).unwrap();
    assert_eq!(parsed["entries"].as_array().unwrap().len(), 0);
}

#[test]
fn sha256_matches_known_vector() {
    let data = b"abc".to_vec();
    assert_eq!(
        sha256_hex(&data),
        "ba7816bf8f01cfea414140de5dae2223b00361a396177a9cb410ff61f20015ad"
    );
}

#[test]
fn hmac_matches_rfc_vector() {
    let key = vec![0x0bu8; 20];
    let message = b"Hi There".to_vec();
    let mac = hmac_sha256(&key, &message);
    assert_eq!(
        to_hex(&mac),
        "b0344c61d8db38535ca8afceaf0bf12b881dc200c9833da726e9376c2e32cff7"
    );
}

#[test]
fn hex_round_trip_and_errors() {
    let bytes = vec![0x00u8, 0x7f, 0xff, 0x10];
    let encoded = to_hex(&bytes);
    assert_eq!(encoded, "007fff10");
    assert_eq!(decode_hex(&encoded).unwrap(), bytes);
    assert_eq!(decode_hex("  AaBb  ").unwrap(), vec![0xaa, 0xbb]);
    assert!(decode_hex("abc").is_err());
    assert!(decode_hex("zz").is_err());
}
