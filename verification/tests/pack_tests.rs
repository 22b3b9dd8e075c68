use phoenix_forge::pack::{
    resolve_pack_workflow_paths, sign_pack_manifest, validate_pack_manifest,
    verify_pack_manifest, PackManifest,
};

fn manifest() -> PackManifest {
    PackManifest {
        schema_version: "1.0.0".to_string(),
        name: "usb-kit".to_string(),
        version: "0.3.0".to_string(),
        description: None,
        workflows: vec!["workflows/a.json".to_string(), "workflows/b.json".to_string()],
        assets: Some("assets".to_string()),
    }
}

#[test]
fn pack_schema_is_checked() {
    assert!(validate_pack_manifest(&manifest()).is_ok());
    let mut wrong = manifest();
    wrong.schema_version = "0.9.0".to_string();
    let err = validate_pack_manifest(&wrong).unwrap_err();
    assert_eq!(err.message(), "unsupported pack schema version 0.9.0");
}

#[test]
fn workflows_resolve_relative_to_the_manifest() {
    let paths = resolve_pack_workflow_paths("/packs/demo", &manifest());
    assert_eq!(
        paths,
        vec![
            "/packs/demo/workflows/a.json".to_string(),
            "/packs/demo/workflows/b.json".to_string()
        ]
    );
}

#[test]
fn pack_signature_round_trip() {
    let bytes = br#"{"schema_version":"1.0.0","name":"usb-kit"}"#.to_vec();
    let key = "a1b2c3d4".to_string();
    let signature = sign_pack_manifest(&bytes, &key).unwrap();
    assert!(verify_pack_manifest(&bytes, &key, &signature).unwrap());
    assert!(verify_pack_manifest(&bytes, &key, &signature.to_uppercase()).unwrap());
    assert!(!verify_pack_manifest(&bytes, "ffff", &signature).unwrap());
    let mut tampered = bytes.clone();
    tampered[0] ^= 1;
    assert!(!verify_pack_manifest(&tampered, &key, &signature).unwrap());
    assert!(sign_pack_manifest(&bytes, "xyz").is_err());
}
