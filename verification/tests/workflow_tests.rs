use phoenix_forge::errors::ErrorKind;
use phoenix_forge::engine::{build_hash_params, build_unix_write_params, build_usb_params, FileSystem, parse_filesystem};
use phoenix_forge::safety::SafetyContext;
use phoenix_forge::workflow::{
    step_mode, step_status, validate_workflow_definition, ParamMap, ParamValue, StepMode,
    WorkflowDefinition, WorkflowStep,
};

fn params(entries: Vec<(&str, ParamValue)>) -> ParamMap {
    ParamMap {
        entries: entries
            .into_iter()
            .map(|(k, v)| (k.to_string(), v))
            .collect(),
    }
}

fn step(id: &str, action: &str, p: ParamMap) -> WorkflowStep {
    WorkflowStep {
        id: id.to_string(),
        action: action.to_string(),
        params: p,
    }
}

#[test]
fn duplicate_step_ids_are_rejected() {
    let mut definition = WorkflowDefinition {
        schema_version: "1.0.0".to_string(),
        name: "w".to_string(),
        steps: vec![
            step(
                "a",
                "disk_hash_report",
                params(vec![("disk_id", ParamValue::Str("X".to_string()))]),
            ),
            step(
                "a",
                "report_verify",
                params(vec![("path", ParamValue::Str("/tmp/r".to_string()))]),
            ),
        ],
    };
    let err = validate_workflow_definition(&definition, "linux").unwrap_err();
    assert_eq!(err.message(), "duplicate step id a");

    definition.steps[1].id = "b".to_string();
    assert!(validate_workflow_definition(&definition, "linux").is_ok());
}

#[test]
fn schema_version_must_match() {
    let definition = WorkflowDefinition {
        schema_version: "2.0.0".to_string(),
        name: "w".to_string(),
        steps: vec![step(
            "a",
            "report_verify",
            params(vec![("path", ParamValue::Str("/tmp/r".to_string()))]),
        )],
    };
    let err = validate_workflow_definition(&definition, "linux").unwrap_err();
    assert_eq!(err.kind, ErrorKind::Precondition);
}

#[test]
fn empty_and_unknown_steps_are_rejected() {
    let empty = WorkflowDefinition {
        schema_version: "1.0.0".to_string(),
        name: "w".to_string(),
        steps: vec![],
    };
    assert!(validate_workflow_definition(&empty, "linux").is_err());

    let unknown = WorkflowDefinition {
        schema_version: "1.0.0".to_string(),
        name: "w".to_string(),
        steps: vec![step("a", "definitely_not_an_action", params(vec![]))],
    };
    let err = validate_workflow_definition(&unknown, "linux").unwrap_err();
    assert_eq!(err.message(), "unknown workflow action definitely_not_an_action");
}

#[test]
fn missing_required_param_is_rejected() {
    let definition = WorkflowDefinition {
        schema_version: "1.0.0".to_string(),
        name: "w".to_string(),
        steps: vec![step("a", "disk_hash_report", params(vec![]))],
    };
    let err = validate_workflow_definition(&definition, "linux").unwrap_err();
    assert_eq!(err.message(), "missing string field disk_id");
}

#[test]
fn os_requirement_is_enforced() {
    let definition = WorkflowDefinition {
        schema_version: "1.0.0".to_string(),
        name: "w".to_string(),
        steps: vec![step(
            "a",
            "linux_write_image",
            params(vec![
                ("source_image", ParamValue::Str("img".to_string())),
                ("target_device", ParamValue::Str("/dev/sdb".to_string())),
            ]),
        )],
    };
    assert!(validate_workflow_definition(&definition, "linux").is_ok());
    let err = validate_workflow_definition(&definition, "macos").unwrap_err();
    assert_eq!(err.kind, ErrorKind::UnsupportedPlatform);
}

#[test]
fn dry_run_never_consults_the_gate() {
    let hostile = SafetyContext {
        force_mode: false,
        confirmation_token: None,
    };
    let mode = step_mode(true, &hostile, false).unwrap();
    assert_eq!(mode, StepMode::DryRun);
    assert_eq!(step_status(true), "dry_run");
    assert_eq!(step_status(false), "completed");
}

#[test]
fn live_step_needs_the_gate() {
    let denied = SafetyContext {
        force_mode: true,
        confirmation_token: Some("BAD".to_string()),
    };
    let err = step_mode(false, &denied, false).unwrap_err();
    assert_eq!(err.kind, ErrorKind::SafetyDenied);

    let allowed = SafetyContext {
        force_mode: true,
        confirmation_token: Some("PHX-go".to_string()),
    };
    assert_eq!(step_mode(false, &allowed, false).unwrap(), StepMode::Execute);
}

#[test]
fn usb_params_builder_reads_fields_and_defaults() {
    let p = params(vec![
        ("target_disk_id", ParamValue::Str("PhysicalDrive1".to_string())),
        ("source_path", ParamValue::Str("/src".to_string())),
        ("force", ParamValue::Bool(true)),
    ]);
    let built = build_usb_params(&p, "/reports").unwrap();
    assert_eq!(built.target_disk_id, "PhysicalDrive1");
    assert_eq!(built.source_path, "/src");
    assert_eq!(built.report_base, "/reports");
    assert!(built.force);
    assert!(built.dry_run);
    assert!(!built.repartition);
    assert_eq!(built.filesystem, FileSystem::Fat32);

    let missing = params(vec![("source_path", ParamValue::Str("/src".to_string()))]);
    assert!(build_usb_params(&missing, "/reports").is_err());
}

#[test]
fn write_params_builder_defaults_chunk_size() {
    let p = params(vec![
        ("source_image", ParamValue::Str("img".to_string())),
        ("target_device", ParamValue::Str("/dev/sdb".to_string())),
    ]);
    let built = build_unix_write_params(&p, ".").unwrap();
    assert_eq!(built.chunk_size, 8 * 1024 * 1024);
    assert!(!built.verify);
}

#[test]
fn hash_params_builder() {
    let p = params(vec![
        ("disk_id", ParamValue::Str("sdb".to_string())),
        ("chunk_size", ParamValue::U64(1024)),
        ("max_chunks", ParamValue::U64(4)),
    ]);
    let built = build_hash_params(&p, ".").unwrap();
    assert_eq!(built.disk_id, "sdb");
    assert_eq!(built.chunk_size, 1024);
    assert_eq!(built.max_chunks, Some(4));
}

#[test]
fn filesystem_parse_and_labels() {
    assert_eq!(parse_filesystem(" FAT32 "), Some(FileSystem::Fat32));
    assert_eq!(parse_filesystem("ntfs"), Some(FileSystem::Ntfs));
    assert_eq!(parse_filesystem("ExFAT"), Some(FileSystem::ExFat));
    assert_eq!(parse_filesystem("hfs"), None);
    assert_eq!(FileSystem::Fat32.as_str(), "FAT32");
    assert_eq!(FileSystem::Ntfs.as_str(), "NTFS");
    assert_eq!(FileSystem::ExFat.as_str(), "exFAT");
}
