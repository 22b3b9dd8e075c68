//! Workflow definitions and their validation, the typed per-action
//! parameter records, and the step execution mode that ties dry-run and
//! the safety gate together.

use vstd::prelude::*;

use crate::errors::{ErrorKind, ForgeError};
use crate::report::ReportPaths;
use crate::safety::{can_write_to_disk, gate_allows, SafetyContext, SafetyDecision};
use crate::text::{str_eq, str_trim, trimmed};

verus! {

/// A value of a step's free-form parameter mapping.
#[derive(Clone, Debug)]
pub enum ParamValue {
    Str(String),
    U64(u64),
    Bool(bool),
}

/// A step's parameters: an ordered key-value mapping.
#[derive(Clone, Debug)]
pub struct ParamMap {
    pub entries: Vec<(String, ParamValue)>,
}

/// One step of a workflow: an id, an action name, and parameters.
#[derive(Clone, Debug)]
pub struct WorkflowStep {
    pub id: String,
    pub action: String,
    pub params: ParamMap,
}

/// A workflow: a schema version, a name, and ordered steps.
#[derive(Clone, Debug)]
pub struct WorkflowDefinition {
    pub schema_version: String,
    pub name: String,
    pub steps: Vec<WorkflowStep>,
}

/// What one executed step reports back.
#[derive(Clone, Debug)]
pub struct WorkflowStepResult {
    pub id: String,
    pub action: String,
    pub report_root: Option<String>,
    pub duration_ms: u64,
}

/// What a whole run reports back: the parent report and each step.
#[derive(Clone, Debug)]
pub struct WorkflowRunResult {
    pub report: ReportPaths,
    pub steps: Vec<WorkflowStepResult>,
}

/// The workflow schema this library accepts, exactly.
pub fn workflow_schema_version() -> (v: &'static str)
    ensures
        v@ == "1.0.0"@,
{
    "1.0.0"
}

/// The first value stored under `key`, if any.
pub open spec fn map_get(entries: Seq<(String, ParamValue)>, key: Seq<char>) -> Option<ParamValue>
    decreases entries.len(),
{
    if entries.len() == 0 {
        None
    } else if entries[0].0@ == key {
        Some(entries[0].1)
    } else {
        map_get(entries.drop_first(), key)
    }
}

/// The string stored under `key`, if the key holds a string.
pub open spec fn str_param(entries: Seq<(String, ParamValue)>, key: Seq<char>) -> Option<Seq<char>> {
    match map_get(entries, key) {
        Some(ParamValue::Str(s)) => Some(s@),
        _ => None,
    }
}

/// The integer stored under `key`, if the key holds an integer.
pub open spec fn u64_param(entries: Seq<(String, ParamValue)>, key: Seq<char>) -> Option<u64> {
    match map_get(entries, key) {
        Some(ParamValue::U64(v)) => Some(v),
        _ => None,
    }
}

/// The boolean stored under `key`, or `default` when absent or not a
/// boolean.
pub open spec fn bool_param_or(
    entries: Seq<(String, ParamValue)>,
    key: Seq<char>,
    default: bool,
) -> bool {
    match map_get(entries, key) {
        Some(ParamValue::Bool(b)) => b,
        _ => default,
    }
}

/// An optional string field of a record mirrors an optional parameter.
pub open spec fn opt_str_matches(v: Option<String>, p: Option<Seq<char>>) -> bool {
    match (v, p) {
        (Some(a), Some(b)) => a@ == b,
        (None, None) => true,
        _ => false,
    }
}

impl ParamMap {
    /// Look up the first value under `key`.
    pub fn get(&self, key: &str) -> (r: Option<&ParamValue>)
        ensures
            match r {
                Some(v) => map_get(self.entries@, key@) == Some(*v),
                None => map_get(self.entries@, key@) is None,
            },
    {
        proof {
            assert(self.entries@.skip(0) =~= self.entries@);
        }
        let mut i: usize = 0;
        while i < self.entries.len()
            invariant
                i <= self.entries@.len(),
                map_get(self.entries@, key@) == map_get(self.entries@.skip(i as int), key@),
            decreases self.entries@.len() - i,
        {
            proof {
                let rest = self.entries@.skip(i as int);
                assert(rest[0] == self.entries@[i as int]);
                assert(rest.drop_first() =~= self.entries@.skip(i as int + 1));
            }
            if str_eq(self.entries[i].0.as_str(), key) {
                return Some(&self.entries[i].1);
            }
            i = i + 1;
        }
        proof {
            assert(self.entries@.skip(self.entries@.len() as int) =~= Seq::<(
                String,
                ParamValue,
            )>::empty());
        }
        None
    }

    /// The string under `key`, or a `Precondition` error naming the key.
    pub fn require_string(&self, key: &str) -> (r: Result<String, ForgeError>)
        ensures
            r is Ok <==> str_param(self.entries@, key@) is Some,
            r matches Ok(s) ==> Some(s@) == str_param(self.entries@, key@),
            r matches Err(e) ==> e.kind == ErrorKind::Precondition && e.message@
                == "missing string field "@ + key@,
    {
        match self.get(key) {
            Some(ParamValue::Str(s)) => Ok(s.clone()),
            _ => {
                let mut msg = "missing string field ".to_owned();
                msg.append(key);
                Err(ForgeError { kind: ErrorKind::Precondition, message: msg })
            },
        }
    }

    /// The string under `key`, if the key holds a string.
    pub fn optional_string(&self, key: &str) -> (r: Option<String>)
        ensures
            match r {
                Some(s) => str_param(self.entries@, key@) == Some(s@),
                None => str_param(self.entries@, key@) is None,
            },
    {
        match self.get(key) {
            Some(ParamValue::Str(s)) => Some(s.clone()),
            _ => None,
        }
    }

    /// The integer under `key`, truncated to `u32`, or a `Precondition`
    /// error naming the key.
    pub fn require_u32(&self, key: &str) -> (r: Result<u32, ForgeError>)
        ensures
            r is Ok <==> u64_param(self.entries@, key@) is Some,
            r matches Ok(v) ==> Some(v as u64) == (match u64_param(self.entries@, key@) {
                Some(w) => Some((w as u32) as u64),
                None => None::<u64>,
            }),
            r matches Err(e) ==> e.kind == ErrorKind::Precondition && e.message@
                == "missing number field "@ + key@,
    {
        match self.get(key) {
            Some(ParamValue::U64(v)) => Ok(#[verifier::truncate] (*v as u32)),
            _ => {
                let mut msg = "missing number field ".to_owned();
                msg.append(key);
                Err(ForgeError { kind: ErrorKind::Precondition, message: msg })
            },
        }
    }

    /// The integer under `key`, if the key holds an integer.
    pub fn optional_u64(&self, key: &str) -> (r: Option<u64>)
        ensures
            r == u64_param(self.entries@, key@),
    {
        match self.get(key) {
            Some(ParamValue::U64(v)) => Some(*v),
            _ => None,
        }
    }

    /// The boolean under `key`, or `default`.
    pub fn optional_bool(&self, key: &str, default: bool) -> (r: bool)
        ensures
            r == bool_param_or(self.entries@, key@, default),
    {
        match self.get(key) {
            Some(ParamValue::Bool(b)) => *b,
            _ => default,
        }
    }
}

/// The operating system an action demands, if it demands one.
pub open spec fn required_os(action: Seq<char>) -> Option<Seq<char>> {
    if action == "windows_installer_usb"@ {
        Some("windows"@)
    } else if action == "windows_apply_image"@ {
        Some("windows"@)
    } else if action == "linux_installer_usb"@ {
        Some("linux"@)
    } else if action == "macos_installer_usb"@ {
        Some("macos"@)
    } else if action == "linux_boot_prep"@ {
        Some("linux"@)
    } else if action == "macos_boot_prep"@ {
        Some("macos"@)
    } else if action == "stage_bootloader"@ {
        None
    } else if action == "linux_write_image"@ {
        Some("linux"@)
    } else if action == "macos_write_image"@ {
        Some("macos"@)
    } else if action == "macos_legacy_patch"@ {
        Some("macos"@)
    } else {
        None
    }
}

/// Whether `action` is in the dispatch table at all.
pub open spec fn action_known(action: Seq<char>) -> bool {
    ||| action == "windows_installer_usb"@
    ||| action == "windows_apply_image"@
    ||| action == "linux_installer_usb"@
    ||| action == "macos_installer_usb"@
    ||| action == "linux_write_image"@
    ||| action == "macos_write_image"@
    ||| action == "linux_boot_prep"@
    ||| action == "macos_boot_prep"@
    ||| action == "stage_bootloader"@
    ||| action == "macos_legacy_patch"@
    ||| action == "report_verify"@
    ||| action == "disk_hash_report"@
}

/// The required parameters of an action are present with the right
/// shapes.
pub open spec fn step_params_ok(step: WorkflowStep) -> bool {
    let p = step.params.entries@;
    if step.action@ == "windows_installer_usb"@ {
        str_param(p, "target_disk_id"@) is Some && str_param(p, "source_path"@) is Some
    } else if step.action@ == "windows_apply_image"@ {
        str_param(p, "source_path"@) is Some && u64_param(p, "image_index"@) is Some && str_param(
            p,
            "target_dir"@,
        ) is Some
    } else if step.action@ == "linux_installer_usb"@ {
        str_param(p, "source_path"@) is Some && str_param(p, "target_mount"@) is Some
    } else if step.action@ == "macos_installer_usb"@ {
        str_param(p, "source_path"@) is Some && str_param(p, "target_mount"@) is Some
    } else if step.action@ == "linux_boot_prep"@ {
        str_param(p, "source_path"@) is Some && str_param(p, "target_mount"@) is Some
    } else if step.action@ == "macos_boot_prep"@ {
        str_param(p, "source_path"@) is Some && str_param(p, "target_mount"@) is Some
    } else if step.action@ == "stage_bootloader"@ {
        str_param(p, "source_path"@) is Some && str_param(p, "target_mount"@) is Some
    } else if step.action@ == "linux_write_image"@ {
        str_param(p, "source_image"@) is Some && str_param(p, "target_device"@) is Some
    } else if step.action@ == "macos_write_image"@ {
        str_param(p, "source_image"@) is Some && str_param(p, "target_device"@) is Some
    } else if step.action@ == "macos_legacy_patch"@ {
        str_param(p, "source_path"@) is Some
    } else if step.action@ == "report_verify"@ {
        str_param(p, "path"@) is Some
    } else if step.action@ == "disk_hash_report"@ {
        str_param(p, "disk_id"@) is Some
    } else {
        false
    }
}

/// A step is valid on `host_os`: the action is known, may run on this
/// host, and has its required parameters.
pub open spec fn step_valid(step: WorkflowStep, host_os: Seq<char>) -> bool {
    &&& action_known(step.action@)
    &&& (match required_os(step.action@) {
        Some(os) => os == host_os,
        None => true,
    })
    &&& step_params_ok(step)
}

/// Check the current host against an action's OS requirement.
///
/// Succeeds exactly when they match; the error otherwise carries the
/// `UnsupportedPlatform` kind.
pub fn ensure_os(required: &str, current: &str) -> (r: Result<(), ForgeError>)
    ensures
        r is Ok <==> required@ == current@,
        r matches Err(e) ==> e.kind == ErrorKind::UnsupportedPlatform,
{
    if str_eq(required, current) {
        Ok(())
    } else {
        let mut msg = "action requires ".to_owned();
        msg.append(required);
        msg.append(", current ");
        msg.append(current);
        Err(ForgeError { kind: ErrorKind::UnsupportedPlatform, message: msg })
    }
}

/// Validate one step's action, OS requirement, and required parameters.
///
/// Succeeds exactly when the step is valid on `host_os`. A wrong host
/// carries `UnsupportedPlatform`; everything else is a `Precondition`.
#[verifier::rlimit(60)]
pub fn validate_step(step: &WorkflowStep, host_os: &str) -> (r: Result<(), ForgeError>)
    ensures
        r is Ok <==> step_valid(*step, host_os@),
        r matches Err(e) ==> e.kind == ErrorKind::Precondition || e.kind
            == ErrorKind::UnsupportedPlatform,
{
    proof {
        reveal_strlit("windows_installer_usb");
        reveal_strlit("windows_apply_image");
        reveal_strlit("linux_installer_usb");
        reveal_strlit("macos_installer_usb");
        reveal_strlit("linux_write_image");
        reveal_strlit("macos_write_image");
        reveal_strlit("linux_boot_prep");
        reveal_strlit("macos_boot_prep");
        reveal_strlit("stage_bootloader");
        reveal_strlit("macos_legacy_patch");
        reveal_strlit("report_verify");
        reveal_strlit("disk_hash_report");
    }
    let a = step.action.as_str();
    if str_eq(a, "windows_installer_usb") {
        match ensure_os("windows", host_os) {
            Ok(_) => {},
            Err(e) => {
                return Err(e);
            },
        }
        match step.params.require_string("target_disk_id") {
            Ok(_) => {},
            Err(e) => {
                return Err(e);
            },
        }
        match step.params.require_string("source_path") {
            Ok(_) => {},
            Err(e) => {
                return Err(e);
            },
        }
        Ok(())
    } else if str_eq(a, "windows_apply_image") {
        match ensure_os("windows", host_os) {
            Ok(_) => {},
            Err(e) => {
                return Err(e);
            },
        }
        match step.params.require_string("source_path") {
            Ok(_) => {},
            Err(e) => {
                return Err(e);
            },
        }
        match step.params.require_u32("image_index") {
            Ok(_) => {},
            Err(e) => {
                return Err(e);
            },
        }
        match step.params.require_string("target_dir") {
            Ok(_) => {},
            Err(e) => {
                return Err(e);
            },
        }
        Ok(())
    } else if str_eq(a, "linux_installer_usb") {
        match ensure_os("linux", host_os) {
            Ok(_) => {},
            Err(e) => {
                return Err(e);
            },
        }
        match step.params.require_string("source_path") {
            Ok(_) => {},
            Err(e) => {
                return Err(e);
            },
        }
        match step.params.require_string("target_mount") {
            Ok(_) => {},
            Err(e) => {
                return Err(e);
            },
        }
        Ok(())
    } else if str_eq(a, "macos_installer_usb") {
        match ensure_os("macos", host_os) {
            Ok(_) => {},
            Err(e) => {
                return Err(e);
            },
        }
        match step.params.require_string("source_path") {
            Ok(_) => {},
            Err(e) => {
                return Err(e);
            },
        }
        match step.params.require_string("target_mount") {
            Ok(_) => {},
            Err(e) => {
                return Err(e);
            },
        }
        Ok(())
    } else if str_eq(a, "linux_boot_prep") {
        match ensure_os("linux", host_os) {
            Ok(_) => {},
            Err(e) => {
                return Err(e);
            },
        }
        match step.params.require_string("source_path") {
            Ok(_) => {},
            Err(e) => {
                return Err(e);
            },
        }
        match step.params.require_string("target_mount") {
            Ok(_) => {},
            Err(e) => {
                return Err(e);
            },
        }
        Ok(())
    } else if str_eq(a, "macos_boot_prep") {
        match ensure_os("macos", host_os) {
            Ok(_) => {},
            Err(e) => {
                return Err(e);
            },
        }
        match step.params.require_string("source_path") {
            Ok(_) => {},
            Err(e) => {
                return Err(e);
            },
        }
        match step.params.require_string("target_mount") {
            Ok(_) => {},
            Err(e) => {
                return Err(e);
            },
        }
        Ok(())
    } else if str_eq(a, "stage_bootloader") {
        match step.params.require_string("source_path") {
            Ok(_) => {},
            Err(e) => {
                return Err(e);
            },
        }
        match step.params.require_string("target_mount") {
            Ok(_) => {},
            Err(e) => {
                return Err(e);
            },
        }
        Ok(())
    } else if str_eq(a, "linux_write_image") {
        match ensure_os("linux", host_os) {
            Ok(_) => {},
            Err(e) => {
                return Err(e);
            },
        }
        match step.params.require_string("source_image") {
            Ok(_) => {},
            Err(e) => {
                return Err(e);
            },
        }
        match step.params.require_string("target_device") {
            Ok(_) => {},
            Err(e) => {
                return Err(e);
            },
        }
        Ok(())
    } else if str_eq(a, "macos_write_image") {
        match ensure_os("macos", host_os) {
            Ok(_) => {},
            Err(e) => {
                return Err(e);
            },
        }
        match step.params.require_string("source_image") {
            Ok(_) => {},
            Err(e) => {
                return Err(e);
            },
        }
        match step.params.require_string("target_device") {
            Ok(_) => {},
            Err(e) => {
                return Err(e);
            },
        }
        Ok(())
    } else if str_eq(a, "macos_legacy_patch") {
        match ensure_os("macos", host_os) {
            Ok(_) => {},
            Err(e) => {
                return Err(e);
            },
        }
        match step.params.require_string("source_path") {
            Ok(_) => {},
            Err(e) => {
                return Err(e);
            },
        }
        Ok(())
    } else if str_eq(a, "report_verify") {
        match step.params.require_string("path") {
            Ok(_) => {},
            Err(e) => {
                return Err(e);
            },
        }
        Ok(())
    } else if str_eq(a, "disk_hash_report") {
        match step.params.require_string("disk_id") {
            Ok(_) => {},
            Err(e) => {
                return Err(e);
            },
        }
        Ok(())
    } else {
        let mut msg = "unknown workflow action ".to_owned();
        msg.append(a);
        Err(ForgeError { kind: ErrorKind::Precondition, message: msg })
    }
}

/// A whole definition is valid on `host_os`: right schema, at least one
/// step, every id non-blank, no two ids equal, every step valid.
pub open spec fn definition_valid(def: WorkflowDefinition, host_os: Seq<char>) -> bool {
    &&& def.schema_version@ == "1.0.0"@
    &&& def.steps@.len() > 0
    &&& forall|i: int|
        0 <= i < def.steps@.len() ==> trimmed((#[trigger] def.steps@[i]).id@).len() > 0
    &&& forall|i: int, j: int|
        0 <= i < j < def.steps@.len() ==> (#[trigger] def.steps@[i]).id@
            != (#[trigger] def.steps@[j]).id@
    &&& forall|i: int| 0 <= i < def.steps@.len() ==> step_valid(#[trigger] def.steps@[i], host_os)
}

/// Validate a workflow definition against the dispatch table.
///
/// Succeeds exactly when the definition is valid on `host_os`: its
/// schema version is `1.0.0`, it has steps, each step id is non-blank
/// and unique, and each step passes `validate_step`. When everything
/// else is in order and only an id repeats, the error reads
/// `duplicate step id <id>` for a repeated id.
pub fn validate_workflow_definition(def: &WorkflowDefinition, host_os: &str) -> (r: Result<
    (),
    ForgeError,
>)
    ensures
        r is Ok <==> definition_valid(*def, host_os@),
        r matches Err(e) ==> e.kind == ErrorKind::Precondition || e.kind
            == ErrorKind::UnsupportedPlatform,
        (def.schema_version@ == "1.0.0"@ && def.steps@.len() > 0 && (forall|i: int|
            0 <= i < def.steps@.len() ==> trimmed((#[trigger] def.steps@[i]).id@).len() > 0)
            && (forall|i: int|
            0 <= i < def.steps@.len() ==> step_valid(#[trigger] def.steps@[i], host_os@)) && (
        exists|i: int, j: int|
            0 <= j < i < def.steps@.len() && (#[trigger] def.steps@[i]).id@
                == (#[trigger] def.steps@[j]).id@)) ==> (r matches Err(e) && exists|i: int|
            0 <= i < def.steps@.len() && (exists|j: int|
                0 <= j < i && (#[trigger] def.steps@[j]).id@ == def.steps@[i].id@)
                && e.message@ == "duplicate step id "@ + (#[trigger] def.steps@[i]).id@),
{
    if !str_eq(def.schema_version.as_str(), "1.0.0") {
        let mut msg = "unsupported workflow schema version ".to_owned();
        msg.append(def.schema_version.as_str());
        return Err(ForgeError { kind: ErrorKind::Precondition, message: msg });
    }
    if def.steps.len() == 0 {
        return Err(ForgeError::new(ErrorKind::Precondition, "workflow has no steps"));
    }

    let mut i: usize = 0;
    while i < def.steps.len()
        invariant
            i <= def.steps@.len(),
            forall|k: int|
                0 <= k < i ==> trimmed((#[trigger] def.steps@[k]).id@).len() > 0,
            forall|k: int, j: int|
                0 <= k < j < i ==> (#[trigger] def.steps@[k]).id@ != (#[trigger] def.steps@[j]).id@,
            forall|k: int| 0 <= k < i ==> step_valid(#[trigger] def.steps@[k], host_os@),
        decreases def.steps@.len() - i,
    {
        let step = &def.steps[i];
        let t = str_trim(step.id.as_str());
        if t.as_str().unicode_len() == 0 {
            return Err(ForgeError::new(ErrorKind::Precondition, "workflow step id is empty"));
        }
        let mut j: usize = 0;
        while j < i
            invariant
                j <= i < def.steps@.len(),
                step.id@ == def.steps@[i as int].id@,
                forall|k: int|
                    0 <= k < j ==> (#[trigger] def.steps@[k]).id@ != def.steps@[i as int].id@,
            decreases i - j,
        {
            if str_eq(def.steps[j].id.as_str(), step.id.as_str()) {
                proof {
                    assert(def.steps@[j as int].id@ == def.steps@[i as int].id@);
                }
                let mut msg = "duplicate step id ".to_owned();
                msg.append(step.id.as_str());
                proof {
                    assert(msg@ == "duplicate step id "@ + def.steps@[i as int].id@);
                }
                return Err(ForgeError { kind: ErrorKind::Precondition, message: msg });
            }
            proof {
                assert(def.steps@[j as int].id@ != def.steps@[i as int].id@);
            }
            j = j + 1;
        }
        match validate_step(step, host_os) {
            Ok(()) => {},
            Err(e) => {
                return Err(e);
            },
        }
        i = i + 1;
    }
    Ok(())
}

/// How a step is to proceed once preflight has passed.
#[derive(Clone, Copy, Debug, PartialEq, Eq, Structural)]
pub enum StepMode {
    /// Evidence only: write the report, touch nothing.
    DryRun,
    /// The safety gate allowed the destructive effect.
    Execute,
}

/// Decide how a destructive step proceeds: dry-run skips the safety gate
/// entirely; otherwise the safety gate rules.
///
/// A dry run always comes back `DryRun`, whatever the context holds.
/// Otherwise the step may execute exactly when the safety gate allows it, and a
/// refusal carries the safety gate's reason under `SafetyDenied`.
pub fn step_mode(dry_run: bool, ctx: &SafetyContext, is_system_target: bool) -> (r: Result<
    StepMode,
    ForgeError,
>)
    ensures
        dry_run ==> r == Ok::<StepMode, ForgeError>(StepMode::DryRun),
        !dry_run ==> (r is Ok <==> gate_allows(*ctx)),
        !dry_run ==> (r matches Ok(m) ==> m == StepMode::Execute),
        r matches Err(e) ==> e.kind == ErrorKind::SafetyDenied,
{
    if dry_run {
        return Ok(StepMode::DryRun);
    }
    match can_write_to_disk(ctx, is_system_target) {
        SafetyDecision::Allow => Ok(StepMode::Execute),
        SafetyDecision::Deny(reason) => Err(
            ForgeError { kind: ErrorKind::SafetyDenied, message: reason },
        ),
    }
}

/// The status a step's report records.
pub fn step_status(dry_run: bool) -> (r: &'static str)
    ensures
        dry_run ==> r@ == "dry_run"@,
        !dry_run ==> r@ == "completed"@,
{
    if dry_run {
        "dry_run"
    } else {
        "completed"
    }
}

/// A runnable workflow: a name and a run action. Implementations live
/// with the callers that own the platform side of each action.
pub trait Workflow {
    fn name(&self) -> &'static str;

    fn run(&self) -> Result<(), ForgeError>;
}

/// Run a workflow by delegating to its `run` method.
pub fn run_workflow<W: Workflow>(workflow: W) -> Result<(), ForgeError> {
    workflow.run()
}

} // verus!
