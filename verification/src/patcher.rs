//! The legacy-installer patcher's decision core: which plists inside an
//! installer app are candidates, and how a supported-models or board-id
//! array is amended. Reading and rewriting the plists themselves is the
//! caller's part; the logic here is over the array contents, and is
//! idempotent by construction.

use vstd::prelude::*;

use crate::report::ReportPaths;
use crate::text::str_eq;

verus! {

/// What a legacy patch run needs: where the installer is, where reports
/// go, what to insert, and the safety inputs.
#[derive(Clone, Debug)]
pub struct LegacyPatchParams {
    pub source_path: String,
    pub report_base: String,
    pub model: Option<String>,
    pub board_id: Option<String>,
    pub force: bool,
    pub confirmation_token: Option<String>,
    pub dry_run: bool,
}

/// What a legacy patch run produced.
#[derive(Clone, Debug)]
pub struct LegacyPatchResult {
    pub report: ReportPaths,
    pub patched_files: Vec<String>,
    pub dry_run: bool,
}

/// The plists inside an installer app that may carry supported-model or
/// board-id arrays, relative to the app root, in probe order.
pub fn patch_candidates(app_root: &str) -> (r: Vec<String>)
    ensures
        r@.len() == 3,
        r@[0]@ == app_root@ + "/Contents/SharedSupport/PlatformSupport.plist"@,
        r@[1]@ == app_root@ + "/Contents/SharedSupport/InstallInfo.plist"@,
        r@[2]@ == app_root@ + "/Contents/Resources/InstallInfo.plist"@,
{
    let mut out: Vec<String> = Vec::new();
    let mut p = app_root.to_owned();
    p.append("/Contents/SharedSupport/PlatformSupport.plist");
    out.push(p);
    let mut p = app_root.to_owned();
    p.append("/Contents/SharedSupport/InstallInfo.plist");
    out.push(p);
    let mut p = app_root.to_owned();
    p.append("/Contents/Resources/InstallInfo.plist");
    out.push(p);
    out
}

/// Whether some element of `array` reads exactly `entry`.
pub open spec fn array_contains(array: Seq<String>, entry: Seq<char>) -> bool {
    exists|i: int| 0 <= i < array.len() && (#[trigger] array[i])@ == entry
}

/// What an array must be after the patch: unchanged when the entry is
/// already present, the entry appended otherwise.
pub open spec fn patched_array(array: Seq<String>, entry: Seq<char>) -> Seq<Seq<char>> {
    if array_contains(array, entry) {
        array.map_values(|s: String| s@)
    } else {
        array.map_values(|s: String| s@).push(entry)
    }
}

/// Insert `entry` into a supported-values array if it is absent.
///
/// Leaves the array alone — and reports no change — when the entry is
/// already there; appends it and reports a change otherwise.
pub fn patch_string_array(array: &mut Vec<String>, entry: &str) -> (changed: bool)
    ensures
        changed == !array_contains(old(array)@, entry@),
        final(array)@.map_values(|s: String| s@) == patched_array(old(array)@, entry@),
        !changed ==> final(array)@ == old(array)@,
{
    let mut i: usize = 0;
    while i < array.len()
        invariant
            i <= array@.len(),
            array@ == old(array)@,
            forall|j: int| 0 <= j < i ==> (#[trigger] array@[j])@ != entry@,
        decreases array@.len() - i,
    {
        if str_eq(array[i].as_str(), entry) {
            proof {
                assert(array_contains(array@, entry@)) by {
                    assert((array@[i as int])@ == entry@);
                }
                assert(array@.map_values(|s: String| s@) =~= patched_array(old(array)@, entry@));
            }
            return false;
        }
        i = i + 1;
    }
    assert(!array_contains(array@, entry@));
    array.push(entry.to_owned());
    proof {
        assert(array@.map_values(|s: String| s@) =~= patched_array(old(array)@, entry@));
    }
    true
}

/// Patching is idempotent: applying the same entry twice gives the array
/// the first application gave.
pub proof fn lemma_patch_idempotent(array: Seq<String>, after_once: Seq<String>, entry: Seq<char>)
    requires
        after_once.map_values(|s: String| s@) == patched_array(array, entry),
    ensures
        patched_array(after_once, entry) == patched_array(array, entry),
{
    let views = after_once.map_values(|s: String| s@);
    if array_contains(array, entry) {
        let i = choose|i: int| 0 <= i < array.len() && (#[trigger] array[i])@ == entry;
        assert(views[i] == entry);
        assert(after_once[i]@ == entry);
        assert(array_contains(after_once, entry));
    } else {
        let n = array.len() as int;
        assert(views.len() == n + 1);
        assert(views[n] == entry);
        assert(after_once[n]@ == entry);
        assert(array_contains(after_once, entry));
    }
}

} // verus!
