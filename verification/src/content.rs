//! Content sources: classifying a source path as a directory or an ISO,
//! and locating the Windows install image inside a prepared source.
//! Mounting ISOs and walking directories is the caller's part.

use vstd::prelude::*;

use crate::device::{find_char_last, last_char_at, substring_copy};
use crate::errors::{ErrorKind, ForgeError};
use crate::text::{eq_ignore_case, str_eq, str_eq_ignore_case};

verus! {

/// How a source was provided.
#[derive(Clone, Copy, Debug, PartialEq, Eq, Structural)]
pub enum SourceKind {
    Directory,
    Iso,
}

/// A source made ready for reading: its root directory and how it got
/// there. The caller owns whatever mount backs an ISO root.
#[derive(Clone, Debug)]
pub struct PreparedSource {
    pub root: String,
    pub kind: SourceKind,
}

/// The extension of a path: what follows the last `.` of the file name,
/// when that dot is not its first character.
pub open spec fn extension_of(s: Seq<char>) -> Option<Seq<char>> {
    let name = (match last_char_at(s, '/') {
        Some(i) => s.skip(i + 1),
        None => s,
    });
    match last_char_at(name, '.') {
        Some(d) => if d > 0 {
            Some(name.skip(d + 1))
        } else {
            None
        },
        None => None,
    }
}

/// Whether the path's extension equals `ext` up to ASCII case.
pub fn has_extension(path: &str, ext: &str) -> (r: bool)
    ensures
        r == (match extension_of(path@) {
            Some(e) => eq_ignore_case(e, ext@),
            None => false,
        }),
{
    let len = path.unicode_len();
    let start: usize = match find_char_last(path, '/') {
        Some(i) => i + 1,
        None => 0,
    };
    let name = substring_copy(path, start, len);
    proof {
        match last_char_at(path@, '/') {
            Some(i) => {
                assert(name@ =~= path@.skip(i + 1));
            },
            None => {
                assert(name@ =~= path@);
            },
        }
    }
    let n = name.as_str();
    let n_len = n.unicode_len();
    match find_char_last(n, '.') {
        Some(d) => {
            if d == 0 {
                return false;
            }
            let tail = substring_copy(n, d + 1, n_len);
            proof {
                assert(tail@ =~= n@.skip(d + 1));
            }
            str_eq_ignore_case(tail.as_str(), ext)
        },
        None => false,
    }
}

/// Whether the path names an ISO image.
pub fn is_iso(path: &str) -> (r: bool)
    ensures
        r == (match extension_of(path@) {
            Some(e) => eq_ignore_case(e, "iso"@),
            None => false,
        }),
{
    has_extension(path, "iso")
}

/// Whether the path names a WIM or ESD image.
pub fn is_wim(path: &str) -> (r: bool)
    ensures
        r == (match extension_of(path@) {
            Some(e) => eq_ignore_case(e, "wim"@) || eq_ignore_case(e, "esd"@),
            None => false,
        }),
{
    if has_extension(path, "wim") {
        return true;
    }
    has_extension(path, "esd")
}

/// Whether some element of `present` reads exactly `path`.
pub open spec fn listed_path(present: Seq<String>, path: Seq<char>) -> bool {
    exists|i: int| 0 <= i < present.len() && (#[trigger] present[i])@ == path
}

/// Whether `present` lists `path`.
fn contains_rel(present: &Vec<String>, path: &str) -> (r: bool)
    ensures
        r == listed_path(present@, path@),
{
    let mut i: usize = 0;
    while i < present.len()
        invariant
            i <= present@.len(),
            forall|j: int| 0 <= j < i ==> (#[trigger] present@[j])@ != path@,
        decreases present@.len() - i,
    {
        if str_eq(present[i].as_str(), path) {
            proof {
                assert((present@[i as int])@ == path@);
            }
            return true;
        }
        i = i + 1;
    }
    false
}

/// Which install image a prepared source offers.
pub open spec fn windows_image_choice(present: Seq<String>) -> Option<Seq<char>> {
    if listed_path(present, "sources/install.wim"@) {
        Some("sources/install.wim"@)
    } else if listed_path(present, "sources/install.esd"@) {
        Some("sources/install.esd"@)
    } else if listed_path(present, "install.wim"@) {
        Some("install.wim"@)
    } else if listed_path(present, "install.esd"@) {
        Some("install.esd"@)
    } else {
        None
    }
}

/// Locate the Windows install image inside a prepared source, given
/// which files exist under its root: `sources/install.wim`, then
/// `sources/install.esd`, then the two root-level names.
///
/// Succeeds exactly when one candidate is present, returning
/// `root/<candidate>` for the first; the error otherwise is a
/// `Precondition`.
pub fn find_windows_image(root: &str, present: &Vec<String>) -> (r: Result<String, ForgeError>)
    ensures
        r is Ok <==> windows_image_choice(present@) is Some,
        r matches Ok(p) ==> p@ == root@ + "/"@ + windows_image_choice(present@)->0,
        r matches Err(e) ==> e.kind == ErrorKind::Precondition && e.message@
            == "install.wim or install.esd not found in source"@,
{
    let candidate: Option<&'static str> = if contains_rel(present, "sources/install.wim") {
        Some("sources/install.wim")
    } else if contains_rel(present, "sources/install.esd") {
        Some("sources/install.esd")
    } else if contains_rel(present, "install.wim") {
        Some("install.wim")
    } else if contains_rel(present, "install.esd") {
        Some("install.esd")
    } else {
        None
    };
    match candidate {
        Some(c) => {
            let mut path = root.to_owned();
            path.append("/");
            path.append(c);
            Ok(path)
        },
        None => Err(
            ForgeError::new(
                ErrorKind::Precondition,
                "install.wim or install.esd not found in source",
            ),
        ),
    }
}

} // verus!
