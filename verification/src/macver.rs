//! macOS version handling: parsing numeric or marketing-name versions,
//! and choosing the filesystem an installer volume should carry.

use vstd::prelude::*;

use crate::device::first_char_from;
use crate::text::{all_digits, decimal_value, lower_code, parse_u32, trimmed, str_trim};

verus! {

/// A version character folded for comparison: ASCII case ignored,
/// hyphens read as spaces.
pub open spec fn fold_code(c: char) -> u32 {
    if c == '-' {
        32u32
    } else {
        lower_code(c)
    }
}

/// The folded codes of a trimmed version string.
pub open spec fn folded(s: Seq<char>) -> Seq<u32> {
    trimmed(s).map_values(|c: char| fold_code(c))
}

/// `pat` occurs somewhere in `codes`.
pub open spec fn codes_contain(codes: Seq<u32>, pat: Seq<u32>) -> bool {
    exists|o: int|
        0 <= o && o + pat.len() <= codes.len() && #[trigger] codes.subrange(o, o + pat.len())
            == pat
}

/// The folded code of one character.
fn fold_code_exec(c: char) -> (r: u32)
    ensures
        r == fold_code(c),
{
    if c == '-' {
        32
    } else {
        crate::text::char_lower_code(c)
    }
}

/// Whether the folded, trimmed version text contains the folded pattern.
pub fn version_contains(value: &str, pat: &str) -> (r: bool)
    ensures
        r == codes_contain(folded(value@), pat@.map_values(|c: char| fold_code(c))),
{
    let t = str_trim(value);
    let s = t.as_str();
    let s_len = s.unicode_len();
    let p_len = pat.unicode_len();
    let ghost codes = folded(value@);
    let ghost pcodes = pat@.map_values(|c: char| fold_code(c));
    proof {
        assert(codes.len() == s@.len());
        assert(pcodes.len() == pat@.len());
    }
    if p_len > s_len {
        return false;
    }
    let mut o: usize = 0;
    while o <= s_len - p_len
        invariant
            s@ == trimmed(value@),
            s_len == s@.len(),
            p_len == pat@.len(),
            p_len <= s_len,
            o <= s_len + 1,
            codes == folded(value@),
            pcodes == pat@.map_values(|c: char| fold_code(c)),
            codes.len() == s_len,
            pcodes.len() == p_len,
            forall|q: int|
                0 <= q < o ==> #[trigger] codes.subrange(q, q + pcodes.len() as int) != pcodes,
        decreases s_len + 1 - o,
    {
        let ghost window = codes.subrange(o as int, o + pcodes.len() as int);
        let mut j: usize = 0;
        let mut matched = true;
        while j < p_len
            invariant
                s@ == trimmed(value@),
                s_len == s@.len(),
                p_len == pat@.len(),
                o + p_len <= s_len,
                j <= p_len,
                codes == folded(value@),
                pcodes == pat@.map_values(|c: char| fold_code(c)),
                codes.len() == s_len,
                window == codes.subrange(o as int, o + pcodes.len() as int),
                matched ==> forall|k: int| 0 <= k < j ==> window[k] == pcodes[k],
                !matched ==> window != pcodes,
            decreases p_len - j,
        {
            let ca = fold_code_exec(s.get_char(o + j));
            let cb = fold_code_exec(pat.get_char(j));
            proof {
                assert(window[j as int] == codes[o + j]);
                assert(codes[o + j] == fold_code(s@[o + j]));
                assert(pcodes[j as int] == fold_code(pat@[j as int]));
            }
            if ca != cb {
                proof {
                    assert(window[j as int] != pcodes[j as int]);
                }
                matched = false;
                j = p_len;
            } else {
                j = j + 1;
            }
        }
        if matched {
            proof {
                assert(window =~= pcodes);
            }
            return true;
        }
        if o == s_len {
            proof {
                if pcodes.len() == 0 {
                    assert(codes.subrange(o as int, o as int) =~= pcodes);
                }
            }
            return false;
        }
        o = o + 1;
    }
    proof {
        assert forall|q: int|
            0 <= q && q + pcodes.len() <= codes.len() implies #[trigger] codes.subrange(
            q,
            q + pcodes.len() as int,
        ) != pcodes by {
            assert(q < o);
        }
    }
    false
}

/// The major and minor numbers of a dotted version string: the text up
/// to the first dot, then up to the second; an unparsable minor is zero.
pub open spec fn numeric_version_of(s: Seq<char>) -> Option<(u32, u32)> {
    let major_end = (match first_char_from(s, '.', 0) {
        Some(i) => i,
        None => s.len() as int,
    });
    let major_text = s.subrange(0, major_end);
    if major_text.len() > 0 && all_digits(major_text) && decimal_value(major_text) <= u32::MAX {
        let major = decimal_value(major_text) as u32;
        if major_end == s.len() {
            Some((major, 0u32))
        } else {
            let minor_end = (match first_char_from(s, '.', major_end + 1) {
                Some(i) => i,
                None => s.len() as int,
            });
            let minor_text = s.subrange(major_end + 1, minor_end);
            if minor_text.len() > 0 && all_digits(minor_text) && decimal_value(minor_text)
                <= u32::MAX {
                Some((major, decimal_value(minor_text) as u32))
            } else {
                Some((major, 0u32))
            }
        }
    } else {
        None
    }
}

/// Parse a dotted numeric version: `Some` exactly when the text up to
/// the first dot is a number; the minor part defaults to zero.
pub fn parse_numeric_version(value: &str) -> (r: Option<(u32, u32)>)
    ensures
        r == numeric_version_of(value@),
{
    let len = value.unicode_len();
    let major_end: usize = match crate::device::find_char_from(value, '.', 0) {
        Some(i) => i,
        None => len,
    };
    let major_text = crate::device::substring_copy(value, 0, major_end);
    let major = match parse_u32(major_text.as_str()) {
        Some(v) => v,
        None => {
            return None;
        },
    };
    if major_end == len {
        return Some((major, 0));
    }
    let minor_end: usize = match crate::device::find_char_from(value, '.', major_end + 1) {
        Some(i) => i,
        None => len,
    };
    let minor_text = crate::device::substring_copy(value, major_end + 1, minor_end);
    let minor = match parse_u32(minor_text.as_str()) {
        Some(v) => v,
        None => 0,
    };
    Some((major, minor))
}

/// The marketing names the patcher knows, in probe order, with their
/// versions.
pub open spec fn named_version_of(codes: Seq<u32>) -> Option<(u32, u32)> {
    if codes_contain(codes, name_codes("snow leopard"@)) {
        Some((10u32, 6u32))
    } else if codes_contain(codes, name_codes("lion"@)) {
        Some((10u32, 7u32))
    } else if codes_contain(codes, name_codes("mountain lion"@)) {
        Some((10u32, 8u32))
    } else if codes_contain(codes, name_codes("mavericks"@)) {
        Some((10u32, 9u32))
    } else if codes_contain(codes, name_codes("yosemite"@)) {
        Some((10u32, 10u32))
    } else if codes_contain(codes, name_codes("el capitan"@)) {
        Some((10u32, 11u32))
    } else if codes_contain(codes, name_codes("sierra"@)) {
        Some((10u32, 12u32))
    } else if codes_contain(codes, name_codes("high sierra"@)) {
        Some((10u32, 13u32))
    } else if codes_contain(codes, name_codes("mojave"@)) {
        Some((10u32, 14u32))
    } else if codes_contain(codes, name_codes("catalina"@)) {
        Some((10u32, 15u32))
    } else if codes_contain(codes, name_codes("big sur"@)) {
        Some((11u32, 0u32))
    } else if codes_contain(codes, name_codes("monterey"@)) {
        Some((12u32, 0u32))
    } else if codes_contain(codes, name_codes("ventura"@)) {
        Some((13u32, 0u32))
    } else if codes_contain(codes, name_codes("sonoma"@)) {
        Some((14u32, 0u32))
    } else if codes_contain(codes, name_codes("sequoia"@)) {
        Some((15u32, 0u32))
    } else if codes_contain(codes, name_codes("tahoe"@)) {
        Some((26u32, 0u32))
    } else {
        None
    }
}

/// A marketing name's folded codes.
pub open spec fn name_codes(s: Seq<char>) -> Seq<u32> {
    s.map_values(|c: char| fold_code(c))
}

/// What a version string means: its dotted numbers when they parse,
/// otherwise the first marketing name it contains.
pub open spec fn macos_version_of(s: Seq<char>) -> Option<(u32, u32)> {
    match numeric_version_of(trimmed(s)) {
        Some(v) => Some(v),
        None => named_version_of(folded(s)),
    }
}

/// Parse a macOS version, numeric or by marketing name.
pub fn parse_macos_version(value: &str) -> (r: Option<(u32, u32)>)
    ensures
        r == macos_version_of(value@),
{
    let t = str_trim(value);
    match parse_numeric_version(t.as_str()) {
        Some(v) => {
            return Some(v);
        },
        None => {},
    }
    if version_contains(value, "snow leopard") {
        Some((10, 6))
    } else if version_contains(value, "lion") {
        Some((10, 7))
    } else if version_contains(value, "mountain lion") {
        Some((10, 8))
    } else if version_contains(value, "mavericks") {
        Some((10, 9))
    } else if version_contains(value, "yosemite") {
        Some((10, 10))
    } else if version_contains(value, "el capitan") {
        Some((10, 11))
    } else if version_contains(value, "sierra") {
        Some((10, 12))
    } else if version_contains(value, "high sierra") {
        Some((10, 13))
    } else if version_contains(value, "mojave") {
        Some((10, 14))
    } else if version_contains(value, "catalina") {
        Some((10, 15))
    } else if version_contains(value, "big sur") {
        Some((11, 0))
    } else if version_contains(value, "monterey") {
        Some((12, 0))
    } else if version_contains(value, "ventura") {
        Some((13, 0))
    } else if version_contains(value, "sonoma") {
        Some((14, 0))
    } else if version_contains(value, "sequoia") {
        Some((15, 0))
    } else if version_contains(value, "tahoe") {
        Some((26, 0))
    } else {
        None
    }
}

/// The filesystem an installer volume for this macOS version should
/// carry: APFS from 10.13 on, journaled HFS+ before.
pub open spec fn fs_for_version(v: (u32, u32)) -> Seq<char> {
    if v.0 > 10 || (v.0 == 10 && v.1 >= 13) {
        "APFS"@
    } else {
        "JHFS+"@
    }
}

/// Choose the filesystem for a macOS installer volume from its version.
///
/// `Some` exactly when the version parses; APFS from High Sierra on,
/// JHFS+ before.
pub fn select_macos_fs(version: &str) -> (r: Option<String>)
    ensures
        match r {
            Some(fs) => macos_version_of(version@) matches Some(v) && fs@ == fs_for_version(v),
            None => macos_version_of(version@) is None,
        },
{
    match parse_macos_version(version) {
        Some((major, minor)) => {
            if major > 10 || (major == 10 && minor >= 13) {
                Some("APFS".to_owned())
            } else {
                Some("JHFS+".to_owned())
            }
        },
        None => None,
    }
}

/// The filesystem a macOS installer step targets: the explicit choice,
/// else the version's default, else APFS.
pub fn macos_target_fs(filesystem: Option<&String>, macos_version: Option<&String>) -> (r: String)
    ensures
        (match filesystem {
            Some(fs) => r@ == fs@,
            None => (match macos_version {
                Some(v) => (match macos_version_of(v@) {
                    Some(ver) => r@ == fs_for_version(ver),
                    None => r@ == "APFS"@,
                }),
                None => r@ == "APFS"@,
            }),
        }),
{
    match filesystem {
        Some(fs) => fs.clone(),
        None => {
            match macos_version {
                Some(v) => {
                    match select_macos_fs(v.as_str()) {
                        Some(fs) => fs,
                        None => "APFS".to_owned(),
                    }
                },
                None => "APFS".to_owned(),
            }
        },
    }
}

} // verus!
