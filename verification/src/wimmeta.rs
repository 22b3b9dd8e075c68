//! WIM image metadata: reading the name, description and size out of the
//! XML that the imaging API hands back, and checks over the image list.
//! Opening WIM files and applying images is the caller's part.

use vstd::prelude::*;

use crate::device::substring_copy;
use crate::errors::{ErrorKind, ForgeError};
use crate::jsonout::push_dec;
use crate::text::{all_digits, decimal_value, parse_u64, str_trim, trimmed};

verus! {

/// One image inside a WIM file, as its XML metadata describes it.
#[derive(Clone, Debug)]
pub struct WimImageInfo {
    pub index: u32,
    pub name: Option<String>,
    pub description: Option<String>,
    pub total_bytes: Option<u64>,
}

/// `pat` occurs in `s` at offset `o`.
pub open spec fn match_at(s: Seq<char>, pat: Seq<char>, o: int) -> bool {
    0 <= o && o + pat.len() <= s.len() && s.subrange(o, o + pat.len()) == pat
}

/// The first offset at or after `from` where `pat` occurs in `s`.
pub open spec fn find_sub(s: Seq<char>, pat: Seq<char>, from: int) -> Option<int>
    decreases s.len() - from + 1,
{
    if from < 0 || from + pat.len() > s.len() {
        None
    } else if s.subrange(from, from + pat.len()) == pat {
        Some(from)
    } else {
        find_sub(s, pat, from + 1)
    }
}

/// Whether `pat` occurs at offset `o` of `s`.
fn match_at_exec(s: &str, pat: &str, o: usize) -> (r: bool)
    requires
        o + pat@.len() <= s@.len(),
    ensures
        r == (s@.subrange(o as int, o + pat@.len()) == pat@),
{
    let s_len = s.unicode_len();
    let p_len = pat.unicode_len();
    proof {
        assert(o + pat@.len() <= s_len);
    }
    let ghost window = s@.subrange(o as int, o + pat@.len());
    let mut j: usize = 0;
    while j < p_len
        invariant
            s_len == s@.len(),
            p_len == pat@.len(),
            o + pat@.len() <= s@.len(),
            j <= p_len,
            window == s@.subrange(o as int, o + pat@.len()),
            forall|k: int| 0 <= k < j ==> window[k] == pat@[k],
        decreases p_len - j,
    {
        if s.get_char(o + j) != pat.get_char(j) {
            proof {
                assert(window[j as int] == s@[o + j]);
            }
            return false;
        }
        proof {
            assert(window[j as int] == s@[o + j]);
        }
        j = j + 1;
    }
    proof {
        assert(window =~= pat@);
    }
    true
}

/// Find the first occurrence of `pat` in `s` at or after `from`.
pub fn find_sub_exec(s: &str, pat: &str, from: usize) -> (r: Option<usize>)
    ensures
        match r {
            Some(i) => find_sub(s@, pat@, from as int) == Some(i as int) && i + pat@.len()
                <= s@.len() && from <= i,
            None => find_sub(s@, pat@, from as int) is None,
        },
{
    let s_len = s.unicode_len();
    let p_len = pat.unicode_len();
    if p_len > s_len {
        return None;
    }
    if from > s_len {
        return None;
    }
    let mut o: usize = from;
    while o <= s_len - p_len
        invariant
            s_len == s@.len(),
            p_len == pat@.len(),
            p_len <= s_len,
            from <= o,
            o <= s_len + 1,
            find_sub(s@, pat@, from as int) == find_sub(s@, pat@, o as int),
        decreases s_len + 1 - o,
    {
        if match_at_exec(s, pat, o) {
            return Some(o);
        }
        if o == s_len {
            proof {
                if pat@.len() == 0 {
                    assert(s@.subrange(o as int, o as int) =~= pat@);
                }
                assert(find_sub(s@, pat@, o as int) is None);
            }
            return None;
        }
        o = o + 1;
    }
    None
}

/// What `extract_tag` must return: the text between the first
/// `<TAG>`/`</TAG>` pair, trimmed; nothing when either tag is missing or
/// the trimmed text is empty.
pub open spec fn extract_tag_spec(xml: Seq<char>, tag: Seq<char>) -> Option<Seq<char>> {
    let start_tag = "<"@ + tag + ">"@;
    let end_tag = "</"@ + tag + ">"@;
    match find_sub(xml, start_tag, 0) {
        None => None,
        Some(i) => {
            let cstart = i + start_tag.len();
            match find_sub(xml, end_tag, cstart) {
                None => None,
                Some(j) => {
                    let content = trimmed(xml.subrange(cstart, j));
                    if content.len() == 0 {
                        None
                    } else {
                        Some(content)
                    }
                },
            }
        },
    }
}

/// Read the trimmed text of the first `<TAG>…</TAG>` pair out of `xml`.
pub fn extract_tag(xml: &str, tag: &str) -> (r: Option<String>)
    ensures
        match r {
            Some(v) => extract_tag_spec(xml@, tag@) == Some(v@),
            None => extract_tag_spec(xml@, tag@) is None,
        },
{
    let mut start_tag = "<".to_owned();
    start_tag.append(tag);
    start_tag.append(">");
    let mut end_tag = "</".to_owned();
    end_tag.append(tag);
    end_tag.append(">");

    let xml_len = xml.unicode_len();
    let i = match find_sub_exec(xml, start_tag.as_str(), 0) {
        Some(i) => i,
        None => {
            return None;
        },
    };
    let cstart = i + start_tag.as_str().unicode_len();
    let j = match find_sub_exec(xml, end_tag.as_str(), cstart) {
        Some(j) => j,
        None => {
            return None;
        },
    };
    proof {
        assert(cstart <= j) by {
            assert(find_sub(xml@, end_tag@, cstart as int) == Some(j as int));
            lemma_find_sub_lower(xml@, end_tag@, cstart as int);
        }
    }
    let content = substring_copy(xml, cstart, j);
    let value = str_trim(content.as_str());
    if value.as_str().unicode_len() == 0 {
        return None;
    }
    Some(value)
}

/// A found occurrence is at or after where the search began.
proof fn lemma_find_sub_lower(s: Seq<char>, pat: Seq<char>, from: int)
    ensures
        find_sub(s, pat, from) matches Some(i) ==> i >= from,
    decreases s.len() - from + 1,
{
    if from >= 0 && from + pat.len() <= s.len() {
        if s.subrange(from, from + pat.len()) == pat {
        } else {
            lemma_find_sub_lower(s, pat, from + 1);
        }
    }
}

/// Assemble one image's metadata from its XML: the `NAME` and
/// `DESCRIPTION` tags, and `TOTALBYTES` as a number when it parses.
pub fn wim_image_info_from_xml(index: u32, xml: &str) -> (r: WimImageInfo)
    ensures
        r.index == index,
        (match r.name {
            Some(v) => extract_tag_spec(xml@, "NAME"@) == Some(v@),
            None => extract_tag_spec(xml@, "NAME"@) is None,
        }),
        (match r.description {
            Some(v) => extract_tag_spec(xml@, "DESCRIPTION"@) == Some(v@),
            None => extract_tag_spec(xml@, "DESCRIPTION"@) is None,
        }),
        (match r.total_bytes {
            Some(v) => extract_tag_spec(xml@, "TOTALBYTES"@) matches Some(t) && t.len() > 0
                && all_digits(t) && decimal_value(t) == v,
            None => (match extract_tag_spec(xml@, "TOTALBYTES"@) {
                Some(t) => !(t.len() > 0 && all_digits(t) && decimal_value(t) <= u64::MAX),
                None => true,
            }),
        }),
{
    let name = extract_tag(xml, "NAME");
    let description = extract_tag(xml, "DESCRIPTION");
    let total_bytes = match extract_tag(xml, "TOTALBYTES") {
        Some(v) => parse_u64(v.as_str()),
        None => None,
    };
    WimImageInfo { index, name, description, total_bytes }
}

/// The first image with the given index, if any.
pub open spec fn image_with_index(images: Seq<WimImageInfo>, index: u32) -> Option<int>
    decreases images.len(),
{
    if images.len() == 0 {
        None
    } else if images[0].index == index {
        Some(0int)
    } else {
        match image_with_index(images.drop_first(), index) {
            Some(i) => Some(i + 1),
            None => None,
        }
    }
}

/// Find the image with the given index, or fail with
/// `image index not found`.
pub fn find_wim_image(images: &Vec<WimImageInfo>, index: u32) -> (r: Result<usize, ForgeError>)
    ensures
        r is Ok <==> image_with_index(images@, index) is Some,
        r matches Ok(i) ==> image_with_index(images@, index) == Some(i as int) && i
            < images@.len(),
        r matches Err(e) ==> e.kind == ErrorKind::Precondition && e.message@
            == "image index not found"@,
{
    proof {
        assert(images@.skip(0) =~= images@);
    }
    let mut i: usize = 0;
    while i < images.len()
        invariant
            i <= images@.len(),
            image_with_index(images@, index) == (match image_with_index(
                images@.skip(i as int),
                index,
            ) {
                Some(k) => Some(k + i),
                None => None::<int>,
            }),
        decreases images@.len() - i,
    {
        proof {
            let rest = images@.skip(i as int);
            assert(rest[0] == images@[i as int]);
            assert(rest.drop_first() =~= images@.skip(i as int + 1));
        }
        if images[i].index == index {
            return Ok(i);
        }
        i = i + 1;
    }
    proof {
        assert(images@.skip(images@.len() as int) =~= Seq::<WimImageInfo>::empty());
    }
    Err(ForgeError::new(ErrorKind::Precondition, "image index not found"))
}

/// Check an applied image's size against what its metadata promised,
/// within a one-percent tolerance.
///
/// Succeeds exactly when no size was promised or the applied bytes come
/// within a hundredth of it; the failure is a `VerifyFailed` naming both
/// numbers.
pub fn apply_size_check(applied_bytes: u64, expected: Option<u64>) -> (r: Result<(), ForgeError>)
    ensures
        r is Ok <==> (match expected {
            Some(x) => applied_bytes + x / 100 >= x,
            None => true,
        }),
        r matches Err(e) ==> e.kind == ErrorKind::VerifyFailed,
{
    match expected {
        None => Ok(()),
        Some(x) => {
            let tolerance = x / 100;
            if applied_bytes >= x {
                return Ok(());
            }
            if x - applied_bytes > tolerance {
                let mut msg = "verification failed: bytes ".to_owned();
                push_dec(&mut msg, applied_bytes);
                msg.append(" < expected ");
                push_dec(&mut msg, x);
                return Err(ForgeError { kind: ErrorKind::VerifyFailed, message: msg });
            }
            Ok(())
        },
    }
}

} // verus!
