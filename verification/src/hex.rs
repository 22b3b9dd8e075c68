//! Lowercase hex encoding and decoding, as used for digests, signatures
//! and signing keys.

use vstd::prelude::*;

use crate::errors::{ErrorKind, ForgeError};
use crate::text::{push_char, str_trim, trimmed};

verus! {

/// The lowercase hex digit for a value below 16.
pub open spec fn hex_digit_spec(v: u8) -> char {
    if v == 0 {
        '0'
    } else if v == 1 {
        '1'
    } else if v == 2 {
        '2'
    } else if v == 3 {
        '3'
    } else if v == 4 {
        '4'
    } else if v == 5 {
        '5'
    } else if v == 6 {
        '6'
    } else if v == 7 {
        '7'
    } else if v == 8 {
        '8'
    } else if v == 9 {
        '9'
    } else if v == 10 {
        'a'
    } else if v == 11 {
        'b'
    } else if v == 12 {
        'c'
    } else if v == 13 {
        'd'
    } else if v == 14 {
        'e'
    } else {
        'f'
    }
}

/// The lowercase hex rendering of a byte sequence, two digits per byte.
pub open spec fn hex_of(bytes: Seq<u8>) -> Seq<char>
    decreases bytes.len(),
{
    if bytes.len() == 0 {
        Seq::empty()
    } else {
        hex_of(bytes.drop_last()).push(hex_digit_spec(bytes.last() / 16)).push(
            hex_digit_spec(bytes.last() % 16),
        )
    }
}

/// The value of a hex digit character, upper or lower case, if it is one.
pub open spec fn hex_digit_value(c: char) -> Option<u8> {
    if 48 <= c as u32 && c as u32 <= 57 {
        Some((c as u32 - 48) as u8)
    } else if 97 <= c as u32 && c as u32 <= 102 {
        Some((c as u32 - 87) as u8)
    } else if 65 <= c as u32 && c as u32 <= 70 {
        Some((c as u32 - 55) as u8)
    } else {
        None
    }
}

/// Every character of `s` is a hex digit.
pub open spec fn all_hex_digits(s: Seq<char>) -> bool {
    forall|i: int| 0 <= i < s.len() ==> #[trigger] hex_digit_value(s[i]) is Some
}

/// The bytes written in hex as `s`; meaningful when `s` has even length
/// and holds hex digits only.
pub open spec fn hex_decoded(s: Seq<char>) -> Seq<u8>
    decreases s.len(),
{
    if s.len() < 2 {
        Seq::empty()
    } else {
        hex_decoded(s.drop_last().drop_last()).push(
            (match (hex_digit_value(s[s.len() - 2]), hex_digit_value(s[s.len() - 1])) {
                (Some(hi), Some(lo)) => (hi * 16 + lo) as u8,
                _ => 0,
            }),
        )
    }
}

/// Append the two hex digits of one byte.
fn push_hex_byte(out: &mut String, b: u8)
    ensures
        final(out)@ == old(out)@.push(hex_digit_spec(b / 16)).push(hex_digit_spec(b % 16)),
{
    let hi = b / 16;
    let lo = b % 16;
    push_char(out, hex_digit_char(hi));
    push_char(out, hex_digit_char(lo));
}

/// The lowercase hex digit character for a value below 16.
fn hex_digit_char(v: u8) -> (c: char)
    requires
        v < 16,
    ensures
        c == hex_digit_spec(v),
{
    match v {
        0 => '0',
        1 => '1',
        2 => '2',
        3 => '3',
        4 => '4',
        5 => '5',
        6 => '6',
        7 => '7',
        8 => '8',
        9 => '9',
        10 => 'a',
        11 => 'b',
        12 => 'c',
        13 => 'd',
        14 => 'e',
        _ => 'f',
    }
}

/// Render `bytes` as lowercase hex, two digits per byte.
pub fn to_hex(bytes: &Vec<u8>) -> (r: String)
    ensures
        r@ == hex_of(bytes@),
{
    let mut out = String::new();
    let mut i: usize = 0;
    while i < bytes.len()
        invariant
            i <= bytes@.len(),
            out@ == hex_of(bytes@.subrange(0, i as int)),
        decreases bytes@.len() - i,
    {
        push_hex_byte(&mut out, bytes[i]);
        proof {
            let pre = bytes@.subrange(0, i as int + 1);
            assert(pre.drop_last() =~= bytes@.subrange(0, i as int));
            assert(pre.last() == bytes@[i as int]);
        }
        i = i + 1;
    }
    proof {
        assert(bytes@.subrange(0, bytes@.len() as int) =~= bytes@);
    }
    out
}

/// The exec value of one hex digit character.
fn hex_digit_of_char(c: char) -> (r: Option<u8>)
    ensures
        r == hex_digit_value(c),
{
    let code = c as u32;
    if 48 <= code && code <= 57 {
        Some((code - 48) as u8)
    } else if 97 <= code && code <= 102 {
        Some((code - 87) as u8)
    } else if 65 <= code && code <= 70 {
        Some((code - 55) as u8)
    } else {
        None
    }
}

/// Decode a hex string into bytes, after trimming surrounding whitespace.
///
/// Returns `Ok` exactly when the trimmed text has even length and holds
/// hex digits only; the error is a `Precondition` otherwise.
pub fn decode_hex(value: &str) -> (r: Result<Vec<u8>, ForgeError>)
    ensures
        r is Ok <==> trimmed(value@).len() % 2 == 0 && all_hex_digits(trimmed(value@)),
        r matches Ok(b) ==> b@ == hex_decoded(trimmed(value@)),
        r matches Err(e) ==> e.kind == ErrorKind::Precondition,
{
    let t = str_trim(value);
    let s = t.as_str();
    let len = s.unicode_len();
    if len % 2 != 0 {
        return Err(ForgeError::new(
            ErrorKind::Precondition,
            "signing key hex must be even length",
        ));
    }
    let mut out: Vec<u8> = Vec::new();
    let mut i: usize = 0;
    while i + 1 < len
        invariant
            len == s@.len(),
            s@ == trimmed(value@),
            len % 2 == 0,
            i % 2 == 0,
            i <= len,
            all_hex_digits(s@.subrange(0, i as int)),
            out@ == hex_decoded(s@.subrange(0, i as int)),
        decreases len - i,
    {
        let hi = s.get_char(i);
        let lo = s.get_char(i + 1);
        let hv = match hex_digit_of_char(hi) {
            Some(v) => v,
            None => {
                proof {
                    assert(hex_digit_value(s@[i as int]) is None);
                }
                return Err(ForgeError::new(ErrorKind::Precondition, "invalid hex"));
            },
        };
        let lv = match hex_digit_of_char(lo) {
            Some(v) => v,
            None => {
                proof {
                    assert(hex_digit_value(s@[i as int + 1]) is None);
                }
                return Err(ForgeError::new(ErrorKind::Precondition, "invalid hex"));
            },
        };
        out.push(hv * 16 + lv);
        proof {
            let pre = s@.subrange(0, i as int + 2);
            assert(pre.drop_last().drop_last() =~= s@.subrange(0, i as int));
            assert(pre[pre.len() - 2] == s@[i as int]);
            assert(pre[pre.len() - 1] == s@[i as int + 1]);
            assert forall|j: int| 0 <= j < pre.len() implies #[trigger] hex_digit_value(
                pre[j],
            ) is Some by {
                if j < i {
                    assert(pre[j] == s@.subrange(0, i as int)[j]);
                }
            }
        }
        i = i + 2;
    }
    proof {
        assert(i == len);
        assert(s@.subrange(0, len as int) =~= s@);
    }
    Ok(out)
}

/// Decoding inverts encoding: the hex rendering of any byte sequence
/// trims to itself, is all hex digits, and decodes to the same bytes.
pub proof fn lemma_hex_round_trip(bytes: Seq<u8>)
    ensures
        trimmed(hex_of(bytes)) == hex_of(bytes),
        hex_of(bytes).len() == 2 * bytes.len(),
        all_hex_digits(hex_of(bytes)),
        hex_decoded(hex_of(bytes)) == bytes,
    decreases bytes.len(),
{
    if bytes.len() == 0 {
        assert(hex_of(bytes) =~= Seq::<char>::empty());
        assert(hex_decoded(hex_of(bytes)) =~= bytes);
    } else {
        lemma_hex_round_trip(bytes.drop_last());
        let h = hex_of(bytes);
        let prev = hex_of(bytes.drop_last());
        let b = bytes.last();
        assert(h == prev.push(hex_digit_spec(b / 16)).push(hex_digit_spec(b % 16)));
        assert(h.len() == prev.len() + 2);
        assert forall|i: int| 0 <= i < h.len() implies #[trigger] hex_digit_value(h[i]) is Some by {
            if i < prev.len() {
                assert(h[i] == prev[i]);
            } else if i == prev.len() {
                assert(h[i] == hex_digit_spec(b / 16));
                lemma_hex_digit_value(b / 16);
            } else {
                assert(h[i] == hex_digit_spec(b % 16));
                lemma_hex_digit_value(b % 16);
            }
        }
        assert(h.drop_last().drop_last() =~= prev);
        lemma_hex_digit_value(b / 16);
        lemma_hex_digit_value(b % 16);
        assert(hex_digit_value(h[h.len() - 2]) == Some(b / 16));
        assert(hex_digit_value(h[h.len() - 1]) == Some(b % 16));
        assert(hex_decoded(h) == hex_decoded(prev).push((b / 16 * 16 + b % 16) as u8));
        assert(b / 16 * 16 + b % 16 == b);
        assert(hex_decoded(h) =~= bytes);
        lemma_hex_not_spacey(bytes);
        assert(trimmed(h) == h) by {
            lemma_trim_id(h);
        }
    }
}

/// Hex digits decode to the value they encode.
pub proof fn lemma_hex_digit_value(v: u8)
    requires
        v < 16,
    ensures
        hex_digit_value(hex_digit_spec(v)) == Some(v),
{
}

/// Hex renderings hold no whitespace.
pub proof fn lemma_hex_not_spacey(bytes: Seq<u8>)
    ensures
        forall|i: int| 0 <= i < hex_of(bytes).len() ==> !crate::text::is_spacey(
            #[trigger] hex_of(bytes)[i],
        ),
    decreases bytes.len(),
{
    if bytes.len() > 0 {
        lemma_hex_not_spacey(bytes.drop_last());
        let h = hex_of(bytes);
        let prev = hex_of(bytes.drop_last());
        assert forall|i: int| 0 <= i < h.len() implies !crate::text::is_spacey(#[trigger] h[i]) by {
            if i < prev.len() {
                assert(h[i] == prev[i]);
            }
        }
    }
}

/// Trimming a sequence without whitespace at either end changes nothing.
pub proof fn lemma_trim_id(s: Seq<char>)
    requires
        forall|i: int| 0 <= i < s.len() ==> !crate::text::is_spacey(#[trigger] s[i]),
    ensures
        trimmed(s) == s,
{
    assert(crate::text::trim_front(s) == s);
    assert(crate::text::trim_back(s) == s);
}

} // verus!
