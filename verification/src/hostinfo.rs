//! Parsing helpers for host inventory text: `os-release` values and the
//! octal escapes in mount tables. Reading the files is the caller's
//! part.

use vstd::prelude::*;

use crate::device::first_char_from;
use crate::text::{push_char, str_trim, trimmed};

verus! {

/// `s` without leading and trailing double quotes.
pub open spec fn strip_quotes_front(s: Seq<char>) -> Seq<char>
    decreases s.len(),
{
    if s.len() > 0 && s[0] == '"' {
        strip_quotes_front(s.drop_first())
    } else {
        s
    }
}

/// `s` without trailing double quotes.
pub open spec fn strip_quotes_back(s: Seq<char>) -> Seq<char>
    decreases s.len(),
{
    if s.len() > 0 && s[s.len() - 1] == '"' {
        strip_quotes_back(s.drop_last())
    } else {
        s
    }
}

/// What `trim_os_value` must return: the text after the first `=`, with
/// surrounding whitespace and quotes dropped.
pub open spec fn os_value_of(line: Seq<char>) -> Seq<char> {
    let value = (match first_char_from(line, '=', 0) {
        Some(i) => line.skip(i + 1),
        None => Seq::empty(),
    });
    strip_quotes_back(strip_quotes_front(trimmed(value)))
}

/// Read the value out of an `os-release` line such as `NAME="Debian"`.
pub fn trim_os_value(line: &str) -> (r: String)
    ensures
        r@ == os_value_of(line@),
{
    let len = line.unicode_len();
    let start: usize = match crate::device::find_char_from(line, '=', 0) {
        Some(i) => i + 1,
        None => len,
    };
    let value = crate::device::substring_copy(line, start, len);
    proof {
        match first_char_from(line@, '=', 0) {
            Some(i) => {
                assert(value@ =~= line@.skip(i + 1));
            },
            None => {
                assert(value@ =~= Seq::<char>::empty());
            },
        }
    }
    let t = str_trim(value.as_str());
    let s = t.as_str();
    let t_len = s.unicode_len();
    proof {
        assert(s@.subrange(0, t_len as int) =~= s@);
    }
    let mut start2: usize = 0;
    while start2 < t_len && s.get_char(start2) == '"'
        invariant
            t_len == s@.len(),
            start2 <= t_len,
            strip_quotes_front(s@) == strip_quotes_front(s@.subrange(start2 as int, t_len as int)),
        decreases t_len - start2,
    {
        proof {
            let sub = s@.subrange(start2 as int, t_len as int);
            assert(sub.drop_first() =~= s@.subrange(start2 as int + 1, t_len as int));
        }
        start2 = start2 + 1;
    }
    proof {
        let sub = s@.subrange(start2 as int, t_len as int);
        if start2 < t_len {
            assert(sub[0] != '"');
        }
        assert(strip_quotes_front(s@) == sub);
    }
    let mut end2: usize = t_len;
    while end2 > start2 && s.get_char(end2 - 1) == '"'
        invariant
            t_len == s@.len(),
            start2 <= end2 <= t_len,
            strip_quotes_front(s@) == s@.subrange(start2 as int, t_len as int),
            strip_quotes_back(strip_quotes_front(s@)) == strip_quotes_back(
                s@.subrange(start2 as int, end2 as int),
            ),
        decreases end2,
    {
        proof {
            let sub = s@.subrange(start2 as int, end2 as int);
            assert(sub.drop_last() =~= s@.subrange(start2 as int, end2 as int - 1));
        }
        end2 = end2 - 1;
    }
    proof {
        let sub = s@.subrange(start2 as int, end2 as int);
        if end2 > start2 {
            assert(sub[sub.len() - 1] != '"');
        }
        assert(strip_quotes_back(strip_quotes_front(s@)) == sub);
    }
    crate::device::substring_copy(s, start2, end2)
}

/// Whether `c` is a decimal digit, as the mount unescaper collects them.
pub open spec fn is_digit(c: char) -> bool {
    48 <= c as u32 && c as u32 <= 57
}

/// How many of the first three characters of `s` are digits.
pub open spec fn leading_digits(s: Seq<char>) -> int {
    if s.len() > 0 && is_digit(s[0]) {
        if s.len() > 1 && is_digit(s[1]) {
            if s.len() > 2 && is_digit(s[2]) {
                3
            } else {
                2
            }
        } else {
            1
        }
    } else {
        0
    }
}

/// The value of three octal digit characters.
pub open spec fn octal_value(s: Seq<char>) -> int {
    (s[0] as u32 - 48) * 64 + (s[1] as u32 - 48) * 8 + (s[2] as u32 - 48)
}

/// The three characters are octal digits naming a byte.
pub open spec fn is_byte_octal(s: Seq<char>) -> bool {
    &&& s.len() == 3
    &&& forall|i: int| 0 <= i < 3 ==> is_digit(#[trigger] s[i]) && (s[i] as u32) < 56
    &&& octal_value(s) <= 255
}

/// What unescaping a mount path must yield: each `\NNN` with three
/// octal digits naming a byte becomes that byte's character; any other
/// backslash is kept, along with the digits after it.
pub open spec fn unescaped_mount(s: Seq<char>) -> Seq<char>
    decreases s.len(),
{
    if s.len() == 0 {
        Seq::empty()
    } else if s[0] == '\\' {
        let k = leading_digits(s.skip(1));
        if k == 3 && is_byte_octal(s.subrange(1, 4)) {
            seq![((octal_value(s.subrange(1, 4)) as u8) as char)] + unescaped_mount(s.skip(4))
        } else {
            seq!['\\'] + s.subrange(1, 1 + k) + unescaped_mount(s.skip(1 + k))
        }
    } else {
        seq![s[0]] + unescaped_mount(s.skip(1))
    }
}

/// Whether one character is a decimal digit.
fn is_digit_exec(c: char) -> (r: bool)
    ensures
        r == is_digit(c),
{
    let code = c as u32;
    48 <= code && code <= 57
}

/// Decode the octal escapes of a mount-table path.
pub fn unescape_mount(value: &str) -> (r: String)
    ensures
        r@ == unescaped_mount(value@),
{
    let len = value.unicode_len();
    proof {
        assert(value@.skip(0) =~= value@);
    }
    let mut out = String::new();
    let mut i: usize = 0;
    while i < len
        invariant
            len == value@.len(),
            i <= len,
            out@ + unescaped_mount(value@.skip(i as int)) == unescaped_mount(value@),
        decreases len - i,
    {
        let ghost rest = value@.skip(i as int);
        let c = value.get_char(i);
        proof {
            assert(rest[0] == value@[i as int]);
        }
        if c == '\\' {
            let d0 = i + 1 < len && is_digit_exec(value.get_char(i + 1));
            let d1 = d0 && i + 2 < len && is_digit_exec(value.get_char(i + 2));
            let d2 = d1 && i + 3 < len && is_digit_exec(value.get_char(i + 3));
            let k: usize = if d2 {
                3
            } else if d1 {
                2
            } else if d0 {
                1
            } else {
                0
            };
            proof {
                assert(rest.skip(1) =~= value@.skip(i as int + 1));
                assert(leading_digits(rest.skip(1)) == k);
            }
            if k == 3 {
                let v0 = value.get_char(i + 1) as u32;
                let v1 = value.get_char(i + 2) as u32;
                let v2 = value.get_char(i + 3) as u32;
                let ghost oct = rest.subrange(1, 4);
                proof {
                    assert(oct[0] == value@[i as int + 1]);
                    assert(oct[1] == value@[i as int + 2]);
                    assert(oct[2] == value@[i as int + 3]);
                }
                if v0 < 56 && v1 < 56 && v2 < 56 {
                    let byte_value = (v0 - 48) * 64 + (v1 - 48) * 8 + (v2 - 48);
                    if byte_value <= 255 {
                        proof {
                            assert(is_byte_octal(oct));
                        }
                        push_char(&mut out, (byte_value as u8) as char);
                        proof {
                            assert(rest.skip(4) =~= value@.skip(i as int + 4));
                            assert(out@ + unescaped_mount(value@.skip(i as int + 4))
                                =~= unescaped_mount(value@));
                        }
                        i = i + 4;
                        continue ;
                    }
                }
                proof {
                    assert(!is_byte_octal(oct));
                }
            }
            proof {
                assert(rest.skip(1 + k) =~= value@.skip(i as int + 1 + k));
                assert(unescaped_mount(rest) == seq!['\\'] + rest.subrange(1, 1 + k)
                    + unescaped_mount(rest.skip(1 + k)));
            }
            let ghost out_before = out@;
            push_char(&mut out, '\\');
            proof {
                assert(out@ + rest.subrange(1, 1 + k) + unescaped_mount(
                    value@.skip(i as int + 1 + k),
                ) =~= out_before + unescaped_mount(rest));
            }
            let mut j: usize = 0;
            while j < k
                invariant
                    len == value@.len(),
                    i + 1 + k <= len || k == 0,
                    i < len,
                    k <= 3,
                    i + 1 + j <= len,
                    j <= k,
                    rest == value@.skip(i as int),
                    out@ + rest.subrange(1 + j, 1 + k) + unescaped_mount(
                        value@.skip(i as int + 1 + k),
                    ) == unescaped_mount(value@),
                decreases k - j,
            {
                proof {
                    assert(rest[1 + j] == value@[i as int + 1 + j]);
                    assert(rest.subrange(1 + j, 1 + k) =~= seq![rest[1 + j as int]]
                        + rest.subrange(1 + j + 1, 1 + k));
                }
                push_char(&mut out, value.get_char(i + 1 + j));
                proof {
                    assert(out@ + rest.subrange(1 + j + 1, 1 + k) + unescaped_mount(
                        value@.skip(i as int + 1 + k),
                    ) =~= unescaped_mount(value@));
                }
                j = j + 1;
            }
            proof {
                assert(rest.subrange(1 + k, 1 + k) =~= Seq::<char>::empty());
                assert(rest.skip(1 + k) =~= value@.skip(i as int + 1 + k));
                assert(out@ + unescaped_mount(value@.skip(i as int + 1 + k)) =~= unescaped_mount(
                    value@,
                ));
            }
            i = i + 1 + k;
        } else {
            push_char(&mut out, c);
            proof {
                assert(rest.skip(1) =~= value@.skip(i as int + 1));
                assert(out@ + unescaped_mount(value@.skip(i as int + 1)) =~= unescaped_mount(
                    value@,
                ));
            }
            i = i + 1;
        }
    }
    proof {
        assert(value@.skip(len as int) =~= Seq::<char>::empty());
        assert(out@ =~= unescaped_mount(value@));
    }
    out
}

} // verus!
