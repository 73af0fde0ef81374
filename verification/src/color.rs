use vstd::prelude::*;

use vstd::string::StringSliceAdditionalSpecFns;
use vstd::utf8::encode_utf8;

use crate::config::{is_hex_digit, six_hex_digits, strip_hash, valid_color_spec};
use crate::text::{
    chars_eq_ignore_ascii_case, chars_of, eq_ignore_ascii_case, string_from_range, trim, trimmed,
};

verus! {

broadcast use vstd::string::group_string_axioms;

/// The value of an ASCII hexadecimal digit byte.
pub open spec fn hex_digit_value(b: u8) -> Option<u8> {
    if 0x30 <= b && b <= 0x39 {
        Some((b - 0x30) as u8)
    } else if 0x61 <= b && b <= 0x66 {
        Some((b - 0x61 + 10) as u8)
    } else if 0x41 <= b && b <= 0x46 {
        Some((b - 0x41 + 10) as u8)
    } else {
        None
    }
}

/// What `u8::from_str_radix(text, 16)` gives for a text of the two bytes `c0` `c1`: a `+`
/// and one digit, or two digits.
pub open spec fn radix16_pair(c0: u8, c1: u8) -> Option<u8> {
    if c0 == 0x2b {
        hex_digit_value(c1)
    } else {
        match (hex_digit_value(c0), hex_digit_value(c1)) {
            (Some(a), Some(b)) => Some((a * 16 + b) as u8),
            _ => None,
        }
    }
}

/// A UTF-8 continuation byte: no character starts there.
pub open spec fn continuation_byte(b: u8) -> bool {
    0x80 <= b && b < 0xc0
}

/// The bytes of a colour setting's hexadecimal part: trimmed, without a leading `#`.
pub open spec fn hex_part_bytes(s: Seq<char>) -> Seq<u8> {
    encode_utf8(strip_hash(trim(s)))
}

/// Whether the text reaches the byte slicing: not blank, not `auto`, six bytes long.
pub open spec fn hex_part_sliced(s: Seq<char>) -> bool {
    &&& trim(s).len() > 0
    &&& !eq_ignore_ascii_case(trim(s), "auto"@)
    &&& hex_part_bytes(s).len() == 6
}

/// The colour a setting names: none when it is blank or `auto`; otherwise its hexadecimal
/// part must be six bytes, read two at a time as `u8::from_str_radix` reads them.
pub open spec fn hex_color_spec(s: Seq<char>) -> Option<(u8, u8, u8)> {
    let b = hex_part_bytes(s);
    if !hex_part_sliced(s) {
        None
    } else {
        match (radix16_pair(b[0], b[1]), radix16_pair(b[2], b[3]), radix16_pair(b[4], b[5])) {
            (Some(r), Some(g), Some(bl)) => Some((r, g, bl)),
            _ => None,
        }
    }
}

/// Whether slicing the six bytes in pairs cuts a character in two (on the way to the
/// first pair that fails to parse): `str` indexing panics there.
pub open spec fn hex_color_cuts_char(s: Seq<char>) -> bool {
    let b = hex_part_bytes(s);
    &&& hex_part_sliced(s)
    &&& (continuation_byte(b[2]) || (radix16_pair(b[0], b[1]) is Some && continuation_byte(b[4])))
}

fn hex_digit_value_exec(b: u8) -> (r: Option<u8>)
    ensures
        r == hex_digit_value(b),
{
    if 0x30 <= b && b <= 0x39 {
        Some(b - 0x30)
    } else if 0x61 <= b && b <= 0x66 {
        Some(b - 0x61 + 10)
    } else if 0x41 <= b && b <= 0x46 {
        Some(b - 0x41 + 10)
    } else {
        None
    }
}

fn radix16_pair_exec(c0: u8, c1: u8) -> (r: Option<u8>)
    ensures
        r == radix16_pair(c0, c1),
{
    if c0 == 0x2b {
        hex_digit_value_exec(c1)
    } else {
        match (hex_digit_value_exec(c0), hex_digit_value_exec(c1)) {
            (Some(a), Some(b)) => Some(a * 16 + b),
            _ => None,
        }
    }
}

/// The RGB colour a colour setting names (see `hex_color_spec`); `auto` and blank names
/// none. Text whose byte slicing would cut a character is left out.
pub fn parse_hex_color(hex: &str) -> (r: Option<(u8, u8, u8)>)
    requires
        !hex_color_cuts_char(hex@),
    ensures
        r == hex_color_spec(hex@),
{
    let t = trimmed(hex);
    let tv = chars_of(t.as_str());
    let auto = chars_of("auto");
    if tv.len() == 0 || chars_eq_ignore_ascii_case(tv.as_slice(), auto.as_slice()) {
        return None;
    }
    let h = if tv[0] == '#' {
        string_from_range(tv.as_slice(), 1, tv.len())
    } else {
        string_from_range(tv.as_slice(), 0, tv.len())
    };
    assert(h@ == strip_hash(trim(hex@))) by {
        assert(tv@.subrange(0, tv@.len() as int) =~= tv@);
    }
    let b = h.as_str().as_bytes();
    if b.len() != 6 {
        return None;
    }
    let r = match radix16_pair_exec(b[0], b[1]) {
        Some(x) => x,
        None => {
            return None;
        },
    };
    let g = match radix16_pair_exec(b[2], b[3]) {
        Some(x) => x,
        None => {
            return None;
        },
    };
    let bl = match radix16_pair_exec(b[4], b[5]) {
        Some(x) => x,
        None => {
            return None;
        },
    };
    Some((r, g, bl))
}

/// Every colour setting that `is_valid_color` accepts, other than `auto`, names a colour,
/// and reading it cuts no character.
pub proof fn lemma_valid_color_parses(s: Seq<char>)
    requires
        valid_color_spec(s),
        !eq_ignore_ascii_case(trim(s), "auto"@),
    ensures
        hex_color_spec(s) is Some,
        !hex_color_cuts_char(s),
{
    let h = strip_hash(trim(s));
    assert(six_hex_digits(h));
    assert(vstd::utf8::is_ascii_chars(h)) by {
        assert forall|i: int| 0 <= i < h.len() implies '\0' <= #[trigger] h[i] <= '\u{7f}' by {
            assert(is_hex_digit(h[i]));
        }
    }
    vstd::utf8::is_ascii_chars_encode_utf8(h);
    let b = encode_utf8(h);
    assert(b.len() == 6);
    assert(trim(s).len() > 0);
    assert forall|i: int| 0 <= i < 6 implies #[trigger] hex_digit_value(b[i]) is Some by {
        assert(is_hex_digit(h[i]));
        assert(h[i] as u8 == b[i]);
    }
    assert(hex_digit_value(b[0]) is Some && hex_digit_value(b[1]) is Some);
    assert(hex_digit_value(b[2]) is Some && hex_digit_value(b[3]) is Some);
    assert(hex_digit_value(b[4]) is Some && hex_digit_value(b[5]) is Some);
}

} // verus!
