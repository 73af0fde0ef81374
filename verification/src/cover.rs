use vstd::prelude::*;

use base64::Engine;
use vstd::string::StringSliceAdditionalSpecFns;

use crate::text::{
    chars_contains, chars_of, chars_start_with, contains, is_ws, occurs_at, starts_with, trim,
    trim_bounds, trim_start, trim_start_index,
};

verus! {

/// The largest cover image accepted, in bytes.
pub const MAX_COVER_IMAGE_BYTES: usize = 5242880;

/// The most Base64 symbols (white space aside) a cover may take: enough for
/// `MAX_COVER_IMAGE_BYTES` bytes plus one block of slack.
pub const MAX_COVER_BASE64_CHARS: usize = 6990512;

pub const COVER_ERR_DATA_URL: &'static str = "封面必须是纯 Base64，不应包含 data URL 前缀";

pub const COVER_ERR_TOO_LONG: &'static str = "封面 Base64 超过大小限制";

pub const COVER_ERR_PADDING_POSITION: &'static str = "封面 Base64 padding 位置非法";

pub const COVER_ERR_PADDING: &'static str = "封面 Base64 padding 非法";

pub const COVER_ERR_CHARACTER: &'static str = "封面 Base64 包含非法字符";

pub const COVER_ERR_LENGTH: &'static str = "封面 Base64 长度非法";

pub const COVER_ERR_TOO_LARGE: &'static str = "封面图片超过大小限制";

/// What the `base64` crate's `STANDARD` engine decodes `input` to (padding required and
/// canonical, no trailing bits); `None` when it reports an error.
pub uninterp spec fn spec_base64_decode(input: Seq<u8>) -> Option<Seq<u8>>;

/// `base64::engine::general_purpose::STANDARD.decode`: the outcome is named as a
/// function of the input bytes; the error's kind is dropped.
#[verifier::external_body]
fn base64_standard_decode(input: &[u8]) -> (r: Option<Vec<u8>>)
    ensures
        match r {
            Some(v) => spec_base64_decode(input@) == Some(v@),
            None => spec_base64_decode(input@) is None,
        },
{
    base64::engine::general_purpose::STANDARD.decode(input).ok()
}

/// A symbol of the standard Base64 alphabet, as a character.
pub open spec fn is_b64_char(c: char) -> bool {
    ('A' <= c && c <= 'Z') || ('a' <= c && c <= 'z') || ('0' <= c && c <= '9') || c == '+' || c
        == '/'
}

/// How many `=` end the padded Base64 text of `n` bytes.
pub open spec fn base64_pad_count(n: nat) -> nat {
    if n % 3 == 1 {
        2
    } else if n % 3 == 2 {
        1
    } else {
        0
    }
}

/// The form of padded standard Base64 text `e` for `n` bytes: four characters for every
/// three bytes or part of them, symbols of the alphabet completed by `=` to a multiple of four.
pub open spec fn padded_base64_form(n: nat, e: Seq<char>) -> bool {
    let p = base64_pad_count(n);
    &&& e.len() == 4 * ((n + 2) / 3)
    &&& forall|k: int| 0 <= k < e.len() - p ==> is_b64_char(#[trigger] e[k])
    &&& forall|k: int| e.len() - p <= k < e.len() ==> #[trigger] e[k] == '='
}

/// The bytes of ASCII text, one for each character.
pub open spec fn ascii_bytes(s: Seq<char>) -> Seq<u8> {
    Seq::new(s.len(), |i: int| s[i] as u8)
}

/// `e` is the padded standard Base64 text of `data`: it has that form, and the `STANDARD`
/// decoder gives `data` back from its bytes.
pub open spec fn is_standard_base64_of(e: Seq<char>, data: Seq<u8>) -> bool {
    &&& padded_base64_form(data.len(), e)
    &&& spec_base64_decode(ascii_bytes(e)) == Some(data)
}

/// What the `base64` crate's `STANDARD` engine encodes `data` to.
pub uninterp spec fn spec_base64_encode(data: Seq<u8>) -> Seq<char>;

/// `base64::engine::general_purpose::STANDARD.encode`: the text is named as a function of
/// the input; it is padded standard Base64 of the input (the alphabet
/// `A`-`Z`, `a`-`z`, `0`-`9`, `+`, `/`, then `=` to a multiple of four characters), which
/// the same engine decodes back to the input. The input is bounded so that the encoded
/// length fits in `usize`, where the crate would panic.
#[verifier::external_body]
pub(crate) fn base64_standard_encode(data: &[u8]) -> (r: String)
    requires
        4 * ((data@.len() + 2) / 3) <= usize::MAX,
    ensures
        r@ == spec_base64_encode(data@),
        is_standard_base64_of(r@, data@),
{
    base64::engine::general_purpose::STANDARD.encode(data)
}

/// ASCII white space as `u8::is_ascii_whitespace` has it.
pub open spec fn is_ascii_ws_byte(b: u8) -> bool {
    b == 0x20 || b == 0x09 || b == 0x0a || b == 0x0c || b == 0x0d
}

/// `s` without its ASCII white space bytes.
pub open spec fn strip_ws_bytes(s: Seq<u8>) -> Seq<u8>
    decreases s.len(),
{
    if s.len() == 0 {
        seq![]
    } else {
        let r = strip_ws_bytes(s.drop_last());
        if is_ascii_ws_byte(s.last()) {
            r
        } else {
            r.push(s.last())
        }
    }
}

/// The number of `=` bytes that end `c`.
pub open spec fn trailing_pads(c: Seq<u8>) -> nat
    decreases c.len(),
{
    if c.len() > 0 && c.last() == 0x3d {
        1 + trailing_pads(c.drop_last())
    } else {
        0
    }
}

/// A symbol of the standard Base64 alphabet.
pub open spec fn is_b64_symbol(b: u8) -> bool {
    (0x41 <= b && b <= 0x5a) || (0x61 <= b && b <= 0x7a) || (0x30 <= b && b <= 0x39) || b == 0x2b
        || b == 0x2f
}

/// Some byte of `s` before `end` is `=`.
pub open spec fn pad_before(s: Seq<u8>, end: int) -> bool {
    exists|k: int| 0 <= k < end && #[trigger] s[k] == 0x3d
}

/// Every byte of `s` before `end` is a Base64 symbol.
pub open spec fn symbols_before(s: Seq<u8>, end: int) -> bool {
    forall|k: int| 0 <= k < end ==> is_b64_symbol(#[trigger] s[k])
}

/// The `=` bytes that a cover without padding is completed with.
pub open spec fn implicit_padding(len: nat) -> nat {
    if len % 4 == 2 {
        2
    } else if len % 4 == 3 {
        1
    } else {
        0
    }
}

/// How a cover's Base64 text `c`, with white space already removed, decodes.
pub open spec fn cleaned_cover_spec(c: Seq<u8>) -> Result<Option<Seq<u8>>, Seq<char>> {
    let t = trailing_pads(c);
    let body = c.len() - t;
    if c.len() > MAX_COVER_BASE64_CHARS {
        Err(COVER_ERR_TOO_LONG@)
    } else if c.len() == 0 {
        Ok(None)
    } else if pad_before(c, body) {
        Err(COVER_ERR_PADDING_POSITION@)
    } else if t > 0 && (t > 2 || c.len() % 4 != 0) {
        Err(COVER_ERR_PADDING@)
    } else if !symbols_before(c, body) {
        Err(COVER_ERR_CHARACTER@)
    } else if t == 0 && c.len() % 4 == 1 {
        Err(COVER_ERR_LENGTH@)
    } else {
        let implicit = if t == 0 {
            implicit_padding(c.len())
        } else {
            0
        };
        let out_len = (c.len() + implicit) / 4 * 3 - (t + implicit);
        if out_len > MAX_COVER_IMAGE_BYTES {
            Err(COVER_ERR_TOO_LARGE@)
        } else {
            finished_cover_spec(
                spec_base64_decode(c + Seq::new(implicit, |i: int| 0x3du8)),
                out_len,
            )
        }
    }
}

/// The outcome once the decoder has answered: its output must have the length the
/// padding promised.
pub open spec fn finished_cover_spec(decoded: Option<Seq<u8>>, expected_len: int) -> Result<
    Option<Seq<u8>>,
    Seq<char>,
> {
    match decoded {
        None => Err(COVER_ERR_CHARACTER@),
        Some(o) => if o.len() == expected_len {
            Ok(Some(o))
        } else {
            Err(COVER_ERR_PADDING@)
        },
    }
}

/// How a cover given as text (`text` its characters, `bytes` its UTF-8 encoding) decodes:
/// blank text is no cover; a data URL or a comma is refused; otherwise the Base64 symbols
/// are checked and decoded.
pub open spec fn cover_spec(text: Seq<char>, bytes: Seq<u8>) -> Result<Option<Seq<u8>>, Seq<char>> {
    if trim(text).len() == 0 {
        Ok(None)
    } else if starts_with(trim_start(text), "data:"@) || contains(text, seq![',']) {
        Err(COVER_ERR_DATA_URL@)
    } else {
        cleaned_cover_spec(strip_ws_bytes(bytes))
    }
}

/// The view of an outcome with an owned byte vector.
pub open spec fn cover_result_view(r: Result<Option<Vec<u8>>, &'static str>) -> Result<
    Option<Seq<u8>>,
    Seq<char>,
> {
    match r {
        Ok(Some(v)) => Ok(Some(v@)),
        Ok(None) => Ok(None),
        Err(m) => Err(m@),
    }
}

/// Checks the decoder's output against the length that the padding promised.
pub fn finish_cover_decode(decoded: Option<Vec<u8>>, expected_len: usize) -> (r: Result<
    Option<Vec<u8>>,
    &'static str,
>)
    ensures
        cover_result_view(r) == finished_cover_spec(
            match decoded {
                Some(v) => Some(v@),
                None => None,
            },
            expected_len as int,
        ),
{
    match decoded {
        None => Err(COVER_ERR_CHARACTER),
        Some(o) => if o.len() == expected_len {
            Ok(Some(o))
        } else {
            Err(COVER_ERR_PADDING)
        },
    }
}

proof fn lemma_strip_ws_len_monotone(s: Seq<u8>, i: int, j: int)
    requires
        0 <= i <= j <= s.len(),
    ensures
        strip_ws_bytes(s.subrange(0, i)).len() <= strip_ws_bytes(s.subrange(0, j)).len(),
    decreases j - i,
{
    if i < j {
        lemma_strip_ws_len_monotone(s, i, j - 1);
        assert(s.subrange(0, j).drop_last() =~= s.subrange(0, j - 1));
    }
}

proof fn lemma_trailing_pads(c: Seq<u8>, j: int)
    requires
        0 <= j <= c.len(),
        forall|k: int| j <= k < c.len() ==> #[trigger] c[k] == 0x3d,
        j == 0 || c[j - 1] != 0x3d,
    ensures
        trailing_pads(c) == c.len() - j,
    decreases c.len() - j,
{
    if j < c.len() {
        let d = c.drop_last();
        assert forall|k: int| j <= k < d.len() implies #[trigger] d[k] == 0x3d by {
            assert(d[k] == c[k]);
        }
        if j > 0 {
            assert(d[j - 1] == c[j - 1]);
        }
        lemma_trailing_pads(d, j);
    }
}

/// Decodes a cover image sent as Base64 text (see `cover_spec`): `Ok(None)` for no cover,
/// `Ok(Some(bytes))` for a decoded image, `Err(message)` for a refused one.
pub fn decode_cover_base64(input: &str) -> (r: Result<Option<Vec<u8>>, &'static str>)
    ensures
        cover_result_view(r) == cover_spec(input@, input.spec_bytes()),
{
    let chars = chars_of(input);
    let (a, b) = trim_bounds(chars.as_slice());
    if a == b {
        return Ok(None);
    }
    let start = trim_start_index(chars.as_slice());
    let rest = slice_from(chars.as_slice(), start);
    let prefix = chars_of("data:");
    let comma = vec![','];
    assert(comma@ =~= seq![',']);
    assert(trim(input@).len() > 0);
    if chars_start_with(rest.as_slice(), prefix.as_slice()) || chars_contains(
        chars.as_slice(),
        comma.as_slice(),
    ) {
        return Err(COVER_ERR_DATA_URL);
    }
    assert(!(starts_with(trim_start(input@), "data:"@) || contains(input@, seq![','])));
    let bytes = input.as_bytes();
    let mut cleaned: Vec<u8> = Vec::new();
    let mut i: usize = 0;
    while i < bytes.len()
        invariant
            i <= bytes@.len(),
            bytes@ == input.spec_bytes(),
            trim(input@).len() > 0,
            !(starts_with(trim_start(input@), "data:"@) || contains(input@, seq![','])),
            cleaned@ == strip_ws_bytes(bytes@.subrange(0, i as int)),
            cleaned@.len() <= MAX_COVER_BASE64_CHARS,
        decreases bytes.len() - i,
    {
        let byte = bytes[i];
        assert(bytes@.subrange(0, i + 1).drop_last() =~= bytes@.subrange(0, i as int));
        if !(byte == 0x20 || byte == 0x09 || byte == 0x0a || byte == 0x0c || byte == 0x0d) {
            cleaned.push(byte);
            if cleaned.len() > MAX_COVER_BASE64_CHARS {
                proof {
                    lemma_strip_ws_len_monotone(bytes@, i + 1, bytes@.len() as int);
                    assert(bytes@.subrange(0, bytes@.len() as int) =~= bytes@);
                }
                return Err(COVER_ERR_TOO_LONG);
            }
        }
        i += 1;
    }
    assert(bytes@.subrange(0, bytes@.len() as int) =~= bytes@);
    decode_cleaned(cleaned)
}

fn slice_from(v: &[char], start: usize) -> (r: Vec<char>)
    requires
        start <= v@.len(),
    ensures
        r@ == v@.subrange(start as int, v@.len() as int),
{
    let mut r: Vec<char> = Vec::new();
    let mut i = start;
    while i < v.len()
        invariant
            start <= i <= v@.len(),
            r@ == v@.subrange(start as int, i as int),
        decreases v.len() - i,
    {
        r.push(v[i]);
        assert(r@ =~= v@.subrange(start as int, i + 1));
        i += 1;
    }
    r
}

/// The checks of `cleaned_cover_spec` before decoding: on success, the number of `=`
/// bytes to complete the text with and the length of the decoded image.
fn check_cleaned(c: &[u8]) -> (r: Result<(usize, usize), &'static str>)
    requires
        0 < c@.len() <= MAX_COVER_BASE64_CHARS,
    ensures
        match r {
            Err(m) => cleaned_cover_spec(c@) == Err::<Option<Seq<u8>>, Seq<char>>(m@),
            Ok((implicit, out_len)) => {
                let t = trailing_pads(c@);
                &&& implicit == (if t == 0 {
                    implicit_padding(c@.len())
                } else {
                    0
                })
                &&& out_len == (c@.len() + implicit) / 4 * 3 - (t + implicit)
                &&& out_len <= MAX_COVER_IMAGE_BYTES
                &&& cleaned_cover_spec(c@) == finished_cover_spec(
                    spec_base64_decode(c@ + Seq::new(implicit as nat, |i: int| 0x3du8)),
                    out_len as int,
                )
            },
        },
{
    let len = c.len();
    // Count the `=` bytes at the end.
    let mut j: usize = len;
    while j > 0 && c[j - 1] == 0x3d
        invariant
            j <= len == c@.len(),
            forall|k: int| j <= k < len ==> #[trigger] c@[k] == 0x3d,
        decreases j,
    {
        j -= 1;
    }
    proof {
        lemma_trailing_pads(c@, j as int);
    }
    let pads = len - j;
    // Padding may only come at the end.
    let mut k: usize = 0;
    while k < j
        invariant
            k <= j <= len == c@.len(),
            0 < c@.len() <= MAX_COVER_BASE64_CHARS,
            trailing_pads(c@) == len - j,
            forall|m: int| 0 <= m < k ==> c@[m] != 0x3d,
        decreases j - k,
    {
        if c[k] == 0x3d {
            assert(pad_before(c@, j as int));
            return Err(COVER_ERR_PADDING_POSITION);
        }
        k += 1;
    }
    assert(!pad_before(c@, j as int));
    if pads > 0 && (pads > 2 || len % 4 != 0) {
        return Err(COVER_ERR_PADDING);
    }
    let mut k: usize = 0;
    while k < j
        invariant
            k <= j <= len == c@.len(),
            0 < c@.len() <= MAX_COVER_BASE64_CHARS,
            trailing_pads(c@) == len - j,
            pads == len - j,
            !pad_before(c@, j as int),
            !(pads > 0 && (pads > 2 || len % 4 != 0)),
            forall|m: int| 0 <= m < k ==> is_b64_symbol(#[trigger] c@[m]),
        decreases j - k,
    {
        let byte = c[k];
        if !((0x41 <= byte && byte <= 0x5a) || (0x61 <= byte && byte <= 0x7a) || (0x30 <= byte
            && byte <= 0x39) || byte == 0x2b || byte == 0x2f) {
            assert(!is_b64_symbol(c@[k as int]));
            return Err(COVER_ERR_CHARACTER);
        }
        k += 1;
    }
    assert(symbols_before(c@, j as int));
    let remainder = len % 4;
    if pads == 0 && remainder == 1 {
        return Err(COVER_ERR_LENGTH);
    }
    let implicit: usize = if pads == 0 {
        if remainder == 2 {
            2
        } else if remainder == 3 {
            1
        } else {
            0
        }
    } else {
        0
    };
    let output_len = (len + implicit) / 4 * 3 - (pads + implicit);
    if output_len > MAX_COVER_IMAGE_BYTES {
        return Err(COVER_ERR_TOO_LARGE);
    }
    Ok((implicit, output_len))
}

/// The part of `decode_cover_base64` after white space is removed (see `cleaned_cover_spec`).
fn decode_cleaned(cleaned: Vec<u8>) -> (r: Result<Option<Vec<u8>>, &'static str>)
    requires
        cleaned@.len() <= MAX_COVER_BASE64_CHARS,
    ensures
        cover_result_view(r) == cleaned_cover_spec(cleaned@),
{
    if cleaned.len() == 0 {
        return Ok(None);
    }
    let (implicit, output_len) = match check_cleaned(cleaned.as_slice()) {
        Err(m) => {
            return Err(m);
        },
        Ok(v) => v,
    };
    let ghost c = cleaned@;
    let mut padded = cleaned;
    let mut n: usize = 0;
    while n < implicit
        invariant
            n <= implicit <= 2,
            padded@ == c + Seq::new(n as nat, |i: int| 0x3du8),
        decreases implicit - n,
    {
        padded.push(0x3d);
        assert(padded@ =~= c + Seq::new((n + 1) as nat, |i: int| 0x3du8));
        n += 1;
    }
    let decoded = base64_standard_decode(padded.as_slice());
    finish_cover_decode(decoded, output_len)
}

proof fn lemma_trailing_pads_bound(c: Seq<u8>)
    ensures
        trailing_pads(c) <= c.len(),
    decreases c.len(),
{
    if c.len() > 0 && c.last() == 0x3d {
        lemma_trailing_pads_bound(c.drop_last());
    }
}

/// An accepted cover holds at least one byte and no more than `MAX_COVER_IMAGE_BYTES`;
/// blank text is no cover.
pub proof fn lemma_cover_size_bounded(text: Seq<char>, bytes: Seq<u8>)
    ensures
        cover_spec(text, bytes) matches Ok(Some(image)) ==> 1 <= image.len() <= MAX_COVER_IMAGE_BYTES,
        trim(text).len() == 0 ==> cover_spec(text, bytes) == Ok::<Option<Seq<u8>>, Seq<char>>(None),
{
    let c = strip_ws_bytes(bytes);
    lemma_trailing_pads_bound(c);
}

/// A cover sent as a data URL (`data:` after leading white space) is always refused with
/// the data URL message.
pub proof fn lemma_cover_data_url_refused(text: Seq<char>, bytes: Seq<u8>)
    requires
        starts_with(trim_start(text), "data:"@),
    ensures
        cover_spec(text, bytes) == Err::<Option<Seq<u8>>, Seq<char>>(COVER_ERR_DATA_URL@),
{
    reveal_strlit("data:");
    assert(trim_start(text).subrange(0, 5) == "data:"@);
    assert(trim_start(text)[0] == "data:"@[0]);
    crate::text::lemma_trim_end_keeps_first(trim_start(text));
}

/// ASCII white space as a character (the characters `is_ascii_ws_byte` accepts).
pub open spec fn is_ascii_ws_char(c: char) -> bool {
    c == ' ' || c == '\t' || c == '\n' || c == '\x0c' || c == '\r'
}

/// `s` without its ASCII white space characters.
pub open spec fn strip_ws_chars(s: Seq<char>) -> Seq<char>
    decreases s.len(),
{
    if s.len() == 0 {
        seq![]
    } else {
        let r = strip_ws_chars(s.drop_last());
        if is_ascii_ws_char(s.last()) {
            r
        } else {
            r.push(s.last())
        }
    }
}

/// A character that Base64 text with white space in it may hold.
spec fn b64_text_char(c: char) -> bool {
    is_ascii_ws_char(c) || is_b64_char(c) || c == '='
}

proof fn lemma_strip_chars_members(s: Seq<char>)
    ensures
        forall|k: int|
            0 <= k < s.len() && !is_ascii_ws_char(s[k]) ==> strip_ws_chars(s).contains(
                #[trigger] s[k],
            ),
        forall|m: int|
            0 <= m < strip_ws_chars(s).len() ==> s.contains(#[trigger] strip_ws_chars(s)[m]),
    decreases s.len(),
{
    if s.len() > 0 {
        let d = s.drop_last();
        lemma_strip_chars_members(d);
        let r = strip_ws_chars(d);
        let x = strip_ws_chars(s);
        assert forall|m: int| 0 <= m < r.len() implies x[m] == r[m] by {}
        assert forall|k: int| 0 <= k < s.len() && !is_ascii_ws_char(s[k]) implies x.contains(
            #[trigger] s[k],
        ) by {
            if k < s.len() - 1 {
                assert(d[k] == s[k]);
                assert(r.contains(d[k]));
                let m = choose|m: int| 0 <= m < r.len() && r[m] == d[k];
                assert(x[m] == s[k]);
            } else {
                assert(x[r.len() as int] == s[k]);
            }
        }
        assert forall|m: int| 0 <= m < x.len() implies s.contains(#[trigger] x[m]) by {
            if m < r.len() {
                assert(d.contains(r[m]));
                let k = choose|k: int| 0 <= k < d.len() && d[k] == r[m];
                assert(s[k] == d[k]);
            } else {
                assert(s[s.len() - 1] == x[m]);
            }
        }
    }
}

proof fn lemma_strip_ascii(s: Seq<char>)
    requires
        vstd::utf8::is_ascii_chars(s),
    ensures
        strip_ws_bytes(ascii_bytes(s)) == ascii_bytes(strip_ws_chars(s)),
    decreases s.len(),
{
    if s.len() > 0 {
        let d = s.drop_last();
        assert forall|i: int| 0 <= i < d.len() implies '\0' <= #[trigger] d[i] <= '\u{7f}' by {
            assert(d[i] == s[i]);
        }
        lemma_strip_ascii(d);
        assert(ascii_bytes(s).drop_last() =~= ascii_bytes(d));
        let c = s.last();
        assert('\0' <= s[s.len() - 1] <= '\u{7f}');
        assert(ascii_bytes(s).last() == c as u8);
        assert(is_ascii_ws_byte(c as u8) == is_ascii_ws_char(c));
        if !is_ascii_ws_char(c) {
            assert(ascii_bytes(strip_ws_chars(s)) =~= ascii_bytes(strip_ws_chars(d)).push(c as u8));
        } else {
            assert(ascii_bytes(strip_ws_chars(s)) =~= ascii_bytes(strip_ws_chars(d)));
        }
    }
}

proof fn lemma_trim_start_at(s: Seq<char>) -> (j: int)
    ensures
        0 <= j <= s.len(),
        trim_start(s) == s.subrange(j, s.len() as int),
        forall|k: int| 0 <= k < j ==> is_ws(#[trigger] s[k]),
        j < s.len() ==> !is_ws(s[j]),
    decreases s.len(),
{
    if s.len() > 0 && is_ws(s[0]) {
        let t = s.drop_first();
        let i = lemma_trim_start_at(t);
        assert(t.subrange(i, t.len() as int) =~= s.subrange(i + 1, s.len() as int));
        assert forall|k: int| 0 <= k < i + 1 implies is_ws(#[trigger] s[k]) by {
            if k > 0 {
                assert(s[k] == t[k - 1]);
            }
        }
        if i < t.len() {
            assert(s[i + 1] == t[i]);
        }
        i + 1
    } else {
        assert(s.subrange(0, s.len() as int) =~= s);
        0
    }
}

proof fn lemma_b64_lengths(n: nat)
    requires
        1 <= n <= MAX_COVER_IMAGE_BYTES,
    ensures
        ({
            let l = 4 * ((n + 2) / 3);
            let p = base64_pad_count(n);
            &&& l % 4 == 0
            &&& 4 <= l <= MAX_COVER_BASE64_CHARS
            &&& p <= 2
            &&& l / 4 * 3 - p == n
            &&& (l - p) % 4 != 1
            &&& implicit_padding((l - p) as nat) == p
        }),
{
    let q = n / 3;
    let r = n % 3;
    assert(n == 3 * q + r);
    assert((n + 2) / 3 == if r == 0 { q } else { q + 1 });
}

proof fn lemma_cleaned_encoding(image: Seq<u8>, encoded: Seq<char>, padded: bool)
    requires
        1 <= image.len() <= MAX_COVER_IMAGE_BYTES,
        is_standard_base64_of(encoded, image),
    ensures
        cleaned_cover_spec(
            ascii_bytes(
                if padded {
                    encoded
                } else {
                    encoded.subrange(0, encoded.len() - base64_pad_count(image.len()))
                },
            ),
        ) == Ok::<Option<Seq<u8>>, Seq<char>>(Some(image)),
{
    let n = image.len();
    let p = base64_pad_count(n);
    let l = encoded.len();
    lemma_b64_lengths(n);
    let e = ascii_bytes(encoded);
    assert forall|k: int| 0 <= k < l - p implies is_b64_symbol(#[trigger] e[k]) && e[k] != 0x3d by {
        assert(is_b64_char(encoded[k]));
    }
    assert forall|k: int| l - p <= k < l implies #[trigger] e[k] == 0x3d by {
        assert(encoded[k] == '=');
    }
    assert(spec_base64_decode(e) == Some(image));
    if padded {
        lemma_trailing_pads(e, l - p);
        assert(!pad_before(e, l - p));
        assert(symbols_before(e, l - p));
        assert(e + Seq::new(0, |i: int| 0x3du8) =~= e);
    } else {
        let c = e.subrange(0, l - p);
        assert(ascii_bytes(encoded.subrange(0, l - p)) =~= c);
        lemma_trailing_pads(c, l - p);
        assert(!pad_before(c, l - p));
        assert(symbols_before(c, l - p));
        assert(c + Seq::new(p, |i: int| 0x3du8) =~= e);
    }
}

/// Base64 text of an image, as the encoder gives it (see `is_standard_base64_of`), with its
/// padding or without it and with ASCII white space anywhere, decodes back to the image when
/// the image holds 1 to `MAX_COVER_IMAGE_BYTES` bytes.
pub proof fn lemma_encoded_cover_decodes(
    image: Seq<u8>,
    encoded: Seq<char>,
    text: Seq<char>,
    padded: bool,
)
    requires
        1 <= image.len() <= MAX_COVER_IMAGE_BYTES,
        is_standard_base64_of(encoded, image),
        strip_ws_chars(text) == (if padded {
            encoded
        } else {
            encoded.subrange(0, encoded.len() - base64_pad_count(image.len()))
        }),
    ensures
        cover_spec(text, vstd::utf8::encode_utf8(text)) == Ok::<Option<Seq<u8>>, Seq<char>>(
            Some(image),
        ),
{
    let n = image.len();
    let p = base64_pad_count(n);
    let l = encoded.len();
    lemma_b64_lengths(n);
    let x = strip_ws_chars(text);
    assert forall|m: int| 0 <= m < x.len() implies b64_text_char(#[trigger] x[m]) by {
        assert(x[m] == encoded[m]);
        if m < l - p {
            assert(is_b64_char(encoded[m]));
        } else {
            assert(encoded[m] == '=');
        }
    }
    lemma_strip_chars_members(text);
    assert forall|k: int| 0 <= k < text.len() implies b64_text_char(#[trigger] text[k]) by {
        if !is_ascii_ws_char(text[k]) {
            assert(x.contains(text[k]));
            let m = choose|m: int| 0 <= m < x.len() && x[m] == text[k];
            assert(b64_text_char(x[m]));
        }
    }
    assert forall|i: int| 0 <= i < text.len() implies '\0' <= #[trigger] text[i] <= '\u{7f}' by {
        assert(b64_text_char(text[i]));
    }
    vstd::utf8::is_ascii_chars_encode_utf8(text);
    assert(vstd::utf8::encode_utf8(text) =~= ascii_bytes(text));
    lemma_strip_ascii(text);
    // The text is not blank: the first symbol of the encoding is in it.
    assert(x[0] == encoded[0]);
    assert(is_b64_char(x[0]));
    assert(text.contains(x[0]));
    let k0 = choose|k: int| 0 <= k < text.len() && text[k] == x[0];
    let j = lemma_trim_start_at(text);
    assert(!is_ws(text[k0]));
    assert(j <= k0);
    let ts = trim_start(text);
    assert(ts[0] == text[j]);
    crate::text::lemma_trim_end_keeps_first(ts);
    assert(trim(text).len() > 0);
    // Neither a data URL nor a comma: `:` and `,` do not occur in the text.
    if starts_with(ts, "data:"@) {
        reveal_strlit("data:");
        assert(ts.subrange(0, 5)[4] == ':');
        assert(ts[4] == text[j + 4]);
        assert(b64_text_char(text[j + 4]));
    }
    if contains(text, seq![',']) {
        let i = choose|i: int| occurs_at(text, seq![','], i);
        assert(text.subrange(i, i + 1)[0] == text[i]);
        assert(b64_text_char(text[i]));
    }
    lemma_cleaned_encoding(image, encoded, padded);
}

} // verus!
