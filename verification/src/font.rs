use vstd::prelude::*;

use crate::cover::{
    base64_pad_count, base64_standard_encode, cover_spec, is_standard_base64_of,
    lemma_encoded_cover_decodes, spec_base64_encode, strip_ws_chars, MAX_COVER_IMAGE_BYTES,
};

verus! {

/// A font file's bytes as the Base64 text that the settings page loads: the padded
/// standard Base64 of the bytes. For 1 to `MAX_COVER_IMAGE_BYTES` bytes,
/// `decode_cover_base64` reads the text back to the bytes, with ASCII white space put
/// anywhere in it and with or without its padding.
pub fn font_data_base64(data: &[u8]) -> (r: String)
    requires
        4 * ((data@.len() + 2) / 3) <= usize::MAX,
    ensures
        r@ == spec_base64_encode(data@),
        is_standard_base64_of(r@, data@),
        1 <= data@.len() <= MAX_COVER_IMAGE_BYTES ==> forall|text: Seq<char>|
            #[trigger] strip_ws_chars(text) == r@ ==> cover_spec(
                text,
                vstd::utf8::encode_utf8(text),
            ) == Ok::<Option<Seq<u8>>, Seq<char>>(Some(data@)),
        1 <= data@.len() <= MAX_COVER_IMAGE_BYTES ==> forall|text: Seq<char>|
            #[trigger] strip_ws_chars(text) == r@.subrange(
                0,
                r@.len() - base64_pad_count(data@.len()),
            ) ==> cover_spec(text, vstd::utf8::encode_utf8(text)) == Ok::<
                Option<Seq<u8>>,
                Seq<char>,
            >(Some(data@)),
{
    let r = base64_standard_encode(data);
    proof {
        if 1 <= data@.len() <= MAX_COVER_IMAGE_BYTES {
            assert forall|text: Seq<char>| #[trigger]
                strip_ws_chars(text) == r@ implies cover_spec(
                text,
                vstd::utf8::encode_utf8(text),
            ) == Ok::<Option<Seq<u8>>, Seq<char>>(Some(data@)) by {
                lemma_encoded_cover_decodes(data@, r@, text, true);
            }
            assert forall|text: Seq<char>| #[trigger]
                strip_ws_chars(text) == r@.subrange(
                    0,
                    r@.len() - base64_pad_count(data@.len()),
                ) implies cover_spec(text, vstd::utf8::encode_utf8(text)) == Ok::<
                Option<Seq<u8>>,
                Seq<char>,
            >(Some(data@)) by {
                lemma_encoded_cover_decodes(data@, r@, text, false);
            }
        }
    }
    r
}

} // verus!
