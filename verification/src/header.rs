//! Header values of the `http` crate: which texts they can hold, and what
//! they hold.

use axum::http::header::{HeaderValue, InvalidHeaderValue};
use vstd::prelude::*;
use vstd::utf8::{
    encode_scalar, encode_utf8, has_width_1_encoding, has_width_2_encoding, has_width_3_encoding,
    is_scalar, last_continuation_byte, leading_byte_width_1, leading_byte_width_2,
    leading_byte_width_3, leading_byte_width_4, second_last_continuation_byte,
    third_last_continuation_byte,
};

verus! {

/// A header value of the `http` crate, carried through as it is.
#[verifier::external_type_specification]
#[verifier::external_body]
pub struct ExHeaderValue(HeaderValue);

/// The error with which the `http` crate refuses a header value.
#[verifier::external_type_specification]
#[verifier::external_body]
pub struct ExInvalidHeaderValue(InvalidHeaderValue);

/// The bytes that a header value holds.
pub uninterp spec fn header_value_bytes(value: HeaderValue) -> Seq<u8>;

/// A byte that may stand in a header value: a tab, or anything from the
/// space upwards but the delete character.
pub open spec fn header_byte_ok(b: u8) -> bool {
    (b >= 32 && b != 127) || b == 9
}

/// Every byte of `bytes` may stand in a header value.
pub open spec fn header_bytes_ok(bytes: Seq<u8>) -> bool {
    forall|i: int| 0 <= i < bytes.len() ==> header_byte_ok(#[trigger] bytes[i])
}

/// A character that may stand in a header value: a tab, or anything from
/// the space upwards but the delete character.
pub open spec fn header_char_ok(c: char) -> bool {
    (c as u32 >= 32 && c as u32 != 127) || c as u32 == 9
}

/// Every character of `text` may stand in a header value.
pub open spec fn header_text_ok(text: Seq<char>) -> bool {
    forall|i: int| 0 <= i < text.len() ==> header_char_ok(#[trigger] text[i])
}

/// The bytes of one character may stand in a header value exactly when the
/// character may.
proof fn lemma_header_scalar(v: u32)
    requires
        is_scalar(v),
    ensures
        header_bytes_ok(encode_scalar(v)) <==> ((v >= 32 && v != 127) || v == 9),
{
    let bytes = encode_scalar(v);
    if has_width_1_encoding(v) {
        assert(leading_byte_width_1(v) as u32 == v) by (bit_vector)
            requires
                has_width_1_encoding(v),
        ;
        assert(bytes[0] == leading_byte_width_1(v));
    } else {
        assert(leading_byte_width_2(v) >= 0x80) by (bit_vector);
        assert(leading_byte_width_3(v) >= 0x80) by (bit_vector);
        assert(leading_byte_width_4(v) >= 0x80) by (bit_vector);
        assert(last_continuation_byte(v) >= 0x80) by (bit_vector);
        assert(second_last_continuation_byte(v) >= 0x80) by (bit_vector);
        assert(third_last_continuation_byte(v) >= 0x80) by (bit_vector);
        assert forall|i: int| 0 <= i < bytes.len() implies header_byte_ok(#[trigger] bytes[i]) by {
            if has_width_2_encoding(v) {
            } else if has_width_3_encoding(v) {
            } else {
            }
        }
    }
}

/// A text can be encoded as a header value exactly when none of its
/// characters is a control character other than the tab.
pub proof fn lemma_header_text(text: Seq<char>)
    ensures
        header_bytes_ok(encode_utf8(text)) <==> header_text_ok(text),
    decreases text.len(),
{
    if text.len() > 0 {
        let first = encode_scalar(text[0] as u32);
        let rest = text.drop_first();
        let tail = encode_utf8(rest);
        let all = encode_utf8(text);
        vstd::utf8::char_is_scalar(text[0]);
        lemma_header_scalar(text[0] as u32);
        lemma_header_text(rest);
        assert(all == first + tail);
        if header_bytes_ok(all) {
            assert forall|i: int| 0 <= i < first.len() implies header_byte_ok(
                #[trigger] first[i],
            ) by {
                assert(all[i] == first[i]);
            }
            assert forall|i: int| 0 <= i < tail.len() implies header_byte_ok(#[trigger] tail[i]) by {
                assert(all[first.len() + i] == tail[i]);
            }
            assert forall|i: int| 0 <= i < text.len() implies header_char_ok(#[trigger] text[i]) by {
                if i > 0 {
                    assert(text[i] == rest[i - 1]);
                }
            }
        }
        if header_text_ok(text) {
            assert(header_char_ok(text[0]));
            assert forall|i: int| 0 <= i < rest.len() implies header_char_ok(#[trigger] rest[i]) by {
                assert(rest[i] == text[i + 1]);
            }
            assert forall|i: int| 0 <= i < all.len() implies header_byte_ok(#[trigger] all[i]) by {
                if i < first.len() {
                    assert(all[i] == first[i]);
                } else {
                    assert(all[i] == tail[i - first.len()]);
                }
            }
        }
    }
}

/// A text made of two parts can stand in a header value exactly when both
/// parts can.
pub proof fn lemma_header_text_concat(a: Seq<char>, b: Seq<char>)
    ensures
        header_text_ok(a + b) <==> header_text_ok(a) && header_text_ok(b),
{
    let whole = a + b;
    if header_text_ok(whole) {
        assert forall|i: int| 0 <= i < a.len() implies header_char_ok(#[trigger] a[i]) by {
            assert(whole[i] == a[i]);
        }
        assert forall|i: int| 0 <= i < b.len() implies header_char_ok(#[trigger] b[i]) by {
            assert(whole[a.len() + i] == b[i]);
        }
    }
    if header_text_ok(a) && header_text_ok(b) {
        assert forall|i: int| 0 <= i < whole.len() implies header_char_ok(#[trigger] whole[i]) by {
            if i < a.len() {
                assert(whole[i] == a[i]);
            } else {
                assert(whole[i] == b[i - a.len()]);
            }
        }
    }
}

/// A byte that is visible as text in a header value: a tab, or anything
/// from the space up to the tilde.
pub open spec fn visible_byte(b: u8) -> bool {
    (32 <= b < 127) || b == 9
}

/// Every byte of `bytes` is visible as text.
pub open spec fn visible_bytes(bytes: Seq<u8>) -> bool {
    forall|i: int| 0 <= i < bytes.len() ==> visible_byte(#[trigger] bytes[i])
}

/// `HeaderValue::to_str` of the `http` crate. It yields the value as text
/// exactly when each of its bytes is a tab or from 32 to 126, and the text
/// then has the value's bytes.
#[verifier::external_body]
pub(crate) fn header_value_to_str(value: &HeaderValue) -> (text: Option<&str>)
    ensures
        text is Some <==> visible_bytes(header_value_bytes(*value)),
        text is Some ==> encode_utf8(text->0@) == header_value_bytes(*value),
{
    value.to_str().ok()
}

/// `HeaderValue::from_str` of the `http` crate. It accepts a string exactly
/// when each of its bytes is a tab or at least 32 and not 127, and the value
/// then holds the string's bytes unchanged.
#[verifier::external_body]
pub(crate) fn header_value_from_str(src: &str) -> (r: Result<HeaderValue, InvalidHeaderValue>)
    ensures
        r is Ok <==> header_bytes_ok(encode_utf8(src@)),
        r is Ok ==> header_value_bytes(r->Ok_0) == encode_utf8(src@),
{
    HeaderValue::from_str(src)
}

} // verus!
