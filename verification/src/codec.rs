//! What the outside crates and the standard library decode and check:
//! base64, UTF-8, header values. The contracts in this module are taken on
//! trust from their sources; everything else in the crate is proved from
//! them.

use aws_smithy_types::base64::DecodeError;
use reqwest::header::{HeaderValue, InvalidHeaderValue};
use vstd::prelude::*;
use vstd::utf8::{
    decode_utf8, encode_scalar, encode_utf8, has_width_1_encoding, last_continuation_byte,
    leading_byte_width_1, leading_byte_width_2, leading_byte_width_3, leading_byte_width_4,
    second_last_continuation_byte, third_last_continuation_byte, valid_utf8,
};

verus! {

/// The bytes that `aws_smithy_types::base64::decode` gives for `input`, or
/// `None` where it rejects `input`.
pub uninterp spec fn base64_decoded(input: Seq<char>) -> Option<Seq<u8>>;

/// The text in which `String::from_utf8` says why `bytes` are not UTF-8.
pub uninterp spec fn utf8_failure_text(bytes: Seq<u8>) -> Seq<char>;

/// `aws_smithy_types::base64::DecodeError`, the error of `decode`: carried
/// from the call to where its text is asked for, nothing is known of it.
#[verifier::external_type_specification]
#[verifier::external_body]
pub struct ExDecodeError(aws_smithy_types::base64::DecodeError);

/// `reqwest::header::HeaderValue`, a checked header value: nothing is
/// known of what it holds.
#[verifier::external_type_specification]
#[verifier::external_body]
pub struct ExHeaderValue(reqwest::header::HeaderValue);

/// `reqwest::header::InvalidHeaderValue`, the error of
/// `HeaderValue::from_str`: nothing is known of it.
#[verifier::external_type_specification]
#[verifier::external_body]
pub struct ExInvalidHeaderValue(reqwest::header::InvalidHeaderValue);

/// `aws_smithy_types::base64::decode`: decodes standard base64. The result
/// is a function of the input alone; which inputs are accepted, and the
/// bytes they give, is what [`base64_decoded`] names.
#[verifier::external_body]
pub(crate) fn base64_decode(input: &str) -> (r: Result<Vec<u8>, DecodeError>)
    ensures
        match r {
            Ok(bytes) => base64_decoded(input@) == Some(bytes@),
            Err(_) => base64_decoded(input@) is None,
        },
{
    aws_smithy_types::base64::decode(input)
}

/// `Display` of `aws_smithy_types::base64::DecodeError`: always the same text.
#[verifier::external_body]
pub(crate) fn base64_error_text(error: &DecodeError) -> (r: String)
    ensures
        r@ == "failed to decode base64"@,
{
    format!("{}", error)
}

/// `String::from_utf8`: the text that the bytes encode where they are
/// valid UTF-8, and else an error, handed back as its `Display` text.
#[verifier::external_body]
pub(crate) fn utf8_decode(bytes: Vec<u8>) -> (r: Result<String, String>)
    ensures
        match r {
            Ok(text) => valid_utf8(bytes@) && text@ == decode_utf8(bytes@),
            Err(cause) => !valid_utf8(bytes@) && cause@ == utf8_failure_text(bytes@),
        },
{
    match String::from_utf8(bytes) {
        Ok(text) => Ok(text),
        Err(e) => Err(format!("{}", e)),
    }
}

/// A byte that a header value may hold: a tab, or anything from the blank
/// upwards but the delete character.
pub open spec fn header_byte(b: u8) -> bool {
    (b >= 32 && b != 127) || b == 9
}

/// Every byte of the text's UTF-8 form may stand in a header value.
pub open spec fn header_text(text: Seq<char>) -> bool {
    header_bytes(encode_utf8(text))
}

/// Every one of the bytes may stand in a header value.
pub open spec fn header_bytes(bytes: Seq<u8>) -> bool {
    forall|i: int| 0 <= i < bytes.len() ==> header_byte(#[trigger] bytes[i])
}

/// A character whose UTF-8 form may stand in a header value: any but the
/// control characters, of which the tab alone may.
pub open spec fn header_char(c: char) -> bool {
    (c >= ' ' && c != '\u{7f}') || c == '\t'
}

/// `reqwest::header::HeaderValue::from_str`: accepts a text exactly when
/// each of its bytes may stand in a header value.
#[verifier::external_body]
pub(crate) fn header_value(text: &str) -> (r: Result<HeaderValue, InvalidHeaderValue>)
    ensures
        r is Ok <==> header_text(text@),
{
    HeaderValue::from_str(text)
}

/// `Display` of `reqwest::header::InvalidHeaderValue`: always the same text.
#[verifier::external_body]
pub(crate) fn header_error_text(error: &InvalidHeaderValue) -> (r: String)
    ensures
        r@ == "failed to parse header value"@,
{
    format!("{}", error)
}

/// The bytes of one character may all stand in a header value exactly
/// when the character may.
proof fn lemma_header_scalar(c: char)
    ensures
        header_bytes(encode_scalar(c as u32)) <==> header_char(c),
{
    let s = c as u32;
    let bytes = encode_scalar(s);
    vstd::utf8::char_is_scalar(c);
    if has_width_1_encoding(s) {
        assert(leading_byte_width_1(s) == s) by (bit_vector)
            requires
                s <= 0x7F,
        ;
        assert(header_byte(bytes[0]) <==> header_char(c));
    } else {
        assert(leading_byte_width_2(s) >= 0x80 && leading_byte_width_3(s) >= 0x80
            && leading_byte_width_4(s) >= 0x80 && last_continuation_byte(s) >= 0x80
            && second_last_continuation_byte(s) >= 0x80 && third_last_continuation_byte(s)
            >= 0x80) by (bit_vector);
    }
}

/// A text may stand in a header value exactly when each of its characters
/// may: control characters other than the tab keep it out, and nothing
/// else does.
pub proof fn lemma_header_text_by_chars(text: Seq<char>)
    ensures
        header_text(text) <==> forall|i: int| 0 <= i < text.len() ==> header_char(#[trigger] text[i]),
    decreases text.len(),
{
    if text.len() > 0 {
        vstd::utf8::char_is_scalar(text[0]);
        let head = encode_scalar(text[0] as u32);
        let rest = text.drop_first();
        let tail = encode_utf8(rest);
        let bytes = encode_utf8(text);
        lemma_header_scalar(text[0]);
        lemma_header_text_by_chars(rest);
        if header_bytes(bytes) {
            // The bytes of the text are those of its first character, then
            // those of the rest.
            assert forall|i: int| 0 <= i < head.len() implies header_byte(#[trigger] head[i]) by {
                assert(bytes[i] == head[i]);
            }
            assert forall|i: int| 0 <= i < tail.len() implies header_byte(#[trigger] tail[i]) by {
                assert(bytes[head.len() + i] == tail[i]);
            }
            assert forall|i: int| 0 <= i < text.len() implies header_char(#[trigger] text[i]) by {
                if i > 0 {
                    assert(text[i] == rest[i - 1]);
                }
            }
        }
    }
}

} // verus!
