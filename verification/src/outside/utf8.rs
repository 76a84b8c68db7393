//! Bytes as text: `String::from_utf8`, `String::from_utf8_lossy` and `format!`.
use vstd::prelude::*;
use vstd::utf8::*;

verus! {

/// What `String::from_utf8_lossy` makes of bytes that are not UTF-8.
pub uninterp spec fn lossy_text(bytes: Seq<u8>) -> Seq<char>;

/// The text that the bytes encode, or with replacement characters for what is not text.
pub open spec fn readable(bytes: Seq<u8>) -> Seq<char> {
    if valid_utf8(bytes) {
        decode_utf8(bytes)
    } else {
        lossy_text(bytes)
    }
}

/// `String::from_utf8_lossy`: text as it is, and replacement characters for what is
/// not text. Where replacement characters go is left to its name.
#[verifier::external_body]
pub(crate) fn text_lossy(bytes: &[u8]) -> (r: String)
    ensures
        valid_utf8(bytes@) ==> r@ == decode_utf8(bytes@),
        !valid_utf8(bytes@) ==> r@ == lossy_text(bytes@),
{
    String::from_utf8_lossy(bytes).into_owned()
}

/// `String::from_utf8`: the text that the bytes encode, or the words of its error when
/// they encode none. Nothing is said of these words.
#[verifier::external_body]
pub(crate) fn text_strict(bytes: &[u8]) -> (r: Result<String, String>)
    ensures
        r is Ok <==> valid_utf8(bytes@),
        r matches Ok(t) ==> t@ == decode_utf8(bytes@),
{
    String::from_utf8(bytes.to_vec()).map_err(|e| e.to_string())
}

/// What `format!` with `{:?}` makes of a text.
pub uninterp spec fn quoted_text(text: Seq<char>) -> Seq<char>;

/// `format!` with `{:?}` of a text: the text in quotes, with escapes for what cannot be
/// shown.
#[verifier::external_body]
pub(crate) fn quote_text(text: &str) -> (r: String)
    ensures
        r@ == quoted_text(text@),
{
    format!("{:?}", text)
}

/// Text that was sent as bytes is read as it was.
pub proof fn law_text_is_readable(text: Seq<char>)
    ensures
        readable(encode_utf8(text)) == text,
{
    encode_utf8_valid_utf8(text);
    encode_utf8_decode_utf8(text);
}

}
