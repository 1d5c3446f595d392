//! The stored form of a GitHub token: its UTF-8 bytes in standard base64.

use vstd::prelude::*;

use base64::Engine;

use vstd::utf8::{decode_utf8, encode_utf8, valid_utf8};

verus! {

broadcast use vstd::utf8::group_utf8_lib;

/// `base64::DecodeError`, why a text is not base64.
#[verifier::external_type_specification]
#[verifier::external_body]
pub struct ExDecodeError(base64::DecodeError);

/// What decoding base64 gives: the bytes, or why the text was refused.
pub type DecodeResult = Result<Vec<u8>, base64::DecodeError>;

/// The standard base64 encoding (RFC 4648 alphabet, with `=` padding) of `bytes`,
/// as `base64::prelude::BASE64_STANDARD.encode` writes it.
pub uninterp spec fn base64_standard(bytes: Seq<u8>) -> Seq<char>;

/// The bytes that `base64::prelude::BASE64_STANDARD.decode` reads from `text`,
/// none when it refuses the text.
pub uninterp spec fn base64_standard_decoded(text: Seq<char>) -> Option<Seq<u8>>;

/// The encoding of `len` bytes is short enough for the encoder: its length
/// computation does not overflow and its buffer can be allocated.
pub open spec fn encodable_len(len: nat) -> bool {
    (len / 3) * 4 + (if len % 3 > 0 {
        4nat
    } else {
        0nat
    }) <= isize::MAX
}

/// `Engine::encode` of `BASE64_STANDARD`, which panics when the encoded
/// length overflows `usize` or cannot be allocated. Its result is named, not
/// described.
#[verifier::external_body]
fn base64_encode(bytes: &[u8]) -> (r: String)
    requires
        encodable_len(bytes@.len()),
    ensures
        r@ == base64_standard(bytes@),
{
    base64::prelude::BASE64_STANDARD.encode(bytes)
}

/// `Engine::decode` of `BASE64_STANDARD` on the bytes of `text`. Its result is
/// named, and decoding gives back what encoding was given: a text that is the
/// encoding of some bytes decodes to those bytes.
#[verifier::external_body]
fn base64_decode(text: &str) -> (r: DecodeResult)
    ensures
        r is Ok <==> base64_standard_decoded(text@) is Some,
        r matches Ok(v) ==> v@ == base64_standard_decoded(text@)->0,
        r is Err ==> forall|b: Seq<u8>| #[trigger] base64_standard(b) != text@,
        r matches Ok(v) ==> forall|b: Seq<u8>| #[trigger] base64_standard(b) == text@ ==> v@ == b,
{
    base64::prelude::BASE64_STANDARD.decode(text)
}

/// `String::from_utf8`: the text the bytes encode, when they are valid UTF-8.
#[verifier::external_body]
fn string_from_utf8(bytes: Vec<u8>) -> (r: Option<String>)
    ensures
        r is Some <==> valid_utf8(bytes@),
        r matches Some(s) ==> s@ == decode_utf8(bytes@),
{
    String::from_utf8(bytes).ok()
}

/// The stored form of a token.
pub open spec fn encoded_token(token: Seq<char>) -> Seq<char> {
    base64_standard(encode_utf8(token))
}

/// The token a stored form holds, if any: base64-decoded, then read as UTF-8.
pub open spec fn decoded_token(encoded: Seq<char>) -> Option<Seq<char>> {
    match base64_standard_decoded(encoded) {
        Some(bytes) => if valid_utf8(bytes) {
            Some(decode_utf8(bytes))
        } else {
            None
        },
        None => None,
    }
}

/// The stored form of `token`: its UTF-8 bytes in standard base64 (a simple
/// obfuscation, not encryption).
pub fn encode_token(token: &str) -> (r: String)
    requires
        encodable_len(encode_utf8(token@).len()),
    ensures
        r@ == encoded_token(token@),
{
    base64_encode(token.as_bytes())
}

/// The token held by a stored form, if it decodes to UTF-8 text. A stored form
/// written by `encode_token` gives back the token it was written for.
pub fn decode_token(encoded: &str) -> (r: Option<String>)
    ensures
        r matches Some(t) ==> decoded_token(encoded@) == Some(t@),
        r is None ==> decoded_token(encoded@) is None,
        forall|t: Seq<char>| #[trigger] encoded_token(t) == encoded@ ==> (r matches Some(s) && s@ == t),
{
    match base64_decode(encoded) {
        Ok(bytes) => {
            let r = string_from_utf8(bytes);
            assert forall|t: Seq<char>| #[trigger] encoded_token(t) == encoded@ implies (r matches Some(
                s,
            ) && s@ == t) by {
                assert(base64_standard(encode_utf8(t)) == encoded@);
            }
            r
        },
        Err(_) => None,
    }
}

} // verus!
