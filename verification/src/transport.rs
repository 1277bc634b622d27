//! Containers and plaintexts as strings.
//!
//! An armored container is text already and travels as it is. A binary
//! container is not text, so it travels as standard base64, which the
//! `base64` crate encodes and decodes.

use crate::error::{plain, plain_text, Error, Malformed};
use crate::format::{
    classify, has_prefix, is_armored, lemma_armor_header_bytes, Format, ARMOR_HEADER,
};
use vstd::prelude::*;
use vstd::string::StringSliceAdditionalSpecFns;
use vstd::utf8::{encode_utf8, is_ascii_chars, is_ascii_chars_encode_utf8, valid_utf8};

verus! {

/// The standard base64 text of `bytes`, with padding.
pub uninterp spec fn base64_encoding(bytes: Seq<u8>) -> Seq<char>;

/// The bytes that the base64 text `text` stands for; `None` where `text`
/// is not standard base64.
pub uninterp spec fn base64_decoding(text: Seq<char>) -> Option<Seq<u8>>;

/// A character of the standard base64 alphabet, or the padding sign.
pub open spec fn is_base64_char(c: char) -> bool {
    ||| 'A' <= c <= 'Z'
    ||| 'a' <= c <= 'z'
    ||| '0' <= c <= '9'
    ||| c == '+'
    ||| c == '/'
    ||| c == '='
}

/// Calls `encode` of `base64::engine::general_purpose::STANDARD`. The
/// contract names the text and says of it what the crate documents: it is
/// made of the standard alphabet and the padding sign, and `decode` of
/// the same engine gives the input back.
#[verifier::external_body]
fn base64_encode(bytes: &[u8]) -> (text: String)
    ensures
        text@ == base64_encoding(bytes@),
        base64_decoding(text@) == Some(bytes@),
        forall|i: int| 0 <= i < text@.len() ==> is_base64_char(#[trigger] text@[i]),
{
    base64::Engine::encode(&base64::engine::general_purpose::STANDARD, bytes)
}

/// Calls `decode` of `base64::engine::general_purpose::STANDARD`. The
/// contract names the outcome: the bytes, or `None` for an error.
#[verifier::external_body]
fn base64_decode(text: &str) -> (bytes: Option<Vec<u8>>)
    ensures
        bytes is Some <==> base64_decoding(text@) is Some,
        bytes matches Some(found) ==> base64_decoding(text@) == Some(found@),
{
    base64::Engine::decode(&base64::engine::general_purpose::STANDARD, text).ok()
}

/// Calls `String::from_utf8`, which gives a string of exactly these bytes
/// where they are UTF-8, and an error where they are not.
#[verifier::external_body]
fn utf8_string(bytes: Vec<u8>) -> (text: Option<String>)
    ensures
        text is Some <==> valid_utf8(bytes@),
        text matches Some(s) ==> encode_utf8(s@) == bytes@,
{
    String::from_utf8(bytes).ok()
}

/// What `text_of_container` yields: the container itself where it is
/// armored, else its base64 text, which is made of the standard alphabet
/// and the padding sign alone and decodes to the container.
pub open spec fn container_text_is(container: Seq<u8>, text: Seq<char>) -> bool {
    if is_armored(container) {
        encode_utf8(text) == container
    } else {
        &&& text == base64_encoding(container)
        &&& base64_decoding(text) == Some(container)
        &&& forall|i: int| 0 <= i < text.len() ==> is_base64_char(#[trigger] text[i])
    }
}

/// What `container_of_text` yields: text that begins with the armor header
/// is a container as it stands; any other text must be base64.
pub open spec fn container_of(text: Seq<char>) -> Result<Seq<u8>, Error> {
    if is_armored(encode_utf8(text)) {
        Ok(encode_utf8(text))
    } else {
        match base64_decoding(text) {
            Some(container) => Ok(container),
            None => Err(Error::FormatError(Malformed::Base64Text)),
        }
    }
}

/// A container as a string: armored text as it is, a binary container in
/// base64. Only bytes that begin with the armor header and are not text
/// cannot be given as a string.
pub fn text_of_container(container: Vec<u8>) -> (text: Result<String, Error>)
    ensures
        text is Err <==> is_armored(container@) && !valid_utf8(container@),
        text matches Ok(s) ==> container_text_is(container@, s@) && container_of(s@) == Ok::<
            Seq<u8>,
            Error,
        >(container@),
        text matches Err(e) ==> e == Error::EncodingFailure,
{
    match classify(container.as_slice()) {
        Format::Armored => match utf8_string(container) {
            Some(s) => Ok(s),
            None => Err(Error::EncodingFailure),
        },
        Format::Binary => {
            let s = base64_encode(container.as_slice());
            proof {
                lemma_base64_is_not_armored(s@);
            }
            Ok(s)
        },
    }
}

/// The container that a string carries.
pub fn container_of_text(text: &str) -> (container: Result<Vec<u8>, Error>)
    ensures
        plain(container) == container_of(text@),
{
    let bytes = text.as_bytes();
    if has_prefix(bytes, ARMOR_HEADER.as_bytes()) {
        Ok(vstd::slice::slice_to_vec(bytes))
    } else {
        match base64_decode(text) {
            Some(container) => Ok(container),
            None => Err(Error::FormatError(Malformed::Base64Text)),
        }
    }
}

/// A plaintext as a string, where it is one.
pub fn text_of_plaintext(plaintext: Vec<u8>) -> (text: Result<String, Error>)
    ensures
        plain_text(text) == (if valid_utf8(plaintext@) {
            Ok::<Seq<u8>, Error>(plaintext@)
        } else {
            Err::<Seq<u8>, Error>(Error::EncodingFailure)
        }),
{
    match utf8_string(plaintext) {
        Some(s) => Ok(s),
        None => Err(Error::EncodingFailure),
    }
}

/// Base64 text never begins with the armor header, so a string is never
/// taken for the other kind.
pub proof fn lemma_base64_is_not_armored(text: Seq<char>)
    requires
        forall|i: int| 0 <= i < text.len() ==> is_base64_char(#[trigger] text[i]),
    ensures
        !is_armored(encode_utf8(text)),
{
    lemma_armor_header_bytes();
    assert(is_ascii_chars(text)) by {
        assert forall|i: int| 0 <= i < text.len() implies (0 <= #[trigger] (text[i] as nat)
            < 128) by {
            assert(is_base64_char(text[i]));
        }
    }
    is_ascii_chars_encode_utf8(text);
    let header = ARMOR_HEADER.spec_bytes();
    let bytes = encode_utf8(text);
    if is_armored(bytes) {
        assert(bytes.subrange(0, header.len() as int)[0] == bytes[0]);
        assert(is_base64_char(text[0]));
        assert(bytes[0] == text[0] as u8);
    }
}

} // verus!
