//! The textual envelope of a container: base64 in lines of 64 columns
//! between a header line and a footer line.
//!
//! The encoding itself is that of `age::armor`. This module names what it
//! yields and refuses text that lacks the header or a footer line before
//! it is decoded.

use crate::error::{plain, Error, Malformed};
use crate::format::{has_prefix, is_armored, ARMOR_FOOTER, ARMOR_HEADER};
use crate::lines::{has_line, lines_of};
use vstd::prelude::*;
use vstd::string::StringSliceAdditionalSpecFns;
use vstd::utf8::valid_utf8;

verus! {

/// The armored text of the binary container `binary`.
pub uninterp spec fn armor_encoding(binary: Seq<u8>) -> Seq<u8>;

/// The bytes that the armored text `text` carries; `None` where `text` is
/// not a well-formed envelope.
pub uninterp spec fn armor_decoding(text: Seq<u8>) -> Option<Seq<u8>>;

/// The columns of a full line of the body.
pub const ARMOR_COLUMNS: usize = 64;

/// A byte of the standard base64 alphabet, or the padding sign.
pub open spec fn is_base64_byte(byte: u8) -> bool {
    ||| 0x41 <= byte <= 0x5a
    ||| 0x61 <= byte <= 0x7a
    ||| 0x30 <= byte <= 0x39
    ||| byte == 0x2b
    ||| byte == 0x2f
    ||| byte == 0x3d
}

/// A line of the body: base64, and no longer than a full line.
pub open spec fn is_body_line(line: Seq<u8>) -> bool {
    &&& line.len() <= ARMOR_COLUMNS
    &&& forall|j: int| 0 <= j < line.len() ==> is_base64_byte(#[trigger] line[j])
}

/// The lines of an envelope as it is written: the header comes first and
/// the footer last; between them stands the body in lines of base64, of
/// which every one but the last is a full line.
pub open spec fn is_armor_layout(text: Seq<u8>) -> bool {
    let lines = lines_of(text);
    &&& lines.len() >= 3
    &&& lines.first() == ARMOR_HEADER.spec_bytes()
    &&& lines.last() == ARMOR_FOOTER.spec_bytes()
    &&& forall|i: int| 1 <= i < lines.len() - 1 ==> is_body_line(#[trigger] lines[i])
    &&& forall|i: int| 1 <= i < lines.len() - 2 ==> (#[trigger] lines[i]).len() == ARMOR_COLUMNS
}

/// Whether the footer is one of the lines of `text`.
pub open spec fn has_footer_line(text: Seq<u8>) -> bool {
    lines_of(text).contains(ARMOR_FOOTER.spec_bytes())
}

/// `text` is an envelope of `binary`: it begins with the header, holds a
/// footer line, and decodes to `binary`.
pub open spec fn is_envelope_of(text: Seq<u8>, binary: Seq<u8>) -> bool {
    &&& is_armored(text)
    &&& has_footer_line(text)
    &&& armor_decoding(text) == Some(binary)
}

/// What `unwrap` yields for `text`.
pub open spec fn unwrapped(text: Seq<u8>) -> Result<Seq<u8>, Error> {
    if !is_armored(text) || !has_footer_line(text) {
        Err(Error::FormatError(Malformed::Armor))
    } else {
        match armor_decoding(text) {
            Some(binary) => Ok(binary),
            None => Err(Error::FormatError(Malformed::Armor)),
        }
    }
}

/// Writes `binary` through an `age::armor::ArmoredWriter` in the format
/// `AsciiArmor` into a vector: `wrap_output`, `write_all`, `finish`. The
/// contract names the text, and says of it what the writer and the
/// reader of that module show. It begins with the header line. Its
/// lines are the header, the base64 body in lines of 64 columns of
/// which only the last may be shorter, and the footer; all of it is
/// ASCII, so it is text. And, unless `binary` is empty, an
/// `age::armor::ArmoredReader` reads `binary` back from it. (For the
/// empty input the body is one empty line, which the reader refuses.)
#[verifier::external_body]
fn armor_write(binary: &[u8]) -> (text: Vec<u8>)
    ensures
        text@ == armor_encoding(binary@),
        is_armored(text@),
        is_armor_layout(text@),
        valid_utf8(text@),
        binary@.len() > 0 ==> armor_decoding(text@) == Some(binary@),
{
    let sink: Vec<u8> = Vec::new();
    let mut writer = age::armor::ArmoredWriter::wrap_output(sink, age::armor::Format::AsciiArmor)
        .expect("a vector takes every write");
    std::io::Write::write_all(&mut writer, binary).expect("a vector takes every write");
    writer.finish().expect("a vector takes every write")
}

/// Reads `text` to its end through an `age::armor::ArmoredReader`. The
/// contract names the outcome: the bytes read, or `None` where the reader
/// reports an error.
#[verifier::external_body]
fn armor_read(text: &[u8]) -> (binary: Option<Vec<u8>>)
    ensures
        binary is Some <==> armor_decoding(text@) is Some,
        binary matches Some(bytes) ==> armor_decoding(text@) == Some(bytes@),
{
    let mut bytes: Vec<u8> = Vec::new();
    let mut reader = age::armor::ArmoredReader::new(text);
    std::io::Read::read_to_end(&mut reader, &mut bytes).ok().map(|_| bytes)
}

/// Puts a binary container into its textual envelope: the header line,
/// the body in lines of 64 columns, the footer line. `unwrap` gives a
/// container that is not empty back from it.
pub fn wrap(binary: &[u8]) -> (text: Vec<u8>)
    ensures
        text@ == armor_encoding(binary@),
        is_armored(text@),
        has_footer_line(text@),
        is_armor_layout(text@),
        valid_utf8(text@),
        binary@.len() > 0 ==> is_envelope_of(text@, binary@),
        binary@.len() > 0 ==> unwrapped(text@) == Ok::<Seq<u8>, Error>(binary@),
{
    let text = armor_write(binary);
    proof {
        let lines = lines_of(text@);
        assert(lines[lines.len() - 1] == lines.last());
    }
    text
}

/// Takes a container out of its textual envelope. Text that does not begin
/// with the header, has no footer line, or is not canonical base64 in
/// between is refused.
pub fn unwrap(text: &[u8]) -> (binary: Result<Vec<u8>, Error>)
    ensures
        plain(binary) == unwrapped(text@),
{
    if !has_prefix(text, ARMOR_HEADER.as_bytes()) {
        return Err(Error::FormatError(Malformed::Armor));
    }
    if !has_line(text, ARMOR_FOOTER.as_bytes()) {
        return Err(Error::FormatError(Malformed::Armor));
    }
    match armor_read(text) {
        Some(bytes) => Ok(bytes),
        None => Err(Error::FormatError(Malformed::Armor)),
    }
}

/// Text that begins with the header and has no footer line is refused,
/// whatever stands after the header.
pub proof fn lemma_missing_footer_is_refused(text: Seq<u8>)
    requires
        is_armored(text),
        !has_footer_line(text),
    ensures
        unwrapped(text) == Err::<Seq<u8>, Error>(Error::FormatError(Malformed::Armor)),
{
}

/// An envelope of a container unwraps to that container.
pub proof fn lemma_envelope_unwraps(text: Seq<u8>, binary: Seq<u8>)
    requires
        is_envelope_of(text, binary),
    ensures
        unwrapped(text) == Ok::<Seq<u8>, Error>(binary),
{
}

} // verus!
