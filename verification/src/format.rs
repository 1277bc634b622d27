//! Telling the two serializations of a container apart.

use vstd::prelude::*;
use vstd::string::StringSliceAdditionalSpecFns;

verus! {

/// The first line of an armored container, without its line ending.
pub const ARMOR_HEADER: &'static str = "-----BEGIN AGE ENCRYPTED FILE-----";

/// The last line of an armored container, without its line ending.
pub const ARMOR_FOOTER: &'static str = "-----END AGE ENCRYPTED FILE-----";

/// The serialization that a buffer holds.
#[derive(Debug, Clone, Copy, PartialEq, Eq, Structural)]
pub enum Format {
    /// The container itself.
    Binary,
    /// The container in its textual envelope.
    Armored,
}

/// Whether `prefix` stands at the start of `bytes`.
pub open spec fn starts_with(bytes: Seq<u8>, prefix: Seq<u8>) -> bool {
    prefix.len() <= bytes.len() && bytes.subrange(0, prefix.len() as int) == prefix
}

/// A buffer is armored exactly when it begins with the armor header. A
/// header that is cut short or altered leaves the buffer binary.
pub open spec fn is_armored(bytes: Seq<u8>) -> bool {
    starts_with(bytes, ARMOR_HEADER.spec_bytes())
}

/// The serialization that `bytes` are taken for.
pub open spec fn format_of(bytes: Seq<u8>) -> Format {
    if is_armored(bytes) {
        Format::Armored
    } else {
        Format::Binary
    }
}

/// The armor header is 34 bytes, and the first is a hyphen.
pub proof fn lemma_armor_header_bytes()
    ensures
        ARMOR_HEADER.spec_bytes().len() == 34,
        ARMOR_HEADER.spec_bytes()[0] == 0x2du8,
{
    reveal_strlit("-----BEGIN AGE ENCRYPTED FILE-----");
    let header = ARMOR_HEADER@;
    assert(vstd::utf8::is_ascii_chars(header)) by {
        assert forall|i: int| 0 <= i < header.len() implies (0 <= #[trigger] (header[i] as nat)
            < 128) by {}
    }
    vstd::utf8::is_ascii_chars_encode_utf8(header);
}

/// Tells whether `bytes` begin with `prefix`.
pub fn has_prefix(bytes: &[u8], prefix: &[u8]) -> (found: bool)
    ensures
        found == starts_with(bytes@, prefix@),
{
    if prefix.len() > bytes.len() {
        return false;
    }
    let mut i: usize = 0;
    while i < prefix.len()
        invariant
            i <= prefix.len() <= bytes.len(),
            forall|j: int| 0 <= j < i ==> bytes[j] == prefix[j],
        decreases prefix.len() - i,
    {
        if bytes[i] != prefix[i] {
            assert(bytes@.subrange(0, prefix.len() as int)[i as int] != prefix@[i as int]);
            return false;
        }
        i += 1;
    }
    assert(bytes@.subrange(0, prefix.len() as int) =~= prefix@);
    true
}

/// Classifies a buffer by its first bytes alone. Nothing fails here: what is
/// not armored is taken for binary and fails later, where it is parsed.
pub fn classify(bytes: &[u8]) -> (format: Format)
    ensures
        format == format_of(bytes@),
{
    if has_prefix(bytes, ARMOR_HEADER.as_bytes()) {
        Format::Armored
    } else {
        Format::Binary
    }
}

} // verus!
