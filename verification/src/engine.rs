//! Encryption and decryption of whole containers, binary or armored.
//!
//! Decryption looks at the first bytes of what it is given, takes an
//! armored container out of its envelope, and opens the binary container.
//! Encryption is the mirror of it.

use crate::armor::{
    armor_decoding, has_footer_line, is_armor_layout, is_envelope_of, unwrap, unwrapped, wrap,
};
use crate::cipher::{
    is_sealed_for, is_sealed_under_passphrase, lemma_container_is_binary,
    lemma_first_match_wins, lemma_keys_do_not_open_passphrase_container, open_with_identities,
    open_with_passphrase, opening, passphrase_verdict, scrypt_open, seal_for_recipients,
    seal_with_passphrase, told, x25519_open, Refusal, CONTAINER_INTRO,
};
use crate::error::{plain, Error, Malformed};
use crate::format::{classify, is_armored, starts_with, Format};
use crate::keys::{canonical_texts, secret_texts, x25519_public_of, IdentityKey, RecipientSet};
use vstd::prelude::*;
use vstd::string::StringSliceAdditionalSpecFns;
use vstd::utf8::valid_utf8;

verus! {

/// The binary container that `content` holds: what its envelope decodes
/// to where it is armored, else `content` itself.
pub open spec fn binary_of(content: Seq<u8>) -> Seq<u8> {
    if is_armored(content) {
        armor_decoding(content)->0
    } else {
        content
    }
}

/// `text` is an envelope as it is written: it begins with the header and
/// has the lines of an envelope, it is text, and it decodes.
pub open spec fn is_written_envelope(text: Seq<u8>) -> bool {
    &&& is_armored(text)
    &&& has_footer_line(text)
    &&& is_armor_layout(text)
    &&& valid_utf8(text)
    &&& armor_decoding(text) is Some
}

/// `output` has the asked form: a written envelope where armor was asked
/// for, else a buffer that is not armored.
pub open spec fn has_form(output: Seq<u8>, armored: bool) -> bool {
    is_armored(output) == armored && (armored ==> is_written_envelope(output))
}

/// `output` is what encryption of `plaintext` for `recipients` gives: in
/// the asked form, a binary container that holds the plaintext for them.
pub open spec fn is_encryption_of(
    output: Seq<u8>,
    plaintext: Seq<u8>,
    recipients: Seq<Seq<u8>>,
    armored: bool,
) -> bool {
    has_form(output, armored) && is_sealed_for(binary_of(output), plaintext, recipients)
}

/// `output` is what encryption of `plaintext` under `passphrase` gives: in
/// the asked form, a binary container that holds the plaintext under
/// the passphrase.
pub open spec fn is_passphrase_encryption(
    output: Seq<u8>,
    plaintext: Seq<u8>,
    passphrase: Seq<char>,
    armored: bool,
) -> bool {
    has_form(output, armored) && is_sealed_under_passphrase(
        binary_of(output),
        plaintext,
        passphrase,
    )
}

/// The error that is owed before a passphrase is put to work: that of a
/// damaged envelope, or what the header of the binary container owes.
/// `None` where the cryptography decides.
pub open spec fn passphrase_content_verdict(content: Seq<u8>) -> Option<Error> {
    if is_armored(content) {
        match unwrapped(content) {
            Err(reason) => Some(reason),
            Ok(container) => passphrase_verdict(container),
        }
    } else {
        passphrase_verdict(content)
    }
}

/// What decryption with a passphrase may tell. A damaged envelope is
/// malformed armor, a container that does not parse is malformed, and a
/// container that is sealed for keys fails to decrypt, whatever the
/// passphrase. Else it is a failure to decrypt, as where the work is
/// refused, or what is told of the outcome of the passphrase on the
/// binary container.
pub open spec fn passphrase_opening_told(
    plaintext: Result<Seq<u8>, Error>,
    content: Seq<u8>,
    passphrase: Seq<char>,
) -> bool {
    match passphrase_content_verdict(content) {
        Some(owed) => plaintext == Err::<Seq<u8>, Error>(owed),
        None => plaintext == Err::<Seq<u8>, Error>(Error::DecryptionFailure) || plaintext
            == told(scrypt_open(binary_of(content), passphrase)),
    }
}

/// What `decrypt_content` yields: an armored container is taken out of
/// its envelope first, and a failure there is final.
pub open spec fn decrypted(content: Seq<u8>, secrets: Seq<Seq<u8>>) -> Result<Seq<u8>, Error> {
    if is_armored(content) {
        match unwrapped(content) {
            Ok(container) => opening(container, secrets),
            Err(reason) => Err(reason),
        }
    } else {
        opening(content, secrets)
    }
}

/// Encrypts `plaintext` so that each of the recipients can decrypt it, as
/// a binary container or, with `armored`, as armored text. It always
/// gives an encryption.
pub fn encrypt_to_recipients(plaintext: &[u8], recipients: &RecipientSet, armored: bool) -> (encrypted:
    Result<Vec<u8>, Error>)
    ensures
        encrypted matches Ok(output) && is_encryption_of(
            output@,
            plaintext@,
            canonical_texts(recipients@),
            armored,
        ),
{
    match seal_for_recipients(plaintext, recipients) {
        Err(e) => Err(e),
        Ok(container) => {
            proof {
                lemma_container_is_binary(container@);
            }
            if armored {
                Ok(wrap(container.as_slice()))
            } else {
                Ok(container)
            }
        },
    }
}

/// Encrypts `plaintext` under a passphrase, as a binary container or, with
/// `armored`, as armored text. It always gives an encryption.
pub fn encrypt_with_passphrase(plaintext: &[u8], passphrase: &str, armored: bool) -> (encrypted:
    Result<Vec<u8>, Error>)
    ensures
        encrypted matches Ok(output) && is_passphrase_encryption(
            output@,
            plaintext@,
            passphrase@,
            armored,
        ),
{
    match seal_with_passphrase(plaintext, passphrase) {
        Err(e) => Err(e),
        Ok(container) => {
            proof {
                lemma_container_is_binary(container@);
            }
            if armored {
                Ok(wrap(container.as_slice()))
            } else {
                Ok(container)
            }
        },
    }
}

/// Decrypts a container, binary or armored, with the secret keys of a key
/// file, tried in their order. Either the whole plaintext comes back,
/// authenticated, or none of it.
pub fn decrypt_content(content: &[u8], identities: &Vec<IdentityKey>) -> (plaintext: Result<
    Vec<u8>,
    Error,
>)
    ensures
        plain(plaintext) == decrypted(content@, secret_texts(identities@)),
{
    match classify(content) {
        Format::Armored => match unwrap(content) {
            Ok(container) => open_with_identities(container.as_slice(), identities),
            Err(e) => Err(e),
        },
        Format::Binary => open_with_identities(content, identities),
    }
}

/// Decrypts a container, binary or armored, with a passphrase. A damaged
/// envelope is refused before the passphrase is tried.
pub fn decrypt_content_with_passphrase(content: &[u8], passphrase: &str) -> (plaintext: Result<
    Vec<u8>,
    Error,
>)
    ensures
        passphrase_opening_told(plain(plaintext), content@, passphrase@),
{
    match classify(content) {
        Format::Armored => match unwrap(content) {
            Ok(container) => open_with_passphrase(container.as_slice(), passphrase),
            Err(e) => Err(e),
        },
        Format::Binary => open_with_passphrase(content, passphrase),
    }
}

/// Where `content` has the form of an encryption, decryption opens the
/// binary container that it holds.
pub proof fn lemma_decryption_opens_binary(content: Seq<u8>, armored: bool, secrets: Seq<Seq<u8>>)
    requires
        has_form(content, armored),
    ensures
        decrypted(content, secrets) == opening(binary_of(content), secrets),
        passphrase_content_verdict(content) == passphrase_verdict(binary_of(content)),
{
}

/// Whatever encryption for a set of recipients gives, binary or armored,
/// decrypts to the plaintext it was given, byte for byte, with every
/// list of keys in which a key of one of the recipients comes before
/// every key that does anything but pass: the keys before it unwrap no
/// file key of the container.
pub proof fn lemma_decryption_inverts_encryption(
    output: Seq<u8>,
    plaintext: Seq<u8>,
    recipients: Seq<Seq<u8>>,
    armored: bool,
    secrets: Seq<Seq<u8>>,
    at: int,
)
    requires
        is_encryption_of(output, plaintext, recipients, armored),
        0 <= at < secrets.len(),
        x25519_public_of(secrets[at]) is Some,
        recipients.contains(x25519_public_of(secrets[at])->0),
        forall|j: int|
            0 <= j < at ==> x25519_open(binary_of(output), #[trigger] secrets[j]) == Err::<
                Seq<u8>,
                Refusal,
            >(Refusal::NoMatchingKeys),
    ensures
        decrypted(output, secrets) == Ok::<Seq<u8>, Error>(plaintext),
{
    let container = binary_of(output);
    lemma_decryption_opens_binary(output, armored, secrets);
    assert(x25519_open(container, secrets[at]) == Ok::<Seq<u8>, Refusal>(plaintext));
    lemma_first_match_wins(container, secrets, at);
}

/// Whatever encryption for recipients gives decrypts with no passphrase:
/// the failure to decrypt is owed before the passphrase is put to work.
pub proof fn lemma_passphrase_fails_on_encryption_for_keys(
    output: Seq<u8>,
    plaintext: Seq<u8>,
    recipients: Seq<Seq<u8>>,
    armored: bool,
    passphrase: Seq<char>,
    opened: Result<Seq<u8>, Error>,
)
    requires
        is_encryption_of(output, plaintext, recipients, armored),
        passphrase_opening_told(opened, output, passphrase),
    ensures
        opened == Err::<Seq<u8>, Error>(Error::DecryptionFailure),
{
    lemma_decryption_opens_binary(output, armored, Seq::empty());
}

/// Whatever encryption under a passphrase gives, binary or armored,
/// decrypts with that passphrase to the plaintext it was given, byte for
/// byte, unless its work is refused on the machine that decrypts.
pub proof fn lemma_passphrase_decryption_inverts_encryption(
    output: Seq<u8>,
    plaintext: Seq<u8>,
    passphrase: Seq<char>,
    armored: bool,
    opened: Result<Seq<u8>, Error>,
)
    requires
        is_passphrase_encryption(output, plaintext, passphrase, armored),
        passphrase_opening_told(opened, output, passphrase),
    ensures
        opened == Ok::<Seq<u8>, Error>(plaintext) || opened == Err::<Seq<u8>, Error>(
            Error::DecryptionFailure,
        ),
{
    lemma_decryption_opens_binary(output, armored, Seq::empty());
}

/// Whatever encryption under a passphrase gives decrypts with no list of
/// secret keys.
pub proof fn lemma_keys_fail_on_passphrase_encryption(
    output: Seq<u8>,
    plaintext: Seq<u8>,
    passphrase: Seq<char>,
    armored: bool,
    secrets: Seq<Seq<u8>>,
)
    requires
        is_passphrase_encryption(output, plaintext, passphrase, armored),
        forall|j: int| 0 <= j < secrets.len() ==> x25519_public_of(#[trigger] secrets[j]) is Some,
    ensures
        decrypted(output, secrets) == Err::<Seq<u8>, Error>(Error::DecryptionFailure),
{
    lemma_decryption_opens_binary(output, armored, secrets);
    lemma_keys_do_not_open_passphrase_container(
        binary_of(output),
        plaintext,
        passphrase,
        secrets,
    );
}

/// Armored text without a footer line fails as malformed armor, with
/// every key and before any key is tried.
pub proof fn lemma_truncated_armor_is_refused(text: Seq<u8>, secrets: Seq<Seq<u8>>)
    requires
        is_armored(text),
        !has_footer_line(text),
    ensures
        decrypted(text, secrets) == Err::<Seq<u8>, Error>(Error::FormatError(Malformed::Armor)),
{
}

/// The armored and the binary form of one encryption decrypt alike.
pub proof fn lemma_envelope_decrypts_alike(
    text: Seq<u8>,
    container: Seq<u8>,
    secrets: Seq<Seq<u8>>,
)
    requires
        is_envelope_of(text, container),
        starts_with(container, CONTAINER_INTRO.spec_bytes()),
    ensures
        decrypted(text, secrets) == decrypted(container, secrets),
{
    lemma_container_is_binary(container);
}

} // verus!
