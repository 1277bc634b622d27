//! The operations as callers see them: encryption and decryption of bytes
//! and of strings, for recipients or under a passphrase.

use crate::cipher::{scrypt_open, told, x25519_open, Refusal};
use crate::engine::{
    binary_of, decrypt_content, decrypt_content_with_passphrase, decrypted,
    encrypt_to_recipients, encrypt_with_passphrase, is_encryption_of, is_passphrase_encryption,
    is_written_envelope, lemma_decryption_inverts_encryption, lemma_decryption_opens_binary,
    passphrase_content_verdict, passphrase_opening_told,
};
use crate::error::{plain, plain_chars, plain_text, Error, Malformed};
use crate::keyfile::{is_written_key_file, key_file_text, lemma_key_file_reads_back};
use crate::keys::{
    all_usable, canonical_texts, given_texts, identity_pair, is_refused_recipient,
    is_usable_recipient,
    key_file_keys, parse_identities, parse_recipients, string_bytes, x25519_public_of,
    x25519_recipient_of,
};
use crate::lines::LF;
use crate::transport::{
    container_of, container_of_text, container_text_is, text_of_container, text_of_plaintext,
};
use vstd::prelude::*;
use vstd::string::StringSliceAdditionalSpecFns;
use vstd::utf8::{encode_utf8, valid_utf8};

verus! {

/// The way in which a call is authenticated.
#[derive(Debug, Clone, Copy, PartialEq, Eq, Structural)]
pub enum Mode {
    /// Recipients to encrypt to, or a key file to decrypt with.
    Keys,
    /// A passphrase.
    Passphrase,
}

/// The canonical forms of recipient strings.
pub open spec fn recipient_forms(given: Seq<Seq<u8>>) -> Seq<Seq<u8>> {
    given.map_values(|text: Seq<u8>| x25519_recipient_of(text)->0)
}

/// The mode that the given ways of authentication select: exactly one of
/// them must be given.
pub open spec fn mode_of(keys_given: bool, passphrase_given: bool) -> Result<Mode, Error> {
    if keys_given && !passphrase_given {
        Ok(Mode::Keys)
    } else if passphrase_given && !keys_given {
        Ok(Mode::Passphrase)
    } else {
        Err(Error::InvalidArguments)
    }
}

/// What encryption for the recipients that `strings` name tells. An empty
/// list is an invalid argument. Where a string is not usable, the call
/// fails and names the string that `is_refused_recipient` says. Else the
/// plaintext is encrypted for all of them, in the asked form.
pub open spec fn key_encryption_told(
    encrypted: Result<Seq<u8>, Error>,
    plaintext: Seq<u8>,
    strings: Seq<String>,
    armor: bool,
) -> bool {
    let given = string_bytes(strings);
    if strings.len() == 0 {
        encrypted == Err::<Seq<u8>, Error>(Error::InvalidArguments)
    } else if !all_usable(given) {
        exists|at: int| #[trigger]
            is_refused_recipient(given, at) && encrypted == Err::<Seq<u8>, Error>(
                Error::FormatError(Malformed::Recipient(strings[at])),
            )
    } else {
        encrypted matches Ok(output) && is_encryption_of(
            output,
            plaintext,
            recipient_forms(given),
            armor,
        )
    }
}

/// The container that the string `text` carries.
pub open spec fn carried(text: Seq<char>) -> Seq<u8> {
    container_of(text)->Ok_0
}

/// `text` is the string of a container: armored text as it stands, else
/// the standard base64 of a binary container.
pub open spec fn is_container_string(text: Seq<char>) -> bool {
    container_of(text) is Ok && container_text_is(carried(text), text)
}

/// What encryption of a string for the recipients that `strings` name
/// tells: what `key_encryption_told` says of the container, which comes
/// as a string.
pub open spec fn string_encryption_told(
    encrypted: Result<Seq<char>, Error>,
    plaintext: Seq<u8>,
    strings: Seq<String>,
    armor: bool,
) -> bool {
    match encrypted {
        Ok(text) => is_container_string(text) && key_encryption_told(
            Ok::<Seq<u8>, Error>(carried(text)),
            plaintext,
            strings,
            armor,
        ),
        Err(e) => key_encryption_told(Err::<Seq<u8>, Error>(e), plaintext, strings, armor),
    }
}

/// What `decrypt_bytes_with_key` yields: the key file is read first, and a
/// failure there is final.
pub open spec fn decrypted_with_key_file(content: Seq<u8>, key_file: Seq<u8>) -> Result<
    Seq<u8>,
    Error,
> {
    match key_file_keys(key_file) {
        Ok(secrets) => decrypted(content, secrets),
        Err(reason) => Err(reason),
    }
}

/// A decrypted plaintext as the bytes of a string: it must be text.
pub open spec fn as_text(plaintext: Result<Seq<u8>, Error>) -> Result<Seq<u8>, Error> {
    match plaintext {
        Ok(bytes) => if valid_utf8(bytes) {
            Ok(bytes)
        } else {
            Err(Error::EncodingFailure)
        },
        Err(reason) => Err(reason),
    }
}

/// What `decrypt_string_with_key` yields, as the bytes of the string: the
/// encrypted string is decoded first, then the key file is read, then
/// the container is decrypted, and at last the plaintext must be text.
pub open spec fn string_decrypted(encrypted: Seq<char>, key_file: Seq<u8>) -> Result<
    Seq<u8>,
    Error,
> {
    match container_of(encrypted) {
        Err(reason) => Err(reason),
        Ok(content) => as_text(decrypted_with_key_file(content, key_file)),
    }
}

/// What decryption of a string with a passphrase may tell, as the bytes
/// of the string. A string that carries no container fails as such, and
/// a container fails with the error that it owes before the passphrase
/// is put to work. Else it is a failure to decrypt, as where the work
/// is refused, or what is told of the outcome of the passphrase on the
/// binary container, of which a plaintext must be text.
pub open spec fn passphrase_string_told(
    plaintext: Result<Seq<u8>, Error>,
    encrypted: Seq<char>,
    passphrase: Seq<char>,
) -> bool {
    match container_of(encrypted) {
        Err(reason) => plaintext == Err::<Seq<u8>, Error>(reason),
        Ok(content) => match passphrase_content_verdict(content) {
            Some(owed) => plaintext == Err::<Seq<u8>, Error>(owed),
            None => plaintext == Err::<Seq<u8>, Error>(Error::DecryptionFailure) || plaintext
                == as_text(told(scrypt_open(binary_of(content), passphrase))),
        },
    }
}

/// Exactly one way of authentication must be given.
pub fn select_mode(keys_given: bool, passphrase_given: bool) -> (mode: Result<Mode, Error>)
    ensures
        mode == mode_of(keys_given, passphrase_given),
{
    if keys_given && !passphrase_given {
        Ok(Mode::Keys)
    } else if passphrase_given && !keys_given {
        Ok(Mode::Passphrase)
    } else {
        Err(Error::InvalidArguments)
    }
}

/// Encrypts `plaintext` for the recipients that the strings name. The
/// strings are read first: an empty list, a string that encodes no
/// public key, and a key that cannot be encrypted to are refused before
/// anything is encrypted.
pub fn encrypt_bytes_with_key(plaintext: &[u8], recipients: &Vec<String>, armor: bool) -> (encrypted:
    Result<Vec<u8>, Error>)
    ensures
        key_encryption_told(plain(encrypted), plaintext@, recipients@, armor),
{
    let ghost given = string_bytes(recipients@);
    match parse_recipients(recipients) {
        Err(e) => {
            proof {
                if recipients@.len() > 0 {
                    let at = choose|at: int| #[trigger]
                        is_refused_recipient(given, at) && e == Error::FormatError(
                            Malformed::Recipient(recipients@[at]),
                        );
                    assert(!is_usable_recipient(given[at]));
                }
            }
            Err(e)
        },
        Ok(set) => {
            proof {
                assert forall|i: int| 0 <= i < set@.len() implies canonical_texts(set@)[i]
                    == recipient_forms(given)[i] && is_usable_recipient(#[trigger] given[i]) by {
                    assert(given_texts(set@)[i] == set@[i].given_text());
                }
                assert(canonical_texts(set@) =~= recipient_forms(given));
            }
            encrypt_to_recipients(plaintext, &set, armor)
        },
    }
}

/// Decrypts a container, binary or armored, with the keys of a key file.
pub fn decrypt_bytes_with_key(content: &[u8], key_file_text: &str) -> (plaintext: Result<
    Vec<u8>,
    Error,
>)
    ensures
        plain(plaintext) == decrypted_with_key_file(content@, key_file_text.spec_bytes()),
{
    match parse_identities(key_file_text) {
        Err(e) => Err(e),
        Ok(keys) => decrypt_content(content, &keys),
    }
}

/// Encrypts a string for recipients and gives the container as a string:
/// armored text as it is, a binary container in base64.
pub fn encrypt_string_with_key(input: &str, recipients: &Vec<String>, armor: bool) -> (encrypted:
    Result<String, Error>)
    ensures
        string_encryption_told(plain_chars(encrypted), input.spec_bytes(), recipients@, armor),
{
    match encrypt_bytes_with_key(input.as_bytes(), recipients, armor) {
        Err(e) => Err(e),
        Ok(output) => text_of_container(output),
    }
}

/// Encrypts a string under a passphrase and gives the binary container in
/// base64.
pub fn encrypt_string_with_passphrase(input: &str, passphrase: &str) -> (encrypted: Result<
    String,
    Error,
>)
    ensures
        encrypted matches Ok(text) && is_container_string(text@) && is_passphrase_encryption(
            carried(text@),
            input.spec_bytes(),
            passphrase@,
            false,
        ),
{
    match encrypt_with_passphrase(input.as_bytes(), passphrase, false) {
        Err(e) => Err(e),
        Ok(output) => text_of_container(output),
    }
}

/// Decrypts a string, armored text or base64, with the keys of a key file,
/// and gives the plaintext as a string.
pub fn decrypt_string_with_key(encrypted: &str, key_file_text: &str) -> (plaintext: Result<
    String,
    Error,
>)
    ensures
        plain_text(plaintext) == string_decrypted(encrypted@, key_file_text.spec_bytes()),
{
    match container_of_text(encrypted) {
        Err(e) => Err(e),
        Ok(content) => match decrypt_bytes_with_key(content.as_slice(), key_file_text) {
            Err(e) => Err(e),
            Ok(bytes) => text_of_plaintext(bytes),
        },
    }
}

/// Decrypts a string, armored text or base64, with a passphrase, and gives
/// the plaintext as a string. Text that is neither is refused before the
/// passphrase is tried.
pub fn decrypt_string_with_passphrase(encrypted: &str, passphrase: &str) -> (plaintext: Result<
    String,
    Error,
>)
    ensures
        passphrase_string_told(plain_text(plaintext), encrypted@, passphrase@),
{
    match container_of_text(encrypted) {
        Err(e) => Err(e),
        Ok(content) => match decrypt_content_with_passphrase(content.as_slice(), passphrase) {
            Err(e) => Err(e),
            Ok(bytes) => text_of_plaintext(bytes),
        },
    }
}

/// Encrypts with the one way of authentication that is given: recipient
/// strings or a passphrase. Both or neither is refused.
pub fn encrypt(
    plaintext: &[u8],
    recipients: Option<&Vec<String>>,
    passphrase: Option<&str>,
    armored: bool,
) -> (encrypted: Result<Vec<u8>, Error>)
    ensures
        match mode_of(recipients is Some, passphrase is Some) {
            Ok(Mode::Keys) => key_encryption_told(
                plain(encrypted),
                plaintext@,
                recipients->0@,
                armored,
            ),
            Ok(Mode::Passphrase) => plain(encrypted) matches Ok(output)
                && is_passphrase_encryption(output, plaintext@, passphrase->0@, armored),
            Err(reason) => plain(encrypted) == Err::<Seq<u8>, Error>(reason),
        },
{
    match select_mode(recipients.is_some(), passphrase.is_some()) {
        Err(e) => Err(e),
        Ok(Mode::Keys) => encrypt_bytes_with_key(plaintext, recipients.unwrap(), armored),
        Ok(Mode::Passphrase) => encrypt_with_passphrase(plaintext, passphrase.unwrap(), armored),
    }
}

/// Decrypts with the one way of authentication that is given: the text of
/// a key file or a passphrase. Both or neither is refused.
pub fn decrypt(content: &[u8], key_file_text: Option<&str>, passphrase: Option<&str>) -> (plaintext:
    Result<Vec<u8>, Error>)
    ensures
        match mode_of(key_file_text is Some, passphrase is Some) {
            Ok(Mode::Keys) => plain(plaintext) == decrypted_with_key_file(
                content@,
                key_file_text->0.spec_bytes(),
            ),
            Ok(Mode::Passphrase) => passphrase_opening_told(
                plain(plaintext),
                content@,
                passphrase->0@,
            ),
            Err(reason) => plain(plaintext) == Err::<Seq<u8>, Error>(reason),
        },
{
    match select_mode(key_file_text.is_some(), passphrase.is_some()) {
        Err(e) => Err(e),
        Ok(Mode::Keys) => decrypt_bytes_with_key(content, key_file_text.unwrap()),
        Ok(Mode::Passphrase) => decrypt_content_with_passphrase(content, passphrase.unwrap()),
    }
}

/// What was encrypted for recipient strings, armored or not, decrypts to
/// the plaintext it was, byte for byte, with every key file in which a
/// key of one of the recipients comes before every key that does
/// anything but pass. The key at index `at` of the key file is that of
/// the recipient string at index `to`, and the keys before it unwrap no
/// file key of the container.
pub proof fn lemma_round_trip_with_key_file(
    output: Seq<u8>,
    plaintext: Seq<u8>,
    strings: Seq<String>,
    armor: bool,
    key_file: Seq<u8>,
    secrets: Seq<Seq<u8>>,
    at: int,
    to: int,
)
    requires
        key_encryption_told(Ok::<Seq<u8>, Error>(output), plaintext, strings, armor),
        key_file_keys(key_file) == Ok::<Seq<Seq<u8>>, Error>(secrets),
        0 <= at < secrets.len(),
        0 <= to < strings.len(),
        x25519_public_of(secrets[at]) is Some,
        x25519_public_of(secrets[at]) == x25519_recipient_of(string_bytes(strings)[to]),
        forall|j: int|
            0 <= j < at ==> x25519_open(binary_of(output), #[trigger] secrets[j]) == Err::<
                Seq<u8>,
                Refusal,
            >(Refusal::NoMatchingKeys),
    ensures
        decrypted_with_key_file(output, key_file) == Ok::<Seq<u8>, Error>(plaintext),
{
    let given = string_bytes(strings);
    let forms = recipient_forms(given);
    assert(forms[to] == x25519_public_of(secrets[at])->0);
    lemma_decryption_inverts_encryption(output, plaintext, forms, armor, secrets, at);
}

/// A string that was encrypted for recipient strings, armored or in
/// base64, decrypts to the string it was with every such key file.
pub proof fn lemma_string_round_trip(
    text: Seq<char>,
    plaintext: Seq<char>,
    strings: Seq<String>,
    armor: bool,
    key_file: Seq<u8>,
    secrets: Seq<Seq<u8>>,
    at: int,
    to: int,
)
    requires
        string_encryption_told(
            Ok::<Seq<char>, Error>(text),
            encode_utf8(plaintext),
            strings,
            armor,
        ),
        key_file_keys(key_file) == Ok::<Seq<Seq<u8>>, Error>(secrets),
        0 <= at < secrets.len(),
        0 <= to < strings.len(),
        x25519_public_of(secrets[at]) is Some,
        x25519_public_of(secrets[at]) == x25519_recipient_of(string_bytes(strings)[to]),
        forall|j: int|
            0 <= j < at ==> x25519_open(binary_of(carried(text)), #[trigger] secrets[j]) == Err::<
                Seq<u8>,
                Refusal,
            >(Refusal::NoMatchingKeys),
    ensures
        string_decrypted(text, key_file) == Ok::<Seq<u8>, Error>(encode_utf8(plaintext)),
{
    lemma_round_trip_with_key_file(
        carried(text),
        encode_utf8(plaintext),
        strings,
        armor,
        key_file,
        secrets,
        at,
        to,
    );
    vstd::utf8::encode_utf8_valid_utf8(plaintext);
}

/// The recipient string of a key is one that encryption accepts, and what
/// is encrypted for it decrypts with the key file of that key. So a new
/// key file, a string encrypted for its recipient string, and
/// decryption with the key file chain: the encryption succeeds, an
/// armored one is a written envelope, and decryption gives the string
/// back.
pub proof fn lemma_key_file_opens_what_its_recipient_gets(
    key_file: Seq<u8>,
    recipient: Seq<u8>,
    strings: Seq<String>,
    plaintext: Seq<char>,
    armor: bool,
    encrypted: Result<Seq<char>, Error>,
)
    requires
        is_written_key_file(key_file, recipient),
        string_bytes(strings) == seq![recipient],
        string_encryption_told(encrypted, encode_utf8(plaintext), strings, armor),
    ensures
        encrypted matches Ok(text) && string_decrypted(text, key_file) == Ok::<Seq<u8>, Error>(
            encode_utf8(plaintext),
        ) && (armor ==> is_written_envelope(encode_utf8(text))),
{
    let (created, secret) = choose|created: Seq<u8>, secret: Seq<u8>| #[trigger]
        key_file_text(created, recipient, secret) == key_file && !created.contains(LF)
            && identity_pair(secret, recipient);
    let given = string_bytes(strings);
    assert(strings.len() == 1) by {
        assert(given.len() == strings.len());
    }
    assert(given[0] == recipient);
    assert(all_usable(given));
    lemma_key_file_reads_back(created, recipient, secret);
    let secrets = seq![secret];
    assert(secrets[0] == secret);
    match encrypted {
        Ok(text) => {
            lemma_string_round_trip(text, plaintext, strings, armor, key_file, secrets, 0, 0);
        },
        Err(e) => {
            assert(false);
        },
    }
}

/// A string that was encrypted for recipients decrypts with no
/// passphrase: the failure to decrypt is owed before the passphrase is
/// put to work.
pub proof fn lemma_passphrase_fails_on_string_for_keys(
    text: Seq<char>,
    plaintext: Seq<u8>,
    strings: Seq<String>,
    armor: bool,
    passphrase: Seq<char>,
    opened: Result<Seq<u8>, Error>,
)
    requires
        string_encryption_told(Ok::<Seq<char>, Error>(text), plaintext, strings, armor),
        passphrase_string_told(opened, text, passphrase),
    ensures
        opened == Err::<Seq<u8>, Error>(Error::DecryptionFailure),
{
    lemma_decryption_opens_binary(carried(text), armor, Seq::empty());
}

/// A string that was encrypted under a passphrase decrypts with that
/// passphrase to the string it was, unless its work is refused on the
/// machine that decrypts.
pub proof fn lemma_passphrase_string_round_trip(
    text: Seq<char>,
    plaintext: Seq<char>,
    passphrase: Seq<char>,
    opened: Result<Seq<u8>, Error>,
)
    requires
        is_container_string(text),
        is_passphrase_encryption(carried(text), encode_utf8(plaintext), passphrase, false),
        passphrase_string_told(opened, text, passphrase),
    ensures
        opened == Ok::<Seq<u8>, Error>(encode_utf8(plaintext)) || opened == Err::<
            Seq<u8>,
            Error,
        >(Error::DecryptionFailure),
{
    lemma_decryption_opens_binary(carried(text), false, Seq::empty());
    vstd::utf8::encode_utf8_valid_utf8(plaintext);
}

} // verus!
