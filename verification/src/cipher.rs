//! Sealing a plaintext into a binary container and opening it again.
//!
//! The cryptography is that of the `age` crate: a random file key, wrapped
//! once for each recipient, and a payload that is authenticated chunk by
//! chunk. This module decides in which order secret keys are tried, when
//! the trial stops, and which failure the caller is told.

use crate::error::{plain, Error, Malformed};
use crate::format::{is_armored, lemma_armor_header_bytes, starts_with, ARMOR_HEADER};
use crate::keys::{
    are_recipients, canonical_texts, secret_texts, x25519_public_of, IdentityKey, RecipientKey,
    RecipientSet,
};
use vstd::prelude::*;
use vstd::string::StringSliceAdditionalSpecFns;

verus! {

/// The line with which every binary container begins.
pub const CONTAINER_INTRO: &'static str = "age-encryption.org/v1\n";

/// `std::io::Error`, of which nothing is read here.
#[verifier::external_type_specification]
#[verifier::external_body]
pub struct ExIoError(std::io::Error);

/// `age::DecryptError`, with its variants as the crate declares them.
#[verifier::external_type_specification]
pub struct ExDecryptError(age::DecryptError);

/// `age::EncryptError`, with its variants as the crate declares them.
#[verifier::external_type_specification]
pub struct ExEncryptError(age::EncryptError);

/// Why an attempt to open a container gave no plaintext.
#[derive(Debug, Clone, Copy, PartialEq, Eq, Structural)]
pub enum Refusal {
    /// A wrapped file key was not authentic.
    DecryptionFailed,
    /// The passphrase would take more work than is accepted.
    ExcessiveWork,
    /// The header does not parse.
    InvalidHeader,
    /// The integrity tag of the header is wrong.
    InvalidMac,
    /// The container ends before its header does.
    Io,
    /// An encrypted key did not decrypt.
    KeyDecryptionFailed,
    /// The credential unwraps none of the wrapped file keys.
    NoMatchingKeys,
    /// The container is of a version that is not known.
    UnknownFormat,
    /// A file key was recovered, and the payload is not authentic under it.
    Payload,
}

/// How an attempt to open a container ended without plaintext.
pub enum Stop {
    /// No file key was recovered.
    Refused(age::DecryptError),
    /// A file key was recovered, and reading the payload failed.
    Corrupt,
}

/// What opening the binary container `container` with the one secret
/// key that `secret` encodes yields.
pub uninterp spec fn x25519_open(container: Seq<u8>, secret: Seq<u8>) -> Result<Seq<u8>, Refusal>;

/// What opening the binary container `container` with the passphrase
/// `passphrase` yields where the work that the container asks for is
/// accepted.
pub uninterp spec fn scrypt_open(container: Seq<u8>, passphrase: Seq<char>) -> Result<
    Seq<u8>,
    Refusal,
>;

/// What the header of the binary container `container` says before any
/// credential is tried: the refusal of a container that does not parse,
/// or whether the container is sealed under a passphrase (`true`) or for
/// keys (`false`).
pub uninterp spec fn container_header(container: Seq<u8>) -> Result<bool, Refusal>;

/// The refusal that a stop stands for: the variant of the error by which
/// `age` refused, or a payload that did not read.
pub open spec fn refusal_of(stop: Stop) -> Refusal {
    match stop {
        Stop::Refused(age::DecryptError::DecryptionFailed) => Refusal::DecryptionFailed,
        Stop::Refused(age::DecryptError::ExcessiveWork { .. }) => Refusal::ExcessiveWork,
        Stop::Refused(age::DecryptError::InvalidHeader) => Refusal::InvalidHeader,
        Stop::Refused(age::DecryptError::InvalidMac) => Refusal::InvalidMac,
        Stop::Refused(age::DecryptError::Io(_)) => Refusal::Io,
        Stop::Refused(age::DecryptError::KeyDecryptionFailed) => Refusal::KeyDecryptionFailed,
        Stop::Refused(age::DecryptError::NoMatchingKeys) => Refusal::NoMatchingKeys,
        Stop::Refused(age::DecryptError::UnknownFormat) => Refusal::UnknownFormat,
        Stop::Corrupt => Refusal::Payload,
    }
}

/// An attempt as plain values.
pub open spec fn outcome_of(attempt: Result<Vec<u8>, Stop>) -> Result<Seq<u8>, Refusal> {
    match attempt {
        Ok(plaintext) => Ok(plaintext@),
        Err(stop) => Err(refusal_of(stop)),
    }
}

/// What a reading of the header says, as plain values.
pub open spec fn header_of(read: Result<bool, age::DecryptError>) -> Result<bool, Refusal> {
    match read {
        Ok(for_passphrase) => Ok(for_passphrase),
        Err(refused) => Err(refusal_of(Stop::Refused(refused))),
    }
}

/// A container that does not parse is a format error; every other refusal
/// is a failure to decrypt.
pub open spec fn refusal_error(refusal: Refusal) -> Error {
    match refusal {
        Refusal::InvalidHeader | Refusal::UnknownFormat | Refusal::Io => Error::FormatError(
            Malformed::Container,
        ),
        _ => Error::DecryptionFailure,
    }
}

/// The secret keys are tried in their order. A key that unwraps no file key
/// is passed over; the first that does anything else decides, be it
/// plaintext or a refusal, and no later key is tried.
pub open spec fn trial(container: Seq<u8>, secrets: Seq<Seq<u8>>) -> Result<Seq<u8>, Refusal>
    decreases secrets.len(),
{
    if secrets.len() == 0 {
        Err(Refusal::NoMatchingKeys)
    } else {
        match x25519_open(container, secrets[0]) {
            Err(Refusal::NoMatchingKeys) => trial(container, secrets.drop_first()),
            decided => decided,
        }
    }
}

/// What the caller is told of an outcome: its plaintext, or the error for
/// its refusal.
pub open spec fn told(outcome: Result<Seq<u8>, Refusal>) -> Result<Seq<u8>, Error> {
    match outcome {
        Ok(plaintext) => Ok(plaintext),
        Err(refusal) => Err(refusal_error(refusal)),
    }
}

/// What `open_with_identities` yields. The header is read before any key
/// is looked at: a container that does not parse is refused for that,
/// whatever the keys. Then the keys are tried.
pub open spec fn opening(container: Seq<u8>, secrets: Seq<Seq<u8>>) -> Result<Seq<u8>, Error> {
    match container_header(container) {
        Err(refusal) => Err(refusal_error(refusal)),
        Ok(_) => told(trial(container, secrets)),
    }
}

/// Every secret key whose recipient string is among `recipients` opens
/// `container` to `plaintext`.
pub open spec fn opens_for(
    container: Seq<u8>,
    plaintext: Seq<u8>,
    recipients: Seq<Seq<u8>>,
) -> bool {
    forall|secret: Seq<u8>|
        x25519_public_of(secret) is Some && recipients.contains(x25519_public_of(secret)->0)
            ==> #[trigger] x25519_open(container, secret) == Ok::<Seq<u8>, Refusal>(plaintext)
}

/// No secret key unwraps a file key of `container`.
pub open spec fn opens_for_no_key(container: Seq<u8>) -> bool {
    forall|secret: Seq<u8>|
        x25519_public_of(secret) is Some ==> #[trigger] x25519_open(container, secret) == Err::<
            Seq<u8>,
            Refusal,
        >(Refusal::NoMatchingKeys)
}

/// `container` is a binary container that holds `plaintext` for
/// `recipients`: it begins with the intro line, its header parses and is
/// one for keys, and the key of each recipient opens it.
pub open spec fn is_sealed_for(
    container: Seq<u8>,
    plaintext: Seq<u8>,
    recipients: Seq<Seq<u8>>,
) -> bool {
    &&& starts_with(container, CONTAINER_INTRO.spec_bytes())
    &&& container_header(container) == Ok::<bool, Refusal>(false)
    &&& opens_for(container, plaintext, recipients)
}

/// `container` is a binary container that holds `plaintext` under
/// `passphrase`: it begins with the intro line, its header parses and is
/// one for a passphrase, the passphrase opens it to the plaintext where
/// its work is accepted, and no secret key unwraps its file key.
pub open spec fn is_sealed_under_passphrase(
    container: Seq<u8>,
    plaintext: Seq<u8>,
    passphrase: Seq<char>,
) -> bool {
    &&& starts_with(container, CONTAINER_INTRO.spec_bytes())
    &&& container_header(container) == Ok::<bool, Refusal>(true)
    &&& scrypt_open(container, passphrase) == Ok::<Seq<u8>, Refusal>(plaintext)
    &&& opens_for_no_key(container)
}

/// Opens `container` with one secret key: `age::Decryptor::new`, `decrypt`
/// with the one `age::x25519::Identity` that `secret` encodes, and
/// `read_to_end` on the reader it gives. The secret must be one that
/// parses. The contract names the outcome.
#[verifier::external_body]
fn x25519_attempt(container: &[u8], secret: &[u8]) -> (attempt: Result<Vec<u8>, Stop>)
    requires
        x25519_public_of(secret@) is Some,
    ensures
        outcome_of(attempt) == x25519_open(container@, secret@),
{
    let text = std::str::from_utf8(secret).expect("a key line is text");
    let identity: age::x25519::Identity = text.parse().expect("a key line holds a key");
    let keys = std::iter::once(&identity as &dyn age::Identity);
    match age::Decryptor::new(container).and_then(|decryptor| decryptor.decrypt(keys)) {
        Err(refused) => Err(Stop::Refused(refused)),
        Ok(mut reader) => {
            let mut plaintext = Vec::new();
            match std::io::Read::read_to_end(&mut reader, &mut plaintext) {
                Ok(_) => Ok(plaintext),
                Err(_) => Err(Stop::Corrupt),
            }
        },
    }
}

/// Reads the header of `container` with `age::Decryptor::new` and, where
/// that accepts it, asks `is_scrypt` of the decryptor. The contract names
/// the outcome.
#[verifier::external_body]
fn read_header(container: &[u8]) -> (read: Result<bool, age::DecryptError>)
    ensures
        header_of(read) == container_header(container@),
{
    age::Decryptor::new(container).map(|decryptor| decryptor.is_scrypt())
}

/// Opens `container` with a passphrase: `age::Decryptor::new`, `decrypt`
/// with an `age::scrypt::Identity` made of the passphrase, and
/// `read_to_end`. How much work that identity accepts is measured on the
/// machine at the call, and nothing else in the attempt depends on the
/// machine. So the contract leaves open whether the work is refused as
/// excessive, and names the outcome where it is not.
#[verifier::external_body]
fn scrypt_attempt(container: &[u8], passphrase: &str) -> (attempt: Result<Vec<u8>, Stop>)
    ensures
        outcome_of(attempt) == Err::<Seq<u8>, Refusal>(Refusal::ExcessiveWork) || outcome_of(
            attempt,
        ) == scrypt_open(container@, passphrase@),
{
    let secret = age::secrecy::SecretString::from(passphrase.to_owned());
    let identity = age::scrypt::Identity::new(secret);
    let keys = std::iter::once(&identity as &dyn age::Identity);
    match age::Decryptor::new(container).and_then(|decryptor| decryptor.decrypt(keys)) {
        Err(refused) => Err(Stop::Refused(refused)),
        Ok(mut reader) => {
            let mut plaintext = Vec::new();
            match std::io::Read::read_to_end(&mut reader, &mut plaintext) {
                Ok(_) => Ok(plaintext),
                Err(_) => Err(Stop::Corrupt),
            }
        },
    }
}

/// Seals `plaintext` for the recipients: `age::Encryptor::with_recipients`
/// on their `age::x25519::Recipient`s, `wrap_output` into a vector,
/// `write_all`, `finish`. There must be a recipient, and every recipient
/// must parse and must not be a point of small order, for which `age`
/// panics. For such recipients and a vector to write to, `age` reports
/// no error. The file key and the ephemeral keys are random, so the
/// contract says what holds of every container that comes back: it
/// begins with the intro line, its header parses and holds no stanza
/// for a passphrase, and, as `age` documents of its recipient type, the
/// identity of each recipient decrypts it to the plaintext.
#[verifier::external_body]
fn x25519_seal(plaintext: &[u8], recipients: &Vec<RecipientKey>) -> (sealed: Result<
    Vec<u8>,
    age::EncryptError,
>)
    requires
        are_recipients(recipients@),
    ensures
        sealed is Ok,
        sealed matches Ok(container) ==> is_sealed_for(
            container@,
            plaintext@,
            canonical_texts(recipients@),
        ),
{
    let parse = |key: &RecipientKey| std::str::from_utf8(key.given()).ok()?.parse().ok();
    let parsed: Option<Vec<age::x25519::Recipient>> = recipients.iter().map(parse).collect();
    let keys = parsed.expect("a recipient key holds a string that parses");
    let targets = keys.iter().map(|key| key as &dyn age::Recipient);
    let mut container = Vec::new();
    let mut writer = age::Encryptor::with_recipients(targets)?.wrap_output(&mut container)?;
    std::io::Write::write_all(&mut writer, plaintext)?;
    writer.finish()?;
    Ok(container)
}

/// Seals `plaintext` under a passphrase: `age::Encryptor::with_user_passphrase`,
/// `wrap_output` into a vector, `write_all`, `finish`. With a vector to
/// write to, `age` reports no error. The salt, the file key and the work
/// factor vary, so the contract says what holds of every container that
/// comes back: it begins with the intro line; its header parses and
/// holds the one stanza for a passphrase, so no secret key unwraps its
/// file key; and, as `age` documents of its passphrase recipient, the
/// passphrase decrypts it to the plaintext where its work is accepted.
#[verifier::external_body]
fn scrypt_seal(plaintext: &[u8], passphrase: &str) -> (sealed: Result<Vec<u8>, age::EncryptError>)
    ensures
        sealed is Ok,
        sealed matches Ok(container) ==> is_sealed_under_passphrase(
            container@,
            plaintext@,
            passphrase@,
        ),
{
    let secret = age::secrecy::SecretString::from(passphrase.to_owned());
    let mut container = Vec::new();
    let mut writer = age::Encryptor::with_user_passphrase(secret).wrap_output(&mut container)?;
    std::io::Write::write_all(&mut writer, plaintext)?;
    writer.finish()?;
    Ok(container)
}

/// The refusal that a stop stands for.
pub fn classify_stop(stop: &Stop) -> (refusal: Refusal)
    ensures
        refusal == refusal_of(*stop),
{
    match stop {
        Stop::Refused(age::DecryptError::DecryptionFailed) => Refusal::DecryptionFailed,
        Stop::Refused(age::DecryptError::ExcessiveWork { .. }) => Refusal::ExcessiveWork,
        Stop::Refused(age::DecryptError::InvalidHeader) => Refusal::InvalidHeader,
        Stop::Refused(age::DecryptError::InvalidMac) => Refusal::InvalidMac,
        Stop::Refused(age::DecryptError::Io(_)) => Refusal::Io,
        Stop::Refused(age::DecryptError::KeyDecryptionFailed) => Refusal::KeyDecryptionFailed,
        Stop::Refused(age::DecryptError::NoMatchingKeys) => Refusal::NoMatchingKeys,
        Stop::Refused(age::DecryptError::UnknownFormat) => Refusal::UnknownFormat,
        Stop::Corrupt => Refusal::Payload,
    }
}

/// The error that the caller is told for a refusal.
pub fn error_of_refusal(refusal: Refusal) -> (error: Error)
    ensures
        error == refusal_error(refusal),
{
    match refusal {
        Refusal::InvalidHeader => Error::FormatError(Malformed::Container),
        Refusal::UnknownFormat => Error::FormatError(Malformed::Container),
        Refusal::Io => Error::FormatError(Malformed::Container),
        _ => Error::DecryptionFailure,
    }
}

/// What the caller is told of one attempt: its plaintext, or the error
/// for its refusal.
pub fn attempt_result(attempt: Result<Vec<u8>, Stop>) -> (result: Result<Vec<u8>, Error>)
    ensures
        plain(result) == told(outcome_of(attempt)),
{
    match attempt {
        Ok(plaintext) => Ok(plaintext),
        Err(stop) => Err(error_of_refusal(classify_stop(&stop))),
    }
}

/// The error that the caller is told when sealing fails: a failed write
/// is an I/O failure, and a set of recipients that cannot stand together,
/// or none at all, is an invalid argument.
pub open spec fn seal_error(failure: age::EncryptError) -> Error {
    match failure {
        age::EncryptError::Io(_) => Error::IOFailure,
        age::EncryptError::EncryptedIdentities(_) => Error::DecryptionFailure,
        _ => Error::InvalidArguments,
    }
}

/// The error that the caller is told for a failure to seal.
pub fn error_of_seal(failure: &age::EncryptError) -> (error: Error)
    ensures
        error == seal_error(*failure),
{
    match failure {
        age::EncryptError::Io(_) => Error::IOFailure,
        age::EncryptError::EncryptedIdentities(_) => Error::DecryptionFailure,
        _ => Error::InvalidArguments,
    }
}

/// What the caller is told of one sealing: the container, or the error
/// for its failure.
pub fn seal_result(sealed: Result<Vec<u8>, age::EncryptError>) -> (result: Result<
    Vec<u8>,
    Error,
>)
    ensures
        plain(result) == (match sealed {
            Ok(container) => Ok(container@),
            Err(failure) => Err(seal_error(failure)),
        }),
{
    match sealed {
        Ok(container) => Ok(container),
        Err(failure) => Err(error_of_seal(&failure)),
    }
}

/// Opens a binary container with the secret keys of a key file. The header
/// is read first, and a container that does not parse is refused for
/// that. Then the keys are tried in their order.
pub fn open_with_identities(container: &[u8], identities: &Vec<IdentityKey>) -> (opened: Result<
    Vec<u8>,
    Error,
>)
    ensures
        plain(opened) == opening(container@, secret_texts(identities@)),
{
    match read_header(container) {
        Err(refused) => {
            return Err(error_of_refusal(classify_stop(&Stop::Refused(refused))));
        },
        Ok(_) => {},
    }
    let ghost secrets = secret_texts(identities@);
    let mut i: usize = 0;
    assert(secrets.skip(0) =~= secrets);
    while i < identities.len()
        invariant
            i <= identities.len(),
            container_header(container@) is Ok,
            secrets == secret_texts(identities@),
            trial(container@, secrets) == trial(container@, secrets.skip(i as int)),
        decreases identities.len() - i,
    {
        proof {
            assert(secrets.skip(i as int)[0] == identities@[i as int].secret_text());
            assert(secrets.skip(i as int).drop_first() =~= secrets.skip(i + 1));
        }
        match x25519_attempt(container, identities[i].secret()) {
            Ok(plaintext) => {
                return Ok(plaintext);
            },
            Err(stop) => {
                let refusal = classify_stop(&stop);
                match refusal {
                    Refusal::NoMatchingKeys => {},
                    _ => {
                        return Err(error_of_refusal(refusal));
                    },
                }
            },
        }
        i += 1;
    }
    Err(Error::DecryptionFailure)
}

/// The error that is owed before a passphrase is put to work: that of a
/// container that does not parse, or the failure to decrypt a container
/// that is sealed for keys. `None` where the container is sealed under a
/// passphrase, and the cryptography decides.
pub open spec fn passphrase_verdict(container: Seq<u8>) -> Option<Error> {
    match container_header(container) {
        Err(refusal) => Some(refusal_error(refusal)),
        Ok(false) => Some(Error::DecryptionFailure),
        Ok(true) => None,
    }
}

/// What opening with a passphrase may tell: the error that the header
/// owes; or else a failure to decrypt, as where the work is refused, or
/// what is told of the outcome that `scrypt_open` names.
pub open spec fn passphrase_opening(
    opened: Result<Seq<u8>, Error>,
    container: Seq<u8>,
    passphrase: Seq<char>,
) -> bool {
    match passphrase_verdict(container) {
        Some(owed) => opened == Err::<Seq<u8>, Error>(owed),
        None => opened == Err::<Seq<u8>, Error>(Error::DecryptionFailure) || opened == told(
            scrypt_open(container, passphrase),
        ),
    }
}

/// Opens a binary container with a passphrase. The header is read first:
/// a container that does not parse, or that is sealed for keys, fails
/// before the passphrase is put to work. How much work the passphrase
/// may take is measured on the machine, and work beyond that is refused
/// as a failure to decrypt; else the outcome is that of the passphrase
/// on the container.
pub fn open_with_passphrase(container: &[u8], passphrase: &str) -> (opened: Result<
    Vec<u8>,
    Error,
>)
    ensures
        passphrase_opening(plain(opened), container@, passphrase@),
{
    match read_header(container) {
        Err(refused) => Err(error_of_refusal(classify_stop(&Stop::Refused(refused)))),
        Ok(false) => Err(Error::DecryptionFailure),
        Ok(true) => attempt_result(scrypt_attempt(container, passphrase)),
    }
}

/// Seals `plaintext` into a binary container that each of the recipients
/// can open. With recipients to seal for, sealing always gives a
/// container.
pub fn seal_for_recipients(plaintext: &[u8], recipients: &RecipientSet) -> (sealed: Result<
    Vec<u8>,
    Error,
>)
    ensures
        sealed matches Ok(container) && is_sealed_for(
            container@,
            plaintext@,
            canonical_texts(recipients@),
        ),
{
    seal_result(x25519_seal(plaintext, recipients.keys()))
}

/// Seals `plaintext` into a binary container that the passphrase opens.
/// Sealing under a passphrase always gives a container.
pub fn seal_with_passphrase(plaintext: &[u8], passphrase: &str) -> (sealed: Result<
    Vec<u8>,
    Error,
>)
    ensures
        sealed matches Ok(container) && is_sealed_under_passphrase(
            container@,
            plaintext@,
            passphrase@,
        ),
{
    seal_result(scrypt_seal(plaintext, passphrase))
}

/// A key that unwraps no file key leaves the decision to the keys after
/// it: the first key that does anything else decides.
pub proof fn lemma_first_match_wins(container: Seq<u8>, secrets: Seq<Seq<u8>>, at: int)
    requires
        0 <= at < secrets.len(),
        forall|j: int|
            0 <= j < at ==> x25519_open(container, #[trigger] secrets[j]) == Err::<
                Seq<u8>,
                Refusal,
            >(Refusal::NoMatchingKeys),
        x25519_open(container, secrets[at]) != Err::<Seq<u8>, Refusal>(Refusal::NoMatchingKeys),
    ensures
        trial(container, secrets) == x25519_open(container, secrets[at]),
    decreases at,
{
    if at > 0 {
        let rest = secrets.drop_first();
        assert forall|j: int| 0 <= j < at - 1 implies x25519_open(container, #[trigger] rest[j])
            == Err::<Seq<u8>, Refusal>(Refusal::NoMatchingKeys) by {
            assert(rest[j] == secrets[j + 1]);
        }
        assert(rest[at - 1] == secrets[at]);
        lemma_first_match_wins(container, rest, at - 1);
    }
}

/// Where no key unwraps a file key, the trial ends without a match.
pub proof fn lemma_no_match(container: Seq<u8>, secrets: Seq<Seq<u8>>)
    requires
        forall|j: int|
            0 <= j < secrets.len() ==> x25519_open(container, #[trigger] secrets[j]) == Err::<
                Seq<u8>,
                Refusal,
            >(Refusal::NoMatchingKeys),
    ensures
        trial(container, secrets) == Err::<Seq<u8>, Refusal>(Refusal::NoMatchingKeys),
    decreases secrets.len(),
{
    if secrets.len() > 0 {
        let rest = secrets.drop_first();
        assert forall|j: int| 0 <= j < rest.len() implies x25519_open(container, #[trigger] rest[j])
            == Err::<Seq<u8>, Refusal>(Refusal::NoMatchingKeys) by {
            assert(rest[j] == secrets[j + 1]);
        }
        lemma_no_match(container, rest);
    }
}

/// Where the header parses and no key unwraps a file key, decryption
/// fails.
pub proof fn lemma_no_match_fails(container: Seq<u8>, secrets: Seq<Seq<u8>>)
    requires
        container_header(container) is Ok,
        forall|j: int|
            0 <= j < secrets.len() ==> x25519_open(container, #[trigger] secrets[j]) == Err::<
                Seq<u8>,
                Refusal,
            >(Refusal::NoMatchingKeys),
    ensures
        opening(container, secrets) == Err::<Seq<u8>, Error>(Error::DecryptionFailure),
{
    lemma_no_match(container, secrets);
}

/// A container that does not parse is refused for that, with every list
/// of keys and with none.
pub proof fn lemma_unparsed_container_is_refused(container: Seq<u8>, secrets: Seq<Seq<u8>>)
    requires
        container_header(container) is Err,
    ensures
        opening(container, secrets) == Err::<Seq<u8>, Error>(
            refusal_error(container_header(container)->Err_0),
        ),
{
}

/// A container that is sealed under a passphrase opens with no list of
/// secret keys.
pub proof fn lemma_keys_do_not_open_passphrase_container(
    container: Seq<u8>,
    plaintext: Seq<u8>,
    passphrase: Seq<char>,
    secrets: Seq<Seq<u8>>,
)
    requires
        is_sealed_under_passphrase(container, plaintext, passphrase),
        forall|j: int| 0 <= j < secrets.len() ==> x25519_public_of(#[trigger] secrets[j]) is Some,
    ensures
        opening(container, secrets) == Err::<Seq<u8>, Error>(Error::DecryptionFailure),
{
    lemma_no_match_fails(container, secrets);
}

/// A container that is sealed for keys opens with no passphrase: the
/// failure to decrypt is owed before the passphrase is put to work.
pub proof fn lemma_passphrase_does_not_open_key_container(
    container: Seq<u8>,
    plaintext: Seq<u8>,
    recipients: Seq<Seq<u8>>,
    passphrase: Seq<char>,
    opened: Result<Seq<u8>, Error>,
)
    requires
        is_sealed_for(container, plaintext, recipients),
        passphrase_opening(opened, container, passphrase),
    ensures
        opened == Err::<Seq<u8>, Error>(Error::DecryptionFailure),
{
}

/// A container that is sealed under a passphrase opens with it to the
/// plaintext that was sealed, unless its work is refused on the machine
/// that opens it.
pub proof fn lemma_passphrase_opens_its_container(
    container: Seq<u8>,
    plaintext: Seq<u8>,
    passphrase: Seq<char>,
    opened: Result<Seq<u8>, Error>,
)
    requires
        is_sealed_under_passphrase(container, plaintext, passphrase),
        passphrase_opening(opened, container, passphrase),
    ensures
        opened == Ok::<Seq<u8>, Error>(plaintext) || opened == Err::<Seq<u8>, Error>(
            Error::DecryptionFailure,
        ),
{
}

/// The intro line of a container is 22 bytes, and the first is the
/// letter a.
pub proof fn lemma_container_intro_bytes()
    ensures
        CONTAINER_INTRO.spec_bytes().len() == 22,
        CONTAINER_INTRO.spec_bytes()[0] == 0x61u8,
{
    reveal_strlit("age-encryption.org/v1\n");
    let intro = CONTAINER_INTRO@;
    assert(vstd::utf8::is_ascii_chars(intro)) by {
        assert forall|i: int| 0 <= i < intro.len() implies (0 <= #[trigger] (intro[i] as nat)
            < 128) by {}
    }
    vstd::utf8::is_ascii_chars_encode_utf8(intro);
}

/// A binary container is never taken for an armored one.
pub proof fn lemma_container_is_binary(container: Seq<u8>)
    requires
        starts_with(container, CONTAINER_INTRO.spec_bytes()),
    ensures
        !is_armored(container),
        container.len() > 0,
{
    lemma_container_intro_bytes();
    lemma_armor_header_bytes();
    let intro = CONTAINER_INTRO.spec_bytes();
    let header = ARMOR_HEADER.spec_bytes();
    assert(container.subrange(0, intro.len() as int)[0] == container[0]);
    if is_armored(container) {
        assert(container.subrange(0, header.len() as int)[0] == container[0]);
    }
}

} // verus!
