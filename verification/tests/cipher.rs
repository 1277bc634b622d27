use age::{DecryptError, EncryptError};
use lockbox::cipher::{
    attempt_result, classify_stop, error_of_refusal, error_of_seal, open_with_passphrase,
    seal_for_recipients, seal_result, seal_with_passphrase, Refusal, Stop,
};
use lockbox::keys::{generate_identity, parse_recipients};
use lockbox::error::{Error, Malformed};
use std::collections::HashSet;
use std::io;

fn broken() -> io::Error {
    io::Error::new(io::ErrorKind::UnexpectedEof, "short")
}

#[test]
fn every_stop_has_its_refusal() {
    assert_eq!(classify_stop(&Stop::Refused(DecryptError::DecryptionFailed)), Refusal::DecryptionFailed);
    assert_eq!(
        classify_stop(&Stop::Refused(DecryptError::ExcessiveWork { required: 30, target: 18 })),
        Refusal::ExcessiveWork
    );
    assert_eq!(classify_stop(&Stop::Refused(DecryptError::InvalidHeader)), Refusal::InvalidHeader);
    assert_eq!(classify_stop(&Stop::Refused(DecryptError::InvalidMac)), Refusal::InvalidMac);
    assert_eq!(classify_stop(&Stop::Refused(DecryptError::Io(broken()))), Refusal::Io);
    assert_eq!(
        classify_stop(&Stop::Refused(DecryptError::KeyDecryptionFailed)),
        Refusal::KeyDecryptionFailed
    );
    assert_eq!(classify_stop(&Stop::Refused(DecryptError::NoMatchingKeys)), Refusal::NoMatchingKeys);
    assert_eq!(classify_stop(&Stop::Refused(DecryptError::UnknownFormat)), Refusal::UnknownFormat);
    assert_eq!(classify_stop(&Stop::Corrupt), Refusal::Payload);
}

#[test]
fn a_container_that_does_not_parse_is_a_format_error() {
    let malformed = Error::FormatError(Malformed::Container);
    assert_eq!(error_of_refusal(Refusal::InvalidHeader), malformed);
    assert_eq!(error_of_refusal(Refusal::UnknownFormat), malformed);
    assert_eq!(error_of_refusal(Refusal::Io), malformed);
}

#[test]
fn every_other_refusal_is_a_decryption_failure() {
    for refusal in [
        Refusal::DecryptionFailed,
        Refusal::ExcessiveWork,
        Refusal::InvalidMac,
        Refusal::KeyDecryptionFailed,
        Refusal::NoMatchingKeys,
        Refusal::Payload,
    ] {
        assert_eq!(error_of_refusal(refusal), Error::DecryptionFailure);
    }
}

#[test]
fn an_attempt_is_told_as_plaintext_or_error() {
    assert_eq!(attempt_result(Ok(vec![1, 2, 3])), Ok(vec![1, 2, 3]));
    assert_eq!(attempt_result(Err(Stop::Corrupt)), Err(Error::DecryptionFailure));
    assert_eq!(
        attempt_result(Err(Stop::Refused(DecryptError::UnknownFormat))),
        Err(Error::FormatError(Malformed::Container))
    );
    assert_eq!(
        attempt_result(Err(Stop::Refused(DecryptError::ExcessiveWork { required: 40, target: 18 }))),
        Err(Error::DecryptionFailure)
    );
}

#[test]
fn a_failed_sealing_is_told_by_its_cause() {
    assert_eq!(error_of_seal(&EncryptError::Io(broken())), Error::IOFailure);
    assert_eq!(error_of_seal(&EncryptError::MissingRecipients), Error::InvalidArguments);
    assert_eq!(error_of_seal(&EncryptError::MixedRecipientAndPassphrase), Error::InvalidArguments);
    assert_eq!(
        error_of_seal(&EncryptError::InvalidRecipientLabels(HashSet::new())),
        Error::InvalidArguments
    );
    assert_eq!(
        error_of_seal(&EncryptError::IncompatibleRecipients {
            l_labels: HashSet::new(),
            r_labels: HashSet::new()
        }),
        Error::InvalidArguments
    );
    assert_eq!(
        error_of_seal(&EncryptError::EncryptedIdentities(DecryptError::NoMatchingKeys)),
        Error::DecryptionFailure
    );
    assert_eq!(seal_result(Ok(vec![9, 8])), Ok(vec![9, 8]));
    assert_eq!(seal_result(Err(EncryptError::Io(broken()))), Err(Error::IOFailure));
}

#[test]
fn a_container_that_does_not_parse_is_refused_whatever_the_passphrase() {
    let malformed = Some(Error::FormatError(Malformed::Container));
    assert_eq!(open_with_passphrase(b"", "words").err(), malformed);
    assert_eq!(open_with_passphrase(b"age-encryption.org/v1\n", "words").err(), malformed);
    assert_eq!(open_with_passphrase(b"age-encryption.org/v2\n-> x\n", "words").err(), malformed);
    assert_eq!(open_with_passphrase(b"no container", "").err(), malformed);
    let sealed = seal_with_passphrase(b"abc", "words").unwrap();
    assert_eq!(open_with_passphrase(&sealed[..30], "words").err(), malformed);
}

#[test]
fn a_container_for_keys_does_not_open_with_a_passphrase() {
    let key = generate_identity();
    let recipients = parse_recipients(&vec![String::from_utf8(key.public().to_vec()).unwrap()]).unwrap();
    let sealed = seal_for_recipients(b"for a key", &recipients).unwrap();
    assert_eq!(open_with_passphrase(&sealed, "words").err(), Some(Error::DecryptionFailure));
}

#[test]
fn a_container_under_a_passphrase_opens_with_it_alone() {
    let sealed = seal_with_passphrase(b"under words", "words").unwrap();
    assert_eq!(open_with_passphrase(&sealed, "words").unwrap(), b"under words");
    assert_eq!(open_with_passphrase(&sealed, "other words").err(), Some(Error::DecryptionFailure));
}
