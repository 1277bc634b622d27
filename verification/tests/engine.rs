use lockbox::cipher::{open_with_identities, seal_for_recipients, seal_with_passphrase};
use lockbox::engine::{
    decrypt_content, decrypt_content_with_passphrase, encrypt_to_recipients,
    encrypt_with_passphrase,
};
use lockbox::error::{Error, Malformed};
use lockbox::format::{classify, Format, ARMOR_FOOTER, ARMOR_HEADER};
use lockbox::keys::{generate_identity, parse_identities, parse_recipients, IdentityKey, RecipientSet};

fn recipients_of(keys: &[&IdentityKey]) -> RecipientSet {
    let strings: Vec<String> =
        keys.iter().map(|key| String::from_utf8(key.public().to_vec()).unwrap()).collect();
    parse_recipients(&strings).unwrap()
}

fn key_file_of(keys: &[&IdentityKey]) -> Vec<IdentityKey> {
    let lines: Vec<String> =
        keys.iter().map(|key| String::from_utf8(key.secret().to_vec()).unwrap()).collect();
    parse_identities(&lines.join("\n")).unwrap()
}

fn sample(len: usize) -> Vec<u8> {
    (0..len).map(|i| (i * 31 + 11) as u8).collect()
}

#[test]
fn round_trip_for_one_recipient() {
    let key = generate_identity();
    for len in [0usize, 1, 11, 65535, 65536, 65537, 200000] {
        let plaintext = sample(len);
        for armored in [false, true] {
            let encrypted = encrypt_to_recipients(&plaintext, &recipients_of(&[&key]), armored).unwrap();
            assert_eq!(classify(&encrypted) == Format::Armored, armored);
            assert_eq!(decrypt_content(&encrypted, &key_file_of(&[&key])).unwrap(), plaintext);
        }
    }
}

#[test]
fn any_one_of_three_recipients_decrypts() {
    let a = generate_identity();
    let b = generate_identity();
    let c = generate_identity();
    let d = generate_identity();
    let plaintext = b"for three of four".to_vec();
    for armored in [false, true] {
        let encrypted = encrypt_to_recipients(&plaintext, &recipients_of(&[&a, &b, &c]), armored).unwrap();
        assert_eq!(decrypt_content(&encrypted, &key_file_of(&[&b])).unwrap(), plaintext);
        assert_eq!(decrypt_content(&encrypted, &key_file_of(&[&a])).unwrap(), plaintext);
        assert_eq!(decrypt_content(&encrypted, &key_file_of(&[&c])).unwrap(), plaintext);
        assert_eq!(
            decrypt_content(&encrypted, &key_file_of(&[&d])).err(),
            Some(Error::DecryptionFailure)
        );
    }
}

#[test]
fn keys_are_tried_in_order_until_one_matches() {
    let stranger = generate_identity();
    let other = generate_identity();
    let owner = generate_identity();
    let plaintext = b"the third key fits".to_vec();
    let encrypted = encrypt_to_recipients(&plaintext, &recipients_of(&[&owner]), false).unwrap();
    let keys = key_file_of(&[&stranger, &other, &owner]);
    assert_eq!(decrypt_content(&encrypted, &keys).unwrap(), plaintext);
    assert_eq!(
        decrypt_content(&encrypted, &key_file_of(&[&stranger, &other])).err(),
        Some(Error::DecryptionFailure)
    );
    assert_eq!(decrypt_content(&encrypted, &Vec::new()).err(), Some(Error::DecryptionFailure));
}

#[test]
fn two_encryptions_differ_and_both_decrypt() {
    let key = generate_identity();
    let plaintext = b"same words".to_vec();
    let first = seal_for_recipients(&plaintext, &recipients_of(&[&key])).unwrap();
    let second = seal_for_recipients(&plaintext, &recipients_of(&[&key])).unwrap();
    assert_ne!(first, second);
    assert!(first.starts_with(b"age-encryption.org/v1\n"));
    assert_eq!(open_with_identities(&first, &key_file_of(&[&key])).unwrap(), plaintext);
    assert_eq!(open_with_identities(&second, &key_file_of(&[&key])).unwrap(), plaintext);
}

#[test]
fn a_set_of_recipients_is_never_empty() {
    assert_eq!(parse_recipients(&Vec::new()).err(), Some(Error::InvalidArguments));
    let key = generate_identity();
    assert_eq!(recipients_of(&[&key]).keys().len(), 1);
}

#[test]
fn the_header_is_read_before_any_key() {
    let malformed = Some(Error::FormatError(Malformed::Container));
    let none: Vec<IdentityKey> = Vec::new();
    assert_eq!(decrypt_content(b"", &none).err(), malformed);
    assert_eq!(decrypt_content(b"no container", &none).err(), malformed);
    assert_eq!(decrypt_content(b" -----BEGIN AGE ENCRYPTED FILE-----\nYWdl\n-----END AGE ENCRYPTED FILE-----\n", &none).err(), malformed);
    assert_eq!(decrypt_content(b"-----BEGIN AGE ENCRYPTED FILE----_\nYWdl\n-----END AGE ENCRYPTED FILE-----\n", &none).err(), malformed);
    let key = generate_identity();
    let sealed = encrypt_to_recipients(b"abc", &recipients_of(&[&key]), false).unwrap();
    assert_eq!(decrypt_content(&sealed, &none).err(), Some(Error::DecryptionFailure));
    assert_eq!(decrypt_content(&sealed[..40], &none).err(), malformed);
    let under_words = encrypt_with_passphrase(b"abc", "words", false).unwrap();
    assert_eq!(decrypt_content(&under_words, &none).err(), Some(Error::DecryptionFailure));
}

#[test]
fn armored_encryption_has_header_and_footer() {
    let key = generate_identity();
    let encrypted = encrypt_to_recipients(b"hello world", &recipients_of(&[&key]), true).unwrap();
    let text = String::from_utf8(encrypted).unwrap();
    assert!(text.starts_with(ARMOR_HEADER));
    assert!(text.trim_end().ends_with(ARMOR_FOOTER));
    assert_eq!(decrypt_content(text.as_bytes(), &key_file_of(&[&key])).unwrap(), b"hello world");
}

#[test]
fn corrupted_payload_fails_to_decrypt() {
    let key = generate_identity();
    let plaintext = sample(500);
    let mut encrypted = encrypt_to_recipients(&plaintext, &recipients_of(&[&key]), false).unwrap();
    let last = encrypted.len() - 1;
    encrypted[last] ^= 1;
    assert_eq!(decrypt_content(&encrypted, &key_file_of(&[&key])).err(), Some(Error::DecryptionFailure));
    encrypted[last] ^= 1;
    let middle = encrypted.len() - 300;
    encrypted[middle] ^= 0x80;
    assert_eq!(decrypt_content(&encrypted, &key_file_of(&[&key])).err(), Some(Error::DecryptionFailure));
}

#[test]
fn truncated_payload_fails_to_decrypt() {
    let key = generate_identity();
    let encrypted = encrypt_to_recipients(&sample(500), &recipients_of(&[&key]), false).unwrap();
    let cut = &encrypted[..encrypted.len() - 10];
    assert_eq!(decrypt_content(cut, &key_file_of(&[&key])).err(), Some(Error::DecryptionFailure));
}

#[test]
fn damaged_header_is_a_format_error() {
    let key = generate_identity();
    let keys = key_file_of(&[&key]);
    let malformed = Some(Error::FormatError(Malformed::Container));
    assert_eq!(decrypt_content(b"", &keys).err(), malformed);
    assert_eq!(decrypt_content(b"not a container at all", &keys).err(), malformed);
    assert_eq!(decrypt_content(b"age-encryption.org/v1\n", &keys).err(), malformed);
    assert_eq!(decrypt_content(b"-----BEGIN AGE ENCRYPTED FILE----", &keys).err(), malformed);
    let encrypted = encrypt_to_recipients(b"abc", &recipients_of(&[&key]), false).unwrap();
    assert_eq!(decrypt_content(&encrypted[..40], &keys).err(), malformed);
}

#[test]
fn tampered_stanza_fails_to_decrypt() {
    let key = generate_identity();
    let mut encrypted = encrypt_to_recipients(b"abc", &recipients_of(&[&key]), false).unwrap();
    let at = b"age-encryption.org/v1\n-> X25519 ".len() + 3;
    encrypted[at] = if encrypted[at] == b'A' { b'B' } else { b'A' };
    assert_eq!(decrypt_content(&encrypted, &key_file_of(&[&key])).err(), Some(Error::DecryptionFailure));
}

#[test]
fn truncated_armor_is_a_format_error_before_any_key_is_tried() {
    let key = generate_identity();
    let encrypted = encrypt_to_recipients(b"hello", &recipients_of(&[&key]), true).unwrap();
    let cut = &encrypted[..encrypted.len() - ARMOR_FOOTER.len() - 1];
    let refused = Some(Error::FormatError(Malformed::Armor));
    assert_eq!(decrypt_content(cut, &key_file_of(&[&key])).err(), refused);
    assert_eq!(decrypt_content_with_passphrase(cut, "whatever").err(), refused);
}

fn passphrase_round_trip(armored: bool) {
    let encrypted = encrypt_with_passphrase(b"under a passphrase", "correct horse", armored).unwrap();
    assert_eq!(classify(&encrypted) == Format::Armored, armored);
    assert_eq!(
        decrypt_content_with_passphrase(&encrypted, "correct horse").unwrap(),
        b"under a passphrase"
    );
    assert_eq!(
        decrypt_content_with_passphrase(&encrypted, "battery staple").err(),
        Some(Error::DecryptionFailure)
    );
}

#[test]
fn passphrase_round_trip_in_binary() {
    passphrase_round_trip(false);
}

#[test]
fn passphrase_round_trip_in_armor() {
    passphrase_round_trip(true);
}

#[test]
fn empty_passphrase_and_empty_plaintext_round_trip() {
    let encrypted = encrypt_with_passphrase(b"", "", false).unwrap();
    assert_eq!(decrypt_content_with_passphrase(&encrypted, "").unwrap(), b"");
}

#[test]
fn passphrase_and_keys_do_not_mix() {
    let key = generate_identity();
    let by_passphrase = seal_with_passphrase(b"abc", "secret words").unwrap();
    assert_eq!(
        decrypt_content(&by_passphrase, &key_file_of(&[&key])).err(),
        Some(Error::DecryptionFailure)
    );
    let by_key = encrypt_to_recipients(b"abc", &recipients_of(&[&key]), false).unwrap();
    assert_eq!(
        decrypt_content_with_passphrase(&by_key, "secret words").err(),
        Some(Error::DecryptionFailure)
    );
}
