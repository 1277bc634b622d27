use lockbox::error::{Error, Malformed};
use lockbox::keyfile::{generate_key_file, render_key_file};
use lockbox::keys::{extract_recipient, generate_identity, parse_identities};

#[test]
fn key_file_has_two_comments_and_the_key() {
    let key = generate_identity();
    let text = String::from_utf8(render_key_file(b"2024-05-06 07:08:09 UTC", &key)).unwrap();
    let expected = format!(
        "# created: 2024-05-06 07:08:09 UTC\n# public key: {}\n{}\n",
        String::from_utf8(key.public().to_vec()).unwrap(),
        String::from_utf8(key.secret().to_vec()).unwrap()
    );
    assert_eq!(text, expected);
}

#[test]
fn written_key_file_reads_back_as_its_key() {
    let key = generate_identity();
    for created in ["2024-05-06 07:08:09 UTC", "", "AGE-SECRET-KEY-", "odd\r"] {
        let text = String::from_utf8(render_key_file(created.as_bytes(), &key)).unwrap();
        let keys = parse_identities(&text).unwrap();
        assert_eq!(keys.len(), 1);
        assert_eq!(keys[0].secret(), key.secret());
        assert_eq!(keys[0].public(), key.public());
    }
}

#[test]
fn generated_key_file_names_its_recipient() {
    let file = generate_key_file();
    let text = String::from_utf8(file.text).unwrap();
    let lines: Vec<&str> = text.lines().collect();
    assert_eq!(lines.len(), 3);
    assert!(lines[0].starts_with("# created: "));
    assert!(lines[0].ends_with(" UTC"));
    assert_eq!(lines[0].len(), "# created: 2024-05-06 07:08:09 UTC".len());
    assert_eq!(lines[1], format!("# public key: {}", String::from_utf8(file.recipient.clone()).unwrap()));
    assert!(lines[2].starts_with("AGE-SECRET-KEY-1"));
    assert!(text.ends_with('\n'));
    assert_eq!(extract_recipient(&text).unwrap(), file.recipient);
    assert!(file.recipient.starts_with(b"age1"));
}

#[test]
fn generated_keys_differ() {
    let first = generate_key_file();
    let second = generate_key_file();
    assert_ne!(first.recipient, second.recipient);
}

#[test]
fn messages_name_the_failure() {
    assert_eq!(Error::InvalidArguments.message(), "invalid arguments");
    assert_eq!(Error::IOFailure.message(), "input or output failed");
    assert_eq!(Error::NoIdentity.message(), "no secret key found");
    assert_eq!(Error::DecryptionFailure.message(), "decryption failed");
    assert_eq!(Error::EncodingFailure.message(), "decrypted data is not text");
    assert_eq!(Error::FormatError(Malformed::Armor).message(), "malformed armor");
    assert_eq!(Error::FormatError(Malformed::Base64Text).message(), "malformed base64 text");
    assert_eq!(Error::FormatError(Malformed::Container).message(), "malformed container");
    assert_eq!(Error::FormatError(Malformed::IdentityLine).message(), "malformed secret key line");
    assert_eq!(
        Error::FormatError(Malformed::Recipient("age1x".to_string())).message(),
        "invalid recipient: age1x"
    );
}
