use bech32::ToBase32;
use lockbox::error::{Error, Malformed};
use lockbox::keys::{extract_recipient, generate_identity, parse_identities, parse_recipients};

const SECRET: &str = "AGE-SECRET-KEY-1GQ9778VQXMMJVE8SK7J6VT8UJ4HDQAJUVSFCWCM02D8GEWQ72PVQ2Y5J33";
const PUBLIC: &str = "age1t7rxyev2z3rw82stdlrrepyc39nvn86l5078zqkf5uasdy86jp6svpy7pa";

fn recipient_of_point(point: [u8; 32]) -> String {
    bech32::encode("age", point.to_base32(), bech32::Variant::Bech32).unwrap()
}

#[test]
fn key_file_with_comments_yields_its_key() {
    let text = format!("# created: 2024-01-01 00:00:00 UTC\n# public key: {}\n{}\n", PUBLIC, SECRET);
    let keys = parse_identities(&text).unwrap();
    assert_eq!(keys.len(), 1);
    assert_eq!(keys[0].secret(), SECRET.as_bytes());
    assert_eq!(keys[0].public(), PUBLIC.as_bytes());
}

#[test]
fn key_file_keeps_the_order_of_its_keys() {
    let first = generate_identity();
    let second = generate_identity();
    let text = format!(
        "{}\r\n\n# a comment\n{}",
        String::from_utf8(first.secret().to_vec()).unwrap(),
        String::from_utf8(second.secret().to_vec()).unwrap()
    );
    let keys = parse_identities(&text).unwrap();
    assert_eq!(keys.len(), 2);
    assert_eq!(keys[0].secret(), first.secret());
    assert_eq!(keys[1].secret(), second.secret());
    assert_eq!(keys[1].public(), second.public());
}

#[test]
fn key_file_without_key_lines_has_no_identity() {
    assert_eq!(parse_identities("").err(), Some(Error::NoIdentity));
    assert_eq!(parse_identities("# only a comment\n\nnot a key\n").err(), Some(Error::NoIdentity));
    let lower = SECRET.to_lowercase();
    assert_eq!(parse_identities(&lower).err(), Some(Error::NoIdentity));
    let indented = format!(" {}", SECRET);
    assert_eq!(parse_identities(&indented).err(), Some(Error::NoIdentity));
}

#[test]
fn damaged_key_line_is_a_format_error() {
    let expected = Some(Error::FormatError(Malformed::IdentityLine));
    assert_eq!(parse_identities("AGE-SECRET-KEY-1QQQQ\n").err(), expected);
    let damaged_after_good = format!("{}\nAGE-SECRET-KEY-\n", SECRET);
    assert_eq!(parse_identities(&damaged_after_good).err(), expected);
    let trailing_space = format!("{} \n", SECRET);
    assert_eq!(parse_identities(&trailing_space).err(), expected);
    let bare_cr = format!("{}\r", SECRET);
    assert_eq!(parse_identities(&bare_cr).err(), expected);
}

#[test]
fn recipient_is_taken_from_the_first_key() {
    let other = generate_identity();
    let text = format!("{}\n{}\n", SECRET, String::from_utf8(other.secret().to_vec()).unwrap());
    assert_eq!(extract_recipient(&text).unwrap(), PUBLIC.as_bytes());
    assert_eq!(extract_recipient("nothing").err(), Some(Error::NoIdentity));
    let damaged_later = format!("{}\nAGE-SECRET-KEY-1\n", SECRET);
    assert_eq!(
        extract_recipient(&damaged_later).err(),
        Some(Error::FormatError(Malformed::IdentityLine))
    );
}

#[test]
fn generated_key_reads_back() {
    let key = generate_identity();
    let line = String::from_utf8(key.secret().to_vec()).unwrap();
    assert!(line.starts_with("AGE-SECRET-KEY-1"));
    let keys = parse_identities(&line).unwrap();
    assert_eq!(keys[0].public(), key.public());
    let recipients = parse_recipients(&vec![String::from_utf8(key.public().to_vec()).unwrap()]).unwrap();
    assert_eq!(recipients.keys().len(), 1);
    assert_eq!(recipients.keys()[0].given(), key.public());
    assert_eq!(recipients.keys()[0].canonical(), key.public());
}

#[test]
fn recipients_keep_their_order_and_gain_a_canonical_form() {
    let upper = PUBLIC.to_uppercase();
    let other = generate_identity();
    let other_text = String::from_utf8(other.public().to_vec()).unwrap();
    let recipients = parse_recipients(&vec![upper.clone(), other_text.clone()]).unwrap();
    let keys = recipients.keys();
    assert_eq!(keys.len(), 2);
    assert_eq!(keys[0].given(), upper.as_bytes());
    assert_eq!(keys[0].canonical(), PUBLIC.as_bytes());
    assert_eq!(keys[1].given(), other_text.as_bytes());
    assert_eq!(keys[1].canonical(), other_text.as_bytes());
}

#[test]
fn empty_recipient_list_is_invalid() {
    assert_eq!(parse_recipients(&Vec::new()).err(), Some(Error::InvalidArguments));
}

#[test]
fn first_bad_recipient_is_named() {
    let list = vec![PUBLIC.to_string(), "age1nope".to_string(), "also bad".to_string()];
    assert_eq!(
        parse_recipients(&list).err(),
        Some(Error::FormatError(Malformed::Recipient("age1nope".to_string())))
    );
    let secret_as_recipient = vec![SECRET.to_string()];
    assert_eq!(
        parse_recipients(&secret_as_recipient).err(),
        Some(Error::FormatError(Malformed::Recipient(SECRET.to_string())))
    );
}

#[test]
fn recipient_of_small_order_is_refused() {
    let mut one = [0u8; 32];
    one[0] = 1;
    for point in [[0u8; 32], one] {
        let text = recipient_of_point(point);
        assert_eq!(
            parse_recipients(&vec![PUBLIC.to_string(), text.clone()]).err(),
            Some(Error::FormatError(Malformed::Recipient(text)))
        );
    }
    let mut nine = [0u8; 32];
    nine[0] = 9;
    assert!(parse_recipients(&vec![recipient_of_point(nine)]).is_ok());
}

#[test]
fn recipient_string_of_a_key_is_canonical_and_usable() {
    for text in [SECRET.to_string(), String::from_utf8(generate_identity().secret().to_vec()).unwrap()] {
        let keys = parse_identities(&text).unwrap();
        let public = String::from_utf8(keys[0].public().to_vec()).unwrap();
        assert!(!public.contains('\n'));
        let recipients = parse_recipients(&vec![public.clone()]).unwrap();
        assert_eq!(recipients.keys()[0].canonical(), public.as_bytes());
    }
}

#[test]
fn every_string_is_read_before_any_key_is_refused() {
    let small = recipient_of_point([0u8; 32]);
    let bad = "bad".to_string();
    assert_eq!(
        parse_recipients(&vec![small.clone(), bad.clone()]).err(),
        Some(Error::FormatError(Malformed::Recipient(bad.clone())))
    );
    assert_eq!(
        parse_recipients(&vec![small.clone(), PUBLIC.to_string(), bad.clone(), "worse".to_string()]).err(),
        Some(Error::FormatError(Malformed::Recipient(bad)))
    );
    let mut one = [0u8; 32];
    one[0] = 1;
    let other_small = recipient_of_point(one);
    assert_eq!(
        parse_recipients(&vec![PUBLIC.to_string(), other_small.clone(), small]).err(),
        Some(Error::FormatError(Malformed::Recipient(other_small)))
    );
}
