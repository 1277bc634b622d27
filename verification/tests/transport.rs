use lockbox::armor::wrap;
use lockbox::error::{Error, Malformed};
use lockbox::transport::{container_of_text, text_of_container, text_of_plaintext};

#[test]
fn binary_container_travels_as_base64() {
    let text = text_of_container(b"age-encryption.org/v1\n".to_vec()).unwrap();
    assert_eq!(text, "YWdlLWVuY3J5cHRpb24ub3JnL3YxCg==");
    assert_eq!(container_of_text(&text).unwrap(), b"age-encryption.org/v1\n");
}

#[test]
fn base64_has_padding_and_the_standard_alphabet() {
    assert_eq!(text_of_container(vec![]).unwrap(), "");
    assert_eq!(text_of_container(vec![0xfb]).unwrap(), "+w==");
    assert_eq!(text_of_container(vec![0xfb, 0xff]).unwrap(), "+/8=");
    assert_eq!(text_of_container(vec![0xfb, 0xff, 0xbf]).unwrap(), "+/+/");
    assert_eq!(container_of_text("+/+/").unwrap(), vec![0xfb, 0xff, 0xbf]);
    assert_eq!(container_of_text("").unwrap(), Vec::<u8>::new());
}

#[test]
fn armored_container_travels_as_it_is() {
    let armored = wrap(b"some container");
    let text = text_of_container(armored.clone()).unwrap();
    assert_eq!(text.as_bytes(), &armored[..]);
    assert_eq!(container_of_text(&text).unwrap(), armored);
}

#[test]
fn text_that_begins_with_the_header_is_not_decoded() {
    let text = "-----BEGIN AGE ENCRYPTED FILE-----\nnot base64 at all";
    assert_eq!(container_of_text(text).unwrap(), text.as_bytes());
}

#[test]
fn text_that_is_not_base64_is_a_format_error() {
    let refused = Some(Error::FormatError(Malformed::Base64Text));
    assert_eq!(container_of_text("not base64!").err(), refused);
    assert_eq!(container_of_text("YWdl\n").err(), refused);
    assert_eq!(container_of_text("YWd").err(), refused);
    assert_eq!(container_of_text("-----BEGIN AGE ENCRYPTED FILE----").err(), refused);
    assert_eq!(container_of_text(" -----BEGIN AGE ENCRYPTED FILE-----").err(), refused);
}

#[test]
fn armored_bytes_that_are_not_text_cannot_travel() {
    let mut bytes = b"-----BEGIN AGE ENCRYPTED FILE-----\n".to_vec();
    bytes.push(0xff);
    assert_eq!(text_of_container(bytes).err(), Some(Error::EncodingFailure));
}

#[test]
fn plaintext_is_text_only_where_it_is_utf8() {
    assert_eq!(text_of_plaintext(b"hello world".to_vec()).unwrap(), "hello world");
    assert_eq!(text_of_plaintext("gr\u{fc}\u{df}e \u{4e16}\u{754c}".as_bytes().to_vec()).unwrap(), "gr\u{fc}\u{df}e \u{4e16}\u{754c}");
    assert_eq!(text_of_plaintext(vec![]).unwrap(), "");
    assert_eq!(text_of_plaintext(vec![0xc3]).err(), Some(Error::EncodingFailure));
    assert_eq!(text_of_plaintext(vec![0xff, 0xfe]).err(), Some(Error::EncodingFailure));
    assert_eq!(text_of_plaintext(vec![0xed, 0xa0, 0x80]).err(), Some(Error::EncodingFailure));
    assert_eq!(text_of_plaintext(vec![0xc0, 0x80]).err(), Some(Error::EncodingFailure));
}
