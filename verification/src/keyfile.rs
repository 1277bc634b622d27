//! Writing a key file: two comment lines for people, then the secret key.

use crate::error::Error;
use crate::format::starts_with;
use crate::keys::{
    generate_identity, identity_pair, is_significant, key_file_keys, keys_in,
    lemma_key_prefix_bytes, IdentityKey, SECRET_KEY_PREFIX,
};
use crate::lines::{lemma_line_end_unique, lines_of, without_cr, LF};
use vstd::prelude::*;
use vstd::string::StringSliceAdditionalSpecFns;

verus! {

/// What stands before the time of creation.
pub const CREATED_LABEL: &'static str = "# created: ";

/// What stands before the recipient string.
pub const PUBLIC_LABEL: &'static str = "# public key: ";

/// The text of a key file: when it was created, the recipient string, and
/// the secret key, each on a line of its own.
pub open spec fn key_file_text(created: Seq<u8>, public: Seq<u8>, secret: Seq<u8>) -> Seq<u8> {
    (CREATED_LABEL.spec_bytes() + created).push(LF) + (PUBLIC_LABEL.spec_bytes() + public).push(
        LF,
    ) + secret.push(LF)
}

/// `text` is a key file as it is written for a key with the recipient
/// string `recipient`: a time of creation of one line, the recipient
/// string, and the secret line of that key.
pub open spec fn is_written_key_file(text: Seq<u8>, recipient: Seq<u8>) -> bool {
    exists|created: Seq<u8>, secret: Seq<u8>| #[trigger]
        key_file_text(created, recipient, secret) == text && !created.contains(LF)
            && identity_pair(secret, recipient)
}

/// A new key file and the recipient string that belongs to it.
pub struct KeyFile {
    pub text: Vec<u8>,
    pub recipient: Vec<u8>,
}

/// Formats `chrono::Utc::now` as year, month, day, hour, minute and second
/// in digits, followed by the letters UTC. The time is whatever the clock
/// says; the contract says only that the text is one line.
#[verifier::external_body]
fn utc_now() -> (text: Vec<u8>)
    ensures
        !text@.contains(LF),
{
    chrono::Utc::now().format("%Y-%m-%d %H:%M:%S UTC").to_string().into_bytes()
}

/// Writes the key file of `key`, marked as created at `created`.
pub fn render_key_file(created: &[u8], key: &IdentityKey) -> (text: Vec<u8>)
    ensures
        text@ == key_file_text(created@, key.public_text(), key.secret_text()),
        identity_pair(key.secret_text(), key.public_text()),
{
    let mut text: Vec<u8> = Vec::new();
    text.extend_from_slice(CREATED_LABEL.as_bytes());
    text.extend_from_slice(created);
    text.push(LF);
    text.extend_from_slice(PUBLIC_LABEL.as_bytes());
    text.extend_from_slice(key.public());
    text.push(LF);
    text.extend_from_slice(key.secret());
    text.push(LF);
    assert(text@ =~= key_file_text(created@, key.public_text(), key.secret_text()));
    text
}

/// Makes a new secret key and its key file, marked with the present time.
/// The file is written as `render_key_file` writes it, and reads back as
/// that one key.
pub fn generate_key_file() -> (file: KeyFile)
    ensures
        is_written_key_file(file.text@, file.recipient@),
        exists|secret: Seq<u8>| #[trigger]
            identity_pair(secret, file.recipient@) && key_file_keys(file.text@) == Ok::<
                Seq<Seq<u8>>,
                Error,
            >(seq![secret]),
{
    let key = generate_identity();
    let created = utc_now();
    let text = render_key_file(created.as_slice(), &key);
    let recipient = vstd::slice::slice_to_vec(key.public());
    let file = KeyFile { text, recipient };
    proof {
        lemma_key_file_reads_back(created@, key.public_text(), key.secret_text());
        assert(identity_pair(key.secret_text(), file.recipient@));
        assert(key_file_text(created@, file.recipient@, key.secret_text()) == file.text@);
    }
    file
}

/// A line and its line feed, before any text, give that line and then the
/// lines of the text.
pub proof fn lemma_lines_after_first(line: Seq<u8>, rest: Seq<u8>)
    requires
        !line.contains(LF),
    ensures
        lines_of(line.push(LF) + rest) == seq![without_cr(line)] + lines_of(rest),
{
    let text = line.push(LF) + rest;
    let end = line.len() as int;
    assert forall|j: int| 0 <= j < end implies text[j] != LF by {
        assert(text[j] == line[j]);
        assert(line.contains(line[j]));
    }
    assert(text[end] == LF);
    lemma_line_end_unique(text, end);
    assert(text.subrange(0, end) =~= line);
    assert(text.subrange(end + 1, text.len() as int) =~= rest);
}

/// The label of the time of creation begins with a number sign and holds
/// no line feed.
pub proof fn lemma_created_label_bytes()
    ensures
        CREATED_LABEL.spec_bytes().len() == 11,
        CREATED_LABEL.spec_bytes()[0] == 0x23u8,
        !CREATED_LABEL.spec_bytes().contains(LF),
{
    reveal_strlit("# created: ");
    let label = CREATED_LABEL@;
    assert(vstd::utf8::is_ascii_chars(label)) by {
        assert forall|i: int| 0 <= i < label.len() implies (0 <= #[trigger] (label[i] as nat)
            < 128) by {}
    }
    vstd::utf8::is_ascii_chars_encode_utf8(label);
    let bytes = CREATED_LABEL.spec_bytes();
    assert forall|i: int| 0 <= i < bytes.len() implies bytes[i] != LF by {
        assert(bytes[i] == label[i] as u8);
    }
}

/// The label of the recipient string begins with a number sign and holds
/// no line feed.
pub proof fn lemma_public_label_bytes()
    ensures
        PUBLIC_LABEL.spec_bytes().len() == 14,
        PUBLIC_LABEL.spec_bytes()[0] == 0x23u8,
        !PUBLIC_LABEL.spec_bytes().contains(LF),
{
    reveal_strlit("# public key: ");
    let label = PUBLIC_LABEL@;
    assert(vstd::utf8::is_ascii_chars(label)) by {
        assert forall|i: int| 0 <= i < label.len() implies (0 <= #[trigger] (label[i] as nat)
            < 128) by {}
    }
    vstd::utf8::is_ascii_chars_encode_utf8(label);
    let bytes = PUBLIC_LABEL.spec_bytes();
    assert forall|i: int| 0 <= i < bytes.len() implies bytes[i] != LF by {
        assert(bytes[i] == label[i] as u8);
    }
}

/// A label and what follows it on its line hold no line feed where
/// neither does.
proof fn lemma_comment_is_one_line(label: Seq<u8>, body: Seq<u8>)
    requires
        !label.contains(LF),
        !body.contains(LF),
    ensures
        !(label + body).contains(LF),
{
    let line = label + body;
    if line.contains(LF) {
        let at = choose|at: int| 0 <= at < line.len() && line[at] == LF;
        if at < label.len() {
            assert(label.contains(label[at]));
        } else {
            assert(body.contains(body[at - label.len()]));
        }
    }
}

/// A line that begins with a number sign holds no secret key, whether or
/// not a carriage return is taken from its end.
proof fn lemma_comment_is_passed_over(label: Seq<u8>, body: Seq<u8>)
    requires
        label.len() >= 2,
        label[0] == 0x23u8,
    ensures
        !is_significant(without_cr(label + body)),
{
    lemma_key_prefix_bytes();
    let prefix = SECRET_KEY_PREFIX.spec_bytes();
    let line = without_cr(label + body);
    assert(line.len() >= 1);
    assert(line[0] == label[0]);
    if starts_with(line, prefix) {
        assert(line.subrange(0, prefix.len() as int)[0] == line[0]);
    }
}

/// A key file that was written for a key reads back as exactly that key:
/// the two comment lines are passed over, whatever they hold.
pub proof fn lemma_key_file_reads_back(created: Seq<u8>, public: Seq<u8>, secret: Seq<u8>)
    requires
        !created.contains(LF),
        identity_pair(secret, public),
    ensures
        key_file_keys(key_file_text(created, public, secret)) == Ok::<Seq<Seq<u8>>, Error>(
            seq![secret],
        ),
{
    lemma_created_label_bytes();
    lemma_public_label_bytes();
    let created_label = CREATED_LABEL.spec_bytes();
    let public_label = PUBLIC_LABEL.spec_bytes();
    let first = created_label + created;
    let second = public_label + public;
    lemma_comment_is_one_line(created_label, created);
    lemma_comment_is_one_line(public_label, public);
    let tail = secret.push(LF);
    let middle = second.push(LF) + tail;
    let text = key_file_text(created, public, secret);
    assert(text =~= first.push(LF) + middle);
    lemma_lines_after_first(first, middle);
    lemma_lines_after_first(second, tail);
    assert(tail =~= secret.push(LF) + Seq::<u8>::empty());
    lemma_lines_after_first(secret, Seq::<u8>::empty());
    assert(lines_of(Seq::<u8>::empty()) =~= Seq::<Seq<u8>>::empty());
    let lines = lines_of(text);
    let one = without_cr(first);
    let two = without_cr(second);
    assert(without_cr(secret) == secret);
    assert(lines =~= seq![one, two, secret]);
    lemma_comment_is_passed_over(created_label, created);
    lemma_comment_is_passed_over(public_label, public);
    assert(lines.drop_last() =~= seq![one, two]);
    assert(seq![one, two].drop_last() =~= seq![one]);
    assert(seq![one].drop_last() =~= Seq::<Seq<u8>>::empty());
    assert(keys_in(Seq::<Seq<u8>>::empty()) == Some(Seq::<Seq<u8>>::empty()));
    assert(seq![one].last() == one);
    assert(seq![one, two].last() == two);
    assert(lines.last() == secret);
    assert(keys_in(seq![one]) == Some(Seq::<Seq<u8>>::empty()));
    assert(keys_in(seq![one, two]) == Some(Seq::<Seq<u8>>::empty()));
    assert(keys_in(lines) == Some(Seq::<Seq<u8>>::empty().push(secret)));
    assert(Seq::<Seq<u8>>::empty().push(secret) =~= seq![secret]);
}

} // verus!
