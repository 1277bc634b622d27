//! Secret keys and recipients: what a key file and a list of recipient
//! strings hold.
//!
//! The curve arithmetic and the Bech32 encoding of keys are those of the
//! `age` crate. This module decides which lines of a key file count, in
//! which order keys are tried, and which input is refused.

use crate::error::{Error, Malformed};
use crate::format::{has_prefix, starts_with};
use crate::lines::{lemma_lines_hold_no_lf, lines_of, split_lines, texts, CR, LF};
use vstd::prelude::*;
use vstd::string::StringSliceAdditionalSpecFns;
use vstd::utf8::encode_utf8;

verus! {

/// A line of a key file holds a secret key exactly when it begins with this.
pub const SECRET_KEY_PREFIX: &'static str = "AGE-SECRET-KEY-";

/// The recipient string of the secret key that `secret` encodes, in its
/// canonical form; `None` where `secret` does not encode a secret key.
pub uninterp spec fn x25519_public_of(secret: Seq<u8>) -> Option<Seq<u8>>;

/// The canonical form of the recipient string `text`; `None` where `text`
/// does not encode a public key.
pub uninterp spec fn x25519_recipient_of(text: Seq<u8>) -> Option<Seq<u8>>;

/// Whether a key agreement with the public key that the recipient string
/// `text` encodes contributes to the shared secret. It does not where the
/// key is a point of small order: the shared secret is then zero,
/// whatever the other side brings.
pub uninterp spec fn x25519_contributes(text: Seq<u8>) -> bool;

/// A line that may stand in a key file as a secret key: it begins with the
/// prefix, holds no line feed and does not end in a carriage return.
pub open spec fn is_key_line(line: Seq<u8>) -> bool {
    &&& starts_with(line, SECRET_KEY_PREFIX.spec_bytes())
    &&& !line.contains(LF)
    &&& !ends_in_cr(line)
}

/// Whether a carriage return stands at the end of a line. Such a line
/// holds no key: no encoding of a key ends so.
pub open spec fn ends_in_cr(line: Seq<u8>) -> bool {
    line.len() > 0 && line.last() == CR
}

/// `secret` encodes a secret key, and `public` is its recipient string: one
/// line, canonical, and usable to encrypt to.
pub open spec fn identity_pair(secret: Seq<u8>, public: Seq<u8>) -> bool {
    &&& is_key_line(secret)
    &&& x25519_public_of(secret) == Some(public)
    &&& !public.contains(LF)
    &&& recipient_pair(public, public)
}

/// `given` encodes a public key to which data can be encrypted, and
/// `canonical` is its canonical form.
pub open spec fn recipient_pair(given: Seq<u8>, canonical: Seq<u8>) -> bool {
    &&& x25519_recipient_of(given) == Some(canonical)
    &&& x25519_contributes(given)
}

/// A recipient string is usable when it encodes a public key that is not
/// a point of small order.
pub open spec fn is_usable_recipient(given: Seq<u8>) -> bool {
    x25519_recipient_of(given) is Some && x25519_contributes(given)
}

/// Whether every one of the recipient strings encodes a public key.
pub open spec fn all_parse(given: Seq<Seq<u8>>) -> bool {
    forall|i: int| 0 <= i < given.len() ==> x25519_recipient_of(#[trigger] given[i]) is Some
}

/// Whether every one of the recipient strings is usable.
pub open spec fn all_usable(given: Seq<Seq<u8>>) -> bool {
    forall|i: int| 0 <= i < given.len() ==> is_usable_recipient(#[trigger] given[i])
}

/// Whether the recipient string at index `at` is the one for which the
/// list `given` is refused. All strings are read before any key is
/// looked at, so it is the first string that encodes no public key; only
/// where every string encodes one is it the first whose key does not
/// contribute.
pub open spec fn is_refused_recipient(given: Seq<Seq<u8>>, at: int) -> bool {
    &&& 0 <= at < given.len()
    &&& if all_parse(given) {
        &&& !x25519_contributes(given[at])
        &&& forall|j: int| 0 <= j < at ==> x25519_contributes(#[trigger] given[j])
    } else {
        &&& x25519_recipient_of(given[at]) is None
        &&& forall|j: int| 0 <= j < at ==> x25519_recipient_of(#[trigger] given[j]) is Some
    }
}

/// A secret key, with the recipient string that belongs to it. It cannot be
/// copied or printed.
pub struct IdentityKey {
    secret: Vec<u8>,
    public: Vec<u8>,
}

/// A public key to encrypt to.
#[derive(Debug)]
pub struct RecipientKey {
    given: Vec<u8>,
    canonical: Vec<u8>,
}

/// The recipients of one encryption, in their order. There is at least one.
#[derive(Debug)]
pub struct RecipientSet {
    keys: Vec<RecipientKey>,
}

/// Recipients that can be encrypted to: at least one, and each of them a
/// usable key with its canonical form.
pub open spec fn are_recipients(keys: Seq<RecipientKey>) -> bool {
    &&& keys.len() > 0
    &&& forall|i: int|
        0 <= i < keys.len() ==> recipient_pair(
            #[trigger] keys[i].given_text(),
            keys[i].canonical_text(),
        )
}

impl IdentityKey {
    #[verifier::type_invariant]
    spec fn valid(self) -> bool {
        identity_pair(self.secret@, self.public@)
    }

    /// The line that encodes the secret key.
    pub closed spec fn secret_text(self) -> Seq<u8> {
        self.secret@
    }

    /// The recipient string of this key.
    pub closed spec fn public_text(self) -> Seq<u8> {
        self.public@
    }

    /// The line that encodes the secret key. Handle it as a secret.
    pub fn secret(&self) -> (text: &[u8])
        ensures
            text@ == self.secret_text(),
            identity_pair(self.secret_text(), self.public_text()),
    {
        proof {
            use_type_invariant(self);
        }
        self.secret.as_slice()
    }

    /// The recipient string to hand to those who encrypt for this key.
    pub fn public(&self) -> (text: &[u8])
        ensures
            text@ == self.public_text(),
            identity_pair(self.secret_text(), self.public_text()),
    {
        proof {
            use_type_invariant(self);
        }
        self.public.as_slice()
    }
}

impl RecipientKey {
    #[verifier::type_invariant]
    spec fn valid(self) -> bool {
        recipient_pair(self.given@, self.canonical@)
    }

    /// The recipient string as it was given.
    pub closed spec fn given_text(self) -> Seq<u8> {
        self.given@
    }

    /// The recipient string in its canonical form.
    pub closed spec fn canonical_text(self) -> Seq<u8> {
        self.canonical@
    }

    /// The recipient string as it was given.
    pub fn given(&self) -> (text: &[u8])
        ensures
            text@ == self.given_text(),
            recipient_pair(self.given_text(), self.canonical_text()),
    {
        proof {
            use_type_invariant(self);
        }
        self.given.as_slice()
    }

    /// The recipient string in its canonical form, which is the one that
    /// a secret key names as its own.
    pub fn canonical(&self) -> (text: &[u8])
        ensures
            text@ == self.canonical_text(),
            recipient_pair(self.given_text(), self.canonical_text()),
    {
        proof {
            use_type_invariant(self);
        }
        self.canonical.as_slice()
    }
}

/// Calls `age::x25519::Identity::from_str` on `secret` and, where that
/// yields an identity, `to_public` and the recipient's `to_string`. The
/// contract names the outcome and says of such a recipient string what
/// holds of every one: being Bech32 it holds no line feed; it is
/// canonical, so `age::x25519::Recipient::from_str` reads it and
/// `to_string` gives it back; and the public key of a secret key is no
/// point of small order, so a key agreement with it contributes.
#[verifier::external_body]
fn x25519_public(secret: &[u8]) -> (public: Option<Vec<u8>>)
    ensures
        public is Some <==> x25519_public_of(secret@) is Some,
        public matches Some(text) ==> {
            &&& x25519_public_of(secret@) == Some(text@)
            &&& !text@.contains(LF)
            &&& x25519_recipient_of(text@) == Some(text@)
            &&& x25519_contributes(text@)
        },
{
    let text = std::str::from_utf8(secret).ok()?;
    let identity: age::x25519::Identity = text.parse().ok()?;
    Some(identity.to_public().to_string().into_bytes())
}

impl View for RecipientSet {
    type V = Seq<RecipientKey>;

    closed spec fn view(&self) -> Seq<RecipientKey> {
        self.keys@
    }
}

impl RecipientSet {
    #[verifier::type_invariant]
    spec fn valid(self) -> bool {
        are_recipients(self.keys@)
    }

    /// The recipients, in the order in which they were given.
    pub fn keys(&self) -> (keys: &Vec<RecipientKey>)
        ensures
            keys@ == self@,
            are_recipients(self@),
    {
        proof {
            use_type_invariant(self);
        }
        &self.keys
    }
}

/// Calls `age::x25519::Recipient::from_str` on `text` and, where that
/// yields a recipient, its `to_string`. The contract names the outcome.
#[verifier::external_body]
fn x25519_recipient(text: &[u8]) -> (canonical: Option<Vec<u8>>)
    ensures
        canonical is Some <==> x25519_recipient_of(text@) is Some,
        canonical matches Some(form) ==> x25519_recipient_of(text@) == Some(form@),
{
    let recipient: age::x25519::Recipient = std::str::from_utf8(text).ok()?.parse().ok()?;
    Some(recipient.to_string().into_bytes())
}

/// Decodes the recipient string with `bech32::decode` and `from_base32`, as
/// `age` does, and asks `x25519_dalek::SharedSecret::was_contributory` of a
/// key agreement with that public key. With a point of small order the
/// agreement is zero whatever the secret, and `age` panics when it
/// encrypts to such a key. The string must be one that `age` parses. The
/// contract names the answer.
#[verifier::external_body]
fn x25519_contributory(text: &[u8]) -> (contributes: bool)
    requires
        x25519_recipient_of(text@) is Some,
    ensures
        contributes == x25519_contributes(text@),
{
    let encoded = std::str::from_utf8(text).expect("a recipient string is text");
    let (_, data, _) = bech32::decode(encoded).expect("a recipient string is Bech32");
    let bytes: Vec<u8> = bech32::FromBase32::from_base32(&data).expect("a key is whole bytes");
    let point: [u8; 32] = bytes.try_into().expect("a key is 32 bytes");
    let probe = x25519_dalek::StaticSecret::from([0u8; 32]);
    probe.diffie_hellman(&x25519_dalek::PublicKey::from(point)).was_contributory()
}

/// Calls `age::x25519::Identity::generate` and `to_string`, and hands out
/// the secret string as bytes. Which key comes back is left open. The
/// contract says that the string encodes a secret key and is one line
/// that begins with the key prefix, as upper-case Bech32 with that
/// human-readable part is.
#[verifier::external_body]
fn x25519_generate() -> (secret: Vec<u8>)
    ensures
        x25519_public_of(secret@) is Some,
        is_key_line(secret@),
{
    let identity = age::x25519::Identity::generate();
    age::secrecy::ExposeSecret::expose_secret(&identity.to_string()).as_bytes().to_vec()
}

/// The key prefix is 15 bytes, and the first is the letter A.
pub proof fn lemma_key_prefix_bytes()
    ensures
        SECRET_KEY_PREFIX.spec_bytes().len() == 15,
        SECRET_KEY_PREFIX.spec_bytes()[0] == 0x41u8,
{
    reveal_strlit("AGE-SECRET-KEY-");
    let prefix = SECRET_KEY_PREFIX@;
    assert(vstd::utf8::is_ascii_chars(prefix)) by {
        assert forall|i: int| 0 <= i < prefix.len() implies (0 <= #[trigger] (prefix[i] as nat)
            < 128) by {}
    }
    vstd::utf8::is_ascii_chars_encode_utf8(prefix);
}

/// Whether a line of a key file is one that must hold a secret key.
pub open spec fn is_significant(line: Seq<u8>) -> bool {
    starts_with(line, SECRET_KEY_PREFIX.spec_bytes())
}

/// Whether a significant line holds a secret key.
pub open spec fn holds_key(line: Seq<u8>) -> bool {
    !ends_in_cr(line) && x25519_public_of(line) is Some
}

/// The secret keys that `lines` hold, in their order; `None` where a
/// significant line holds no key. Other lines are passed over.
pub open spec fn keys_in(lines: Seq<Seq<u8>>) -> Option<Seq<Seq<u8>>>
    decreases lines.len(),
{
    if lines.len() == 0 {
        Some(Seq::empty())
    } else {
        match keys_in(lines.drop_last()) {
            None => None,
            Some(found) => if !is_significant(lines.last()) {
                Some(found)
            } else if holds_key(lines.last()) {
                Some(found.push(lines.last()))
            } else {
                None
            },
        }
    }
}

/// What reading a key file yields: its secret keys in the order of their
/// lines, or the reason why there are none.
pub open spec fn key_file_keys(text: Seq<u8>) -> Result<Seq<Seq<u8>>, Error> {
    match keys_in(lines_of(text)) {
        None => Err(Error::FormatError(Malformed::IdentityLine)),
        Some(found) => if found.len() == 0 {
            Err(Error::NoIdentity)
        } else {
            Ok(found)
        },
    }
}

/// The secret lines of a vector of keys.
pub open spec fn secret_texts(keys: Seq<IdentityKey>) -> Seq<Seq<u8>> {
    keys.map_values(|key: IdentityKey| key.secret_text())
}

/// The recipient strings of a vector of recipients, as they were given.
pub open spec fn given_texts(keys: Seq<RecipientKey>) -> Seq<Seq<u8>> {
    keys.map_values(|key: RecipientKey| key.given_text())
}

/// The canonical recipient strings of a vector of recipients.
pub open spec fn canonical_texts(keys: Seq<RecipientKey>) -> Seq<Seq<u8>> {
    keys.map_values(|key: RecipientKey| key.canonical_text())
}

/// Once a significant line holds no key, no later line mends it.
pub proof fn lemma_keys_in_fails_on(lines: Seq<Seq<u8>>, upto: int)
    requires
        0 <= upto <= lines.len(),
        keys_in(lines.subrange(0, upto)) is None,
    ensures
        keys_in(lines) is None,
    decreases lines.len() - upto,
{
    if upto == lines.len() {
        assert(lines.subrange(0, upto) =~= lines);
    } else {
        assert(lines.subrange(0, upto + 1).drop_last() =~= lines.subrange(0, upto));
        lemma_keys_in_fails_on(lines, upto + 1);
    }
}

/// Lines of which none is significant hold no key, and none is in error.
pub proof fn lemma_comments_hold_no_keys(lines: Seq<Seq<u8>>)
    requires
        forall|i: int| 0 <= i < lines.len() ==> !is_significant(#[trigger] lines[i]),
    ensures
        keys_in(lines) == Some(Seq::<Seq<u8>>::empty()),
    decreases lines.len(),
{
    if lines.len() > 0 {
        let front = lines.drop_last();
        assert forall|i: int| 0 <= i < front.len() implies !is_significant(
            #[trigger] front[i],
        ) by {
            assert(front[i] == lines[i]);
        }
        lemma_comments_hold_no_keys(front);
        assert(lines.last() == lines[lines.len() - 1]);
    }
}

/// A key file of which no line begins with the key prefix holds no
/// identity, whatever else it holds.
pub proof fn lemma_no_key_line_no_identity(text: Seq<u8>)
    requires
        forall|i: int|
            0 <= i < lines_of(text).len() ==> !is_significant(#[trigger] lines_of(text)[i]),
    ensures
        key_file_keys(text) == Err::<Seq<Seq<u8>>, Error>(Error::NoIdentity),
{
    lemma_comments_hold_no_keys(lines_of(text));
}

/// Reads a key file. Only lines that begin with the key prefix count;
/// blank lines, comments and anything else are passed over. A line that
/// counts and holds no key is an error, for it tells of a damaged file.
/// The keys come in the order of their lines, which is the order in which
/// decryption tries them.
pub fn parse_identities(key_file_text: &str) -> (parsed: Result<Vec<IdentityKey>, Error>)
    ensures
        match key_file_keys(key_file_text.spec_bytes()) {
            Ok(secrets) => parsed matches Ok(keys) && secret_texts(keys@) == secrets && forall|
                i: int,
            |
                0 <= i < keys@.len() ==> identity_pair(
                    #[trigger] keys@[i].secret_text(),
                    keys@[i].public_text(),
                ),
            Err(reason) => parsed matches Err(e) && e == reason,
        },
{
    let text = key_file_text.as_bytes();
    let lines = split_lines(text);
    let mut keys: Vec<IdentityKey> = Vec::new();
    let mut i: usize = 0;
    assert(texts(lines@).subrange(0, 0) =~= Seq::<Seq<u8>>::empty());
    assert(secret_texts(keys@) =~= Seq::<Seq<u8>>::empty());
    while i < lines.len()
        invariant
            i <= lines.len(),
            text@ == key_file_text.spec_bytes(),
            texts(lines@) == lines_of(text@),
            keys_in(texts(lines@).subrange(0, i as int)) == Some(secret_texts(keys@)),
            forall|k: int|
                0 <= k < keys@.len() ==> identity_pair(
                    #[trigger] keys@[k].secret_text(),
                    keys@[k].public_text(),
                ),
        decreases lines.len() - i,
    {
        let line = lines[i].as_slice();
        let ghost seen = texts(lines@).subrange(0, i + 1);
        let ghost before = secret_texts(keys@);
        proof {
            assert(seen.drop_last() =~= texts(lines@).subrange(0, i as int));
            assert(seen.last() == line@);
            lemma_lines_hold_no_lf(text@, i as int);
        }
        if has_prefix(line, SECRET_KEY_PREFIX.as_bytes()) {
            let cut = line.len() > 0 && line[line.len() - 1] == CR;
            let public = if cut {
                None
            } else {
                x25519_public(line)
            };
            match public {
                None => {
                    proof {
                        assert(keys_in(seen) is None);
                        lemma_keys_in_fails_on(texts(lines@), i + 1);
                    }
                    return Err(Error::FormatError(Malformed::IdentityLine));
                },
                Some(public) => {
                    let key = IdentityKey { secret: vstd::slice::slice_to_vec(line), public };
                    keys.push(key);
                    assert(secret_texts(keys@) =~= before.push(line@));
                },
            }
        }
        i += 1;
    }
    assert(texts(lines@).subrange(0, i as int) =~= texts(lines@));
    if keys.len() == 0 {
        Err(Error::NoIdentity)
    } else {
        Ok(keys)
    }
}

/// The recipient string of the first secret key of a key file. The whole
/// file is read first, so a damaged line anywhere fails the call.
pub fn extract_recipient(key_file_text: &str) -> (found: Result<Vec<u8>, Error>)
    ensures
        match key_file_keys(key_file_text.spec_bytes()) {
            Ok(secrets) => found matches Ok(text) && x25519_public_of(secrets[0]) == Some(
                text@,
            ),
            Err(reason) => found matches Err(e) && e == reason,
        },
{
    match parse_identities(key_file_text) {
        Err(e) => Err(e),
        Ok(keys) => {
            assert(secret_texts(keys@)[0] == keys@[0].secret_text());
            Ok(vstd::slice::slice_to_vec(keys[0].public()))
        },
    }
}

/// Makes a new secret key. Which one is left to the random source of the
/// system.
pub fn generate_identity() -> (key: IdentityKey)
    ensures
        identity_pair(key.secret_text(), key.public_text()),
{
    let secret = x25519_generate();
    match x25519_public(secret.as_slice()) {
        Some(public) => IdentityKey { secret, public },
        None => {
            assert(false);
            IdentityKey { secret, public: Vec::new() }
        },
    }
}

/// The bytes of the recipient strings `strings`.
pub open spec fn string_bytes(strings: Seq<String>) -> Seq<Seq<u8>> {
    strings.map_values(|s: String| encode_utf8(s@))
}

/// Reads a list of recipient strings. The list must not be empty, and
/// every string must be usable. All strings are read first, and the
/// first that encodes no public key fails the call; then the first key
/// that cannot be encrypted to does. The error names the string. There
/// is no partial success.
pub fn parse_recipients(strings: &Vec<String>) -> (parsed: Result<RecipientSet, Error>)
    ensures
        match parsed {
            Ok(set) => {
                &&& strings@.len() > 0
                &&& given_texts(set@) == string_bytes(strings@)
                &&& are_recipients(set@)
            },
            Err(e) => if strings@.len() == 0 {
                e == Error::InvalidArguments
            } else {
                exists|at: int| #[trigger]
                    is_refused_recipient(string_bytes(strings@), at) && e == Error::FormatError(
                        Malformed::Recipient(strings@[at]),
                    )
            },
        },
{
    let ghost given = string_bytes(strings@);
    let mut forms: Vec<Vec<u8>> = Vec::new();
    let mut i: usize = 0;
    while i < strings.len()
        invariant
            i <= strings.len(),
            given == string_bytes(strings@),
            forms@.len() == i,
            forall|j: int| 0 <= j < i ==> x25519_recipient_of(#[trigger] given[j]) == Some(forms@[j]@),
        decreases strings.len() - i,
    {
        let text = strings[i].as_str().as_bytes();
        assert(text@ == given[i as int]);
        match x25519_recipient(text) {
            None => {
                let named = strings[i].clone();
                assert(is_refused_recipient(given, i as int));
                return Err(Error::FormatError(Malformed::Recipient(named)));
            },
            Some(canonical) => {
                forms.push(canonical);
            },
        }
        i += 1;
    }
    assert(all_parse(given));
    let mut keys: Vec<RecipientKey> = Vec::new();
    let mut k: usize = 0;
    assert(given_texts(keys@) =~= given.subrange(0, 0));
    while k < strings.len()
        invariant
            k <= strings.len(),
            given == string_bytes(strings@),
            all_parse(given),
            forms@.len() == strings.len(),
            forall|j: int|
                0 <= j < forms@.len() ==> x25519_recipient_of(#[trigger] given[j]) == Some(
                    forms@[j]@,
                ),
            keys@.len() == k,
            forall|j: int| 0 <= j < k ==> x25519_contributes(#[trigger] given[j]),
            given_texts(keys@) == given.subrange(0, k as int),
            forall|j: int|
                0 <= j < k ==> recipient_pair(
                    #[trigger] keys@[j].given_text(),
                    keys@[j].canonical_text(),
                ),
        decreases strings.len() - k,
    {
        let text = strings[k].as_str().as_bytes();
        let ghost before = given_texts(keys@);
        assert(text@ == given[k as int]);
        if !x25519_contributory(text) {
            let named = strings[k].clone();
            assert(is_refused_recipient(given, k as int));
            return Err(Error::FormatError(Malformed::Recipient(named)));
        }
        let key = RecipientKey {
            given: vstd::slice::slice_to_vec(text),
            canonical: vstd::slice::slice_to_vec(forms[k].as_slice()),
        };
        keys.push(key);
        proof {
            assert(given_texts(keys@) =~= before.push(text@));
            assert(given.subrange(0, k + 1) =~= given.subrange(0, k as int).push(text@));
        }
        k += 1;
    }
    assert(given.subrange(0, k as int) =~= given);
    if keys.len() == 0 {
        Err(Error::InvalidArguments)
    } else {
        Ok(RecipientSet { keys })
    }
}

} // verus!
