//! The ways in which an operation of this library fails.

use vstd::prelude::*;
use vstd::string::*;
use vstd::utf8::encode_utf8;

verus! {

/// What a piece of input was expected to be when it did not parse.
#[derive(Debug, Clone, PartialEq, Eq)]
pub enum Malformed {
    /// The textual envelope of an armored container.
    Armor,
    /// The base64 text that carries a binary container in a string.
    Base64Text,
    /// The header of a binary container.
    Container,
    /// A line of a key file that begins like a secret key.
    IdentityLine,
    /// A recipient string; the field holds the string as it was given.
    Recipient(String),
}

/// Every failure is final for the call that reports it, and none leaves a
/// partial result behind.
#[derive(Debug, Clone, PartialEq, Eq)]
pub enum Error {
    /// No authentication mode, two of them, or an empty list of recipients.
    InvalidArguments,
    /// Reading or writing the underlying data failed.
    IOFailure,
    /// Some input does not parse.
    FormatError(Malformed),
    /// A key file holds no secret key.
    NoIdentity,
    /// No credential unwraps the file key, or the payload is not authentic.
    DecryptionFailure,
    /// The decrypted payload is not text where text was asked for.
    EncodingFailure,
}

/// A result that holds bytes, as plain values.
pub open spec fn plain(result: Result<Vec<u8>, Error>) -> Result<Seq<u8>, Error> {
    match result {
        Ok(bytes) => Ok(bytes@),
        Err(reason) => Err(reason),
    }
}

/// A result that holds text, as the bytes of the text.
pub open spec fn plain_text(result: Result<String, Error>) -> Result<Seq<u8>, Error> {
    match result {
        Ok(text) => Ok(encode_utf8(text@)),
        Err(reason) => Err(reason),
    }
}

/// A result that holds text, as the characters of the text.
pub open spec fn plain_chars(result: Result<String, Error>) -> Result<Seq<char>, Error> {
    match result {
        Ok(text) => Ok(text@),
        Err(reason) => Err(reason),
    }
}

impl Error {
    /// The text of `message`, as a sequence of characters.
    pub open spec fn message_text(self) -> Seq<char> {
        match self {
            Error::InvalidArguments => "invalid arguments"@,
            Error::IOFailure => "input or output failed"@,
            Error::FormatError(Malformed::Armor) => "malformed armor"@,
            Error::FormatError(Malformed::Base64Text) => "malformed base64 text"@,
            Error::FormatError(Malformed::Container) => "malformed container"@,
            Error::FormatError(Malformed::IdentityLine) => "malformed secret key line"@,
            Error::FormatError(Malformed::Recipient(given)) => "invalid recipient: "@ + given@,
            Error::NoIdentity => "no secret key found"@,
            Error::DecryptionFailure => "decryption failed"@,
            Error::EncodingFailure => "decrypted data is not text"@,
        }
    }

    /// A short description for people. A secret never appears in it: of all
    /// inputs only a rejected recipient string is quoted.
    pub fn message(&self) -> (text: String)
        ensures
            text@ == self.message_text(),
    {
        match self {
            Error::InvalidArguments => String::from_str("invalid arguments"),
            Error::IOFailure => String::from_str("input or output failed"),
            Error::FormatError(Malformed::Armor) => String::from_str("malformed armor"),
            Error::FormatError(Malformed::Base64Text) => String::from_str("malformed base64 text"),
            Error::FormatError(Malformed::Container) => String::from_str("malformed container"),
            Error::FormatError(Malformed::IdentityLine) => String::from_str(
                "malformed secret key line",
            ),
            Error::FormatError(Malformed::Recipient(given)) => {
                let mut text = String::from_str("invalid recipient: ");
                text.append(given.as_str());
                text
            },
            Error::NoIdentity => String::from_str("no secret key found"),
            Error::DecryptionFailure => String::from_str("decryption failed"),
            Error::EncodingFailure => String::from_str("decrypted data is not text"),
        }
    }
}

} // verus!
