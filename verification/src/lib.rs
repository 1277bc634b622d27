//! Encryption of files and strings for a set of recipients or under a
//! passphrase, in the age container format, binary or ASCII-armored.

pub mod armor;
pub mod cipher;
pub mod engine;
pub mod error;
pub mod format;
pub mod keyfile;
pub mod keys;
pub mod lines;
pub mod ops;
pub mod transport;
