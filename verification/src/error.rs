//! The failures that the codecs report.

use vstd::prelude::*;

verus! {

#[verifier::external_type_specification]
#[verifier::external_body]
pub struct ExIoErrorKind(std::io::ErrorKind);

/// The step of the text codec that failed.
#[derive(Debug, PartialEq, Eq)]
pub enum LzErrorKind {
    /// The text is too long for the codec's 32-bit dictionary codes.
    Compression,
    /// The text is made of base64 symbols, but they do not form a compressed stream.
    Decompression,
    /// The text holds a character outside the base64 alphabet.
    Alphabet,
    /// The decompressed code units are not valid UTF-16.
    Utf16,
}

/// A failure of one of the codecs.
#[derive(Debug, PartialEq, Eq)]
pub enum Error {
    /// The compressed-text codec failed.
    Lz(LzErrorKind),
    /// The JSON text is malformed; the message is the parser's.
    Json(String),
    /// The key text is not 32 hexadecimal digits.
    Key(String),
    /// Reading or writing failed.
    Io(std::io::ErrorKind),
    /// The asset is shorter than its two 16-byte header blocks.
    Truncated,
}

} // verus!
