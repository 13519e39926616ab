//! Repair of text that was UTF-8, was read through a Latin-1 codec, and now
//! shows one character for each byte of the original.

use encoding::all::{ISO_8859_1, UTF_8};
use encoding::{DecoderTrap, EncoderTrap, Encoding};
use vstd::prelude::*;
use vstd::utf8::*;

verus! {

/// Why a text cannot be repaired.
#[derive(Debug, Clone, Copy, PartialEq, Eq, Structural)]
pub enum EncodingRepairError {
    /// The text holds a character above U+00FF, so it never went through the
    /// single-byte codec.
    NotLatin1,
    /// The text's characters, taken as bytes, are not well-formed UTF-8.
    InvalidUtf8,
}

/// Every character of `text` fits in one byte.
pub open spec fn is_latin1(text: Seq<char>) -> bool {
    forall|i: int| 0 <= i < text.len() ==> (#[trigger] text[i]) as u32 <= 0xFF
}

/// The bytes that stand for `text` in Latin-1: one per character.
pub open spec fn latin1_bytes(text: Seq<char>) -> Seq<u8> {
    Seq::new(text.len(), |i: int| text[i] as u8)
}

/// What a text looks like after the corruption: one character per byte of its
/// UTF-8 encoding.
pub open spec fn mojibake(text: Seq<char>) -> Seq<char> {
    Seq::new(encode_utf8(text).len(), |i: int| encode_utf8(text)[i] as char)
}

/// The repaired text: its characters as Latin-1 bytes, read as UTF-8.
pub open spec fn repaired(text: Seq<char>) -> Result<Seq<char>, EncodingRepairError> {
    if !is_latin1(text) {
        Err(EncodingRepairError::NotLatin1)
    } else if !valid_utf8(latin1_bytes(text)) {
        Err(EncodingRepairError::InvalidUtf8)
    } else {
        Ok(decode_utf8(latin1_bytes(text)))
    }
}

/// `ISO_8859_1.encode` of the `encoding` crate with `EncoderTrap::Strict`.
/// Trusted: the encoder writes one byte per character, the character's own
/// number, and fails on the first character above U+00FF.
#[verifier::external_body]
fn latin1_encode(text: &str) -> (r: Option<Vec<u8>>)
    ensures
        r is Some <==> is_latin1(text@),
        r matches Some(bytes) ==> bytes@ == latin1_bytes(text@),
{
    ISO_8859_1.encode(text, EncoderTrap::Strict).ok()
}

/// `UTF_8.decode` of the `encoding` crate with `DecoderTrap::Strict`.
/// Trusted: the decoder accepts exactly the well-formed UTF-8 sequences and
/// returns the characters they encode.
#[verifier::external_body]
fn utf8_decode(bytes: &[u8]) -> (r: Option<String>)
    ensures
        r is Some <==> valid_utf8(bytes@),
        r matches Some(text) ==> text@ == decode_utf8(bytes@),
{
    UTF_8.decode(bytes, DecoderTrap::Strict).ok()
}

/// Repairs `raw_string`, or says why it cannot be repaired. There is no
/// fallback to the unrepaired text.
pub fn demojibake(raw_string: &str) -> (r: Result<String, EncodingRepairError>)
    ensures
        r matches Ok(text) ==> repaired(raw_string@) == Ok::<Seq<char>, EncodingRepairError>(text@),
        r matches Err(e) ==> repaired(raw_string@) == Err::<Seq<char>, EncodingRepairError>(e),
{
    match latin1_encode(raw_string) {
        None => Err(EncodingRepairError::NotLatin1),
        Some(bytes) => match utf8_decode(bytes.as_slice()) {
            None => Err(EncodingRepairError::InvalidUtf8),
            Some(text) => Ok(text),
        },
    }
}

/// Text of 7-bit ASCII alone is repaired to itself.
pub proof fn lemma_repair_keeps_ascii(text: Seq<char>)
    requires
        is_ascii_chars(text),
    ensures
        repaired(text) == Ok::<Seq<char>, EncodingRepairError>(text),
{
    is_ascii_chars_encode_utf8(text);
    is_ascii_chars_nat_bound(text);
    assert(latin1_bytes(text) =~= encode_utf8(text));
    encode_utf8_valid_utf8(text);
    encode_utf8_decode_utf8(text);
}

/// Repair undoes the corruption: whatever the original text was, its
/// corrupted form is repaired to it.
pub proof fn lemma_repair_recovers_original(original: Seq<char>)
    ensures
        repaired(mojibake(original)) == Ok::<Seq<char>, EncodingRepairError>(original),
{
    let bytes = encode_utf8(original);
    assert forall|i: int| 0 <= i < bytes.len() implies (bytes[i] as char) as u32 <= 0xFF
        && (bytes[i] as char) as u8 == bytes[i] by {
        let b = bytes[i];
        assert((b as char) as u32 == b as u32);
    }
    assert(is_latin1(mojibake(original)));
    assert(latin1_bytes(mojibake(original)) =~= bytes);
    encode_utf8_valid_utf8(original);
    encode_utf8_decode_utf8(original);
}

} // verus!
