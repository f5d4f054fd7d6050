//! Interpretation of a salt as the user typed it.
//!
//! A salt text stands for sixteen raw bytes in one of two shapes: sixteen bytes
//! of text are the salt itself, thirty-two bytes of text are its hex encoding.
//! Lengths are counted in UTF-8 bytes, not in characters.

use vstd::prelude::*;
use vstd::string::*;
use vstd::utf8::*;
use crate::hex::{dehex, dehex_fixed_size, hex_text, lemma_hex_round_trip, lemma_hex_text_bytes, nibble_of};

verus! {

/// Number of bytes in a raw salt.
pub const SALT_LEN: usize = 16;

/// The one way in which a salt text is refused.
#[derive(Debug, Clone, Copy, PartialEq, Eq)]
pub enum SaltError {
    /// The text is neither sixteen bytes long nor thirty-two hex digits.
    Invalid,
}

/// The raw salt that a text with the UTF-8 bytes `text` stands for, if any.
pub open spec fn resolve(text: Seq<u8>) -> Option<Seq<u8>> {
    if text.len() == SALT_LEN {
        Some(text)
    } else if text.len() == 2 * SALT_LEN {
        dehex(text, SALT_LEN as nat)
    } else {
        None
    }
}

/// Copies sixteen bytes into a fixed buffer.
fn raw_salt(bytes: &[u8]) -> (salt: [u8; 16])
    requires
        bytes@.len() == SALT_LEN,
    ensures
        salt@ == bytes@,
{
    let mut salt: [u8; 16] = [0u8; 16];
    let mut i: usize = 0;
    while i < SALT_LEN
        invariant
            i <= SALT_LEN,
            bytes@.len() == SALT_LEN,
            forall|k: int| 0 <= k < i ==> salt@[k] == bytes@[k],
        decreases SALT_LEN - i,
    {
        salt[i] = bytes[i];
        i = i + 1;
    }
    assert(salt@ =~= bytes@);
    salt
}

/// Turns a salt text into the sixteen raw bytes it stands for.
///
/// A text of sixteen bytes is taken literally, also where its bytes look like
/// hex digits. A text of thirty-two bytes is decoded as hex. Every other text
/// is refused.
pub fn compute_salt(s: &str) -> (res: Result<[u8; 16], SaltError>)
    ensures
        res is Ok <==> resolve(s.spec_bytes()) is Some,
        res matches Ok(salt) ==> resolve(s.spec_bytes()) == Some(salt@),
{
    let text = s.as_bytes();
    if text.len() == SALT_LEN {
        return Ok(raw_salt(text));
    }
    if text.len() == 2 * SALT_LEN {
        if let Ok(decoded) = dehex_fixed_size(s, SALT_LEN) {
            if decoded.len() == SALT_LEN {
                return Ok(raw_salt(decoded.as_slice()));
            }
        }
    }
    Err(SaltError::Invalid)
}

/// A resolved salt is sixteen bytes long, whichever shape the text had.
pub proof fn lemma_resolved_len(text: Seq<u8>)
    ensures
        resolve(text) matches Some(salt) ==> salt.len() == SALT_LEN,
{
}

/// A text of sixteen bytes stands for itself, whether or not its bytes look
/// like hex digits.
pub proof fn lemma_resolve_literal(text: Seq<u8>)
    requires
        text.len() == SALT_LEN,
    ensures
        resolve(text) == Some(text),
{
}

/// A text is accepted exactly when it is sixteen bytes long, or thirty-two
/// bytes long and made of hex digits only.
pub proof fn lemma_resolve_accepts(text: Seq<u8>)
    ensures
        resolve(text) is Some <==> text.len() == SALT_LEN || (text.len() == 2 * SALT_LEN
            && forall|i: int| 0 <= i < text.len() ==> (#[trigger] nibble_of(text[i])) is Some),
{
}

/// The hex encoding of a raw salt stands for that salt.
pub proof fn lemma_resolve_hex_of_raw(raw: Seq<u8>)
    requires
        raw.len() == SALT_LEN,
    ensures
        resolve(encode_utf8(hex_text(raw))) == Some(raw),
{
    lemma_hex_text_bytes(raw);
    lemma_hex_round_trip(raw);
}

} // verus!
