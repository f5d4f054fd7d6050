//! Fixed-width hex encoding and decoding of byte buffers.
//!
//! Text is modelled by its characters (`Seq<char>`) where it is produced and by
//! its UTF-8 bytes (`Seq<u8>`) where it is read, since decoding works byte by
//! byte.

use vstd::prelude::*;
use vstd::string::*;
use vstd::utf8::*;

verus! {

/// The one way in which decoding fails.
#[derive(Debug, Clone, Copy, PartialEq, Eq)]
pub enum DecodeError {
    /// A character is no hex digit, or the text ends too early.
    Malformed,
}

/// ASCII code of `0`.
pub const DIGIT_ZERO: u8 = 0x30;

/// ASCII code of `9`.
pub const DIGIT_NINE: u8 = 0x39;

/// ASCII code of `A`.
pub const UPPER_A: u8 = 0x41;

/// ASCII code of `F`.
pub const UPPER_F: u8 = 0x46;

/// ASCII code of `a`.
pub const LOWER_A: u8 = 0x61;

/// ASCII code of `f`.
pub const LOWER_F: u8 = 0x66;

/// ASCII code of the lowercase hex digit that stands for `nibble`.
pub open spec fn digit_of(nibble: int) -> u8 {
    if nibble < 10 {
        (DIGIT_ZERO + nibble) as u8
    } else {
        (LOWER_A + nibble - 10) as u8
    }
}

/// The value of the hex digit with ASCII code `ch`, in either case.
pub open spec fn nibble_of(ch: u8) -> Option<u8> {
    if DIGIT_ZERO <= ch <= DIGIT_NINE {
        Some((ch - DIGIT_ZERO) as u8)
    } else if LOWER_A <= ch <= LOWER_F {
        Some((ch - LOWER_A + 10) as u8)
    } else if UPPER_A <= ch <= UPPER_F {
        Some((ch - UPPER_A + 10) as u8)
    } else {
        None
    }
}

/// The character at position `i` of the hex encoding of `data`: two per byte,
/// the high nibble first.
pub open spec fn hex_char_at(data: Seq<u8>, i: int) -> char {
    if i % 2 == 0 {
        digit_of(data[i / 2] as int / 16) as char
    } else {
        digit_of(data[i / 2] as int % 16) as char
    }
}

/// The lowercase hex encoding of `data`.
pub open spec fn hex_text(data: Seq<u8>) -> Seq<char> {
    Seq::new(2 * data.len(), |i: int| hex_char_at(data, i))
}

/// The first `count` bytes of `text` exist and are hex digits.
pub open spec fn is_hex_prefix(text: Seq<u8>, count: nat) -> bool {
    &&& count <= text.len()
    &&& forall|i: int| 0 <= i < count ==> (#[trigger] nibble_of(text[i])) is Some
}

/// The byte that the digits at positions `2 * i` and `2 * i + 1` of `text` spell.
pub open spec fn byte_at(text: Seq<u8>, i: int) -> u8 {
    (16 * nibble_of(text[2 * i])->0 + nibble_of(text[2 * i + 1])->0) as u8
}

/// What decoding `out_len` bytes from the front of `text` gives: the bytes
/// spelled by its first `2 * out_len` digits, or nothing if one of them is
/// missing or is no hex digit. What follows those digits is not looked at.
pub open spec fn dehex(text: Seq<u8>, out_len: nat) -> Option<Seq<u8>> {
    if is_hex_prefix(text, 2 * out_len) {
        Some(Seq::new(out_len, |i: int| byte_at(text, i)))
    } else {
        None
    }
}

/// The one-character string for a nibble.
fn digit_str(nibble: u8) -> (s: &'static str)
    requires
        nibble < 16,
    ensures
        s@ == seq![digit_of(nibble as int) as char],
{
    proof {
        reveal_strlit("0");
        reveal_strlit("1");
        reveal_strlit("2");
        reveal_strlit("3");
        reveal_strlit("4");
        reveal_strlit("5");
        reveal_strlit("6");
        reveal_strlit("7");
        reveal_strlit("8");
        reveal_strlit("9");
        reveal_strlit("a");
        reveal_strlit("b");
        reveal_strlit("c");
        reveal_strlit("d");
        reveal_strlit("e");
        reveal_strlit("f");
    }
    let s = match nibble {
        0 => "0",
        1 => "1",
        2 => "2",
        3 => "3",
        4 => "4",
        5 => "5",
        6 => "6",
        7 => "7",
        8 => "8",
        9 => "9",
        10 => "a",
        11 => "b",
        12 => "c",
        13 => "d",
        14 => "e",
        _ => "f",
    };
    assert(s@ =~= seq![digit_of(nibble as int) as char]);
    s
}

/// Encodes `data` as lowercase hex, two characters per byte, high nibble first.
pub fn hex(data: &[u8]) -> (text: String)
    ensures
        text@ == hex_text(data@),
{
    let mut text = String::new();
    let mut i: usize = 0;
    while i < data.len()
        invariant
            i <= data.len(),
            text@.len() == 2 * i,
            forall|k: int| 0 <= k < 2 * i ==> text@[k] == hex_char_at(data@, k),
        decreases data.len() - i,
    {
        let byte: u8 = data[i];
        let high: u8 = byte >> 4;
        let low: u8 = byte & 0xF;
        assert(high == byte / 16 && low == byte % 16 && high < 16 && low < 16) by (bit_vector)
            requires
                high == byte >> 4,
                low == byte & 0xF,
        ;
        text.append(digit_str(high));
        text.append(digit_str(low));
        i = i + 1;
    }
    assert(text@ =~= hex_text(data@));
    text
}

/// The value of the hex digit `ch`, upper or lower case.
pub fn nibble_from_char(ch: u8) -> (res: Result<u8, DecodeError>)
    ensures
        res is Ok <==> nibble_of(ch) is Some,
        res matches Ok(n) ==> nibble_of(ch) == Some(n) && n < 16,
{
    if UPPER_A <= ch && ch <= UPPER_F {
        Ok(ch - UPPER_A + 10)
    } else if LOWER_A <= ch && ch <= LOWER_F {
        Ok(ch - LOWER_A + 10)
    } else if DIGIT_ZERO <= ch && ch <= DIGIT_NINE {
        Ok(ch - DIGIT_ZERO)
    } else {
        Err(DecodeError::Malformed)
    }
}

/// Decodes exactly `out_len` bytes from the first `2 * out_len` characters of
/// `val` and ignores what follows them. Fails when one of those characters is
/// missing or is no hex digit.
pub fn dehex_fixed_size(val: &str, out_len: usize) -> (res: Result<Vec<u8>, DecodeError>)
    ensures
        res is Ok <==> dehex(val.spec_bytes(), out_len as nat) is Some,
        res matches Ok(bytes) ==> dehex(val.spec_bytes(), out_len as nat) == Some(bytes@)
            && bytes@.len() == out_len,
{
    let text = val.as_bytes();
    if text.len() / 2 < out_len {
        return Err(DecodeError::Malformed);
    }
    let mut out: Vec<u8> = Vec::new();
    let mut i: usize = 0;
    while i < out_len
        invariant
            i <= out_len,
            2 * out_len <= text.len(),
            text@ == val.spec_bytes(),
            out@.len() == i,
            is_hex_prefix(text@, (2 * i) as nat),
            forall|k: int| 0 <= k < i ==> out@[k] == byte_at(text@, k),
        decreases out_len - i,
    {
        let high: u8 = match nibble_from_char(text[2 * i]) {
            Ok(n) => n,
            Err(e) => {
                assert(nibble_of(text@[2 * i]) is None);
                return Err(e);
            },
        };
        let low: u8 = match nibble_from_char(text[2 * i + 1]) {
            Ok(n) => n,
            Err(e) => {
                assert(nibble_of(text@[2 * i + 1]) is None);
                return Err(e);
            },
        };
        let byte: u8 = (high << 4) | low;
        assert(byte == 16 * high + low) by (bit_vector)
            requires
                byte == (high << 4) | low,
                high < 16,
                low < 16,
        ;
        out.push(byte);
        i = i + 1;
    }
    assert(out@ =~= Seq::new(out_len as nat, |k: int| byte_at(text@, k)));
    Ok(out)
}

/// Decoding looks at the first `2 * out_len` bytes only: two texts that agree
/// on them decode alike, whatever follows.
pub proof fn lemma_dehex_reads_prefix_only(first: Seq<u8>, second: Seq<u8>, out_len: nat)
    requires
        2 * out_len <= first.len(),
        2 * out_len <= second.len(),
        first.subrange(0, 2 * out_len as int) == second.subrange(0, 2 * out_len as int),
    ensures
        dehex(first, out_len) == dehex(second, out_len),
{
    assert forall|i: int| 0 <= i < 2 * out_len implies first[i] == second[i] by {
        assert(first[i] == first.subrange(0, 2 * out_len as int)[i]);
        assert(second[i] == second.subrange(0, 2 * out_len as int)[i]);
    }
    if is_hex_prefix(first, 2 * out_len) {
        assert(is_hex_prefix(second, 2 * out_len));
        assert(Seq::new(out_len, |i: int| byte_at(first, i)) =~= Seq::new(
            out_len,
            |i: int| byte_at(second, i),
        ));
    } else {
        let bad: int = choose|i: int| 0 <= i < 2 * out_len && nibble_of(first[i]) is None;
        assert(nibble_of(second[bad]) is None);
    }
}

/// Every character of a hex encoding is ASCII.
pub proof fn lemma_hex_text_is_ascii(data: Seq<u8>)
    ensures
        is_ascii_chars(hex_text(data)),
        hex_text(data).len() == 2 * data.len(),
{
}

/// The UTF-8 bytes of a hex encoding are its digits, one byte each.
pub proof fn lemma_hex_text_bytes(data: Seq<u8>)
    ensures
        encode_utf8(hex_text(data)).len() == 2 * data.len(),
        forall|i: int|
            0 <= i < 2 * data.len() ==> #[trigger] encode_utf8(hex_text(data))[i] == hex_char_at(
                data,
                i,
            ) as u8,
{
    lemma_hex_text_is_ascii(data);
    is_ascii_chars_encode_utf8(hex_text(data));
}

/// Decoding undoes encoding: for every byte buffer, decoding as many bytes as
/// it holds from its hex encoding gives the buffer back.
pub proof fn lemma_hex_round_trip(data: Seq<u8>)
    ensures
        dehex(encode_utf8(hex_text(data)), data.len()) == Some(data),
{
    let text = encode_utf8(hex_text(data));
    lemma_hex_text_bytes(data);
    assert forall|i: int| 0 <= i < 2 * data.len() implies (#[trigger] nibble_of(text[i])) is Some by {
        assert(text[i] == hex_char_at(data, i) as u8);
    }
    assert(is_hex_prefix(text, 2 * data.len()));
    assert forall|k: int| 0 <= k < data.len() implies byte_at(text, k) == data[k] by {
        assert(text[2 * k] == hex_char_at(data, 2 * k) as u8);
        assert(text[2 * k + 1] == hex_char_at(data, 2 * k + 1) as u8);
    }
    assert(Seq::new(data.len(), |k: int| byte_at(text, k)) =~= data);
}

} // verus!
