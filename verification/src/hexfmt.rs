//! Lowercase hexadecimal text of byte strings, by the hex crate.
use vstd::prelude::*;
use crate::encoding::{decimal, utf8};

verus! {

/// The lowercase hexadecimal digit for a value below 16.
pub open spec fn hex_char(d: nat) -> char {
    if d < 10 {
        (48 + d) as char
    } else {
        (87 + d) as char
    }
}

/// Lowercase hexadecimal text of a byte sequence: two digits per byte, high
/// nibble first.
pub open spec fn hex_lower(bytes: Seq<u8>) -> Seq<char>
    decreases bytes.len(),
{
    if bytes.len() == 0 {
        Seq::empty()
    } else {
        hex_lower(bytes.drop_last()) + seq![
            hex_char((bytes.last() / 16) as nat),
            hex_char((bytes.last() % 16) as nat),
        ]
    }
}

/// The value of a hexadecimal digit byte (either case).
pub open spec fn hex_value(b: u8) -> Option<u8> {
    if 48 <= b <= 57 {
        Some((b - 48) as u8)
    } else if 97 <= b <= 102 {
        Some((b - 87) as u8)
    } else if 65 <= b <= 70 {
        Some((b - 55) as u8)
    } else {
        None
    }
}

/// Whether every byte is a hexadecimal digit.
pub open spec fn all_hex(bytes: Seq<u8>) -> bool {
    forall|i: int| 0 <= i < bytes.len() ==> (#[trigger] hex_value(bytes[i])) is Some
}

/// The bytes that an even-length string of hexadecimal digits spells.
pub open spec fn hex_bytes(text: Seq<u8>) -> Seq<u8> {
    Seq::new(
        text.len() / 2,
        |i: int|
            (hex_value(text[2 * i])->Some_0 * 16 + hex_value(text[2 * i + 1])->Some_0) as u8,
    )
}

/// Whether `text` decodes: an even number of bytes, all hexadecimal digits.
pub open spec fn hex_decodes(text: Seq<u8>) -> bool {
    text.len() % 2 == 0 && all_hex(text)
}

/// The position of the first byte that is not a hexadecimal digit.
pub open spec fn first_non_hex(text: Seq<u8>) -> int {
    choose|i: int|
        0 <= i < text.len() && hex_value(text[i]) is None && forall|j: int|
            0 <= j < i ==> (#[trigger] hex_value(text[j])) is Some
}

/// How Rust's `Debug` writes a printable ASCII character other than a quote
/// or a backslash: between single quotes.
pub open spec fn quoted_char(c: char) -> Seq<char> {
    seq!['\'', c, '\'']
}

/// What is known of the message of `hex::decode`'s error for a text that
/// does not decode: "Odd number of digits" for an odd number of bytes;
/// otherwise, when the first byte that is not a hexadecimal digit is a
/// printable ASCII character other than a quote or a backslash, the message
/// names it and its position.
pub open spec fn hex_error_message(text: Seq<char>, m: Seq<char>) -> bool {
    let bytes = utf8(text);
    if bytes.len() % 2 == 1 {
        m == "Odd number of digits"@
    } else {
        let i = first_non_hex(bytes);
        let b = bytes[i];
        (0x20 <= b <= 0x7e && b != 0x27 && b != 0x5c) ==> m == "Invalid character "@ + quoted_char(
            b as char,
        ) + " at position "@ + decimal(i as nat).map_values(|d: u8| d as char)
    }
}

/// The message of the error that `hex::decode` reports for a text that does
/// not decode (its `Display` text).
pub uninterp spec fn hex_decode_error(text: Seq<u8>) -> Seq<char>;

/// `hex::encode`: the contract states the whole result, lowercase
/// hexadecimal digits of the bytes in order.
#[verifier::external_body]
pub(crate) fn hex_encode(data: &[u8]) -> (res: String)
    ensures
        res@ == hex_lower(data@),
{
    hex::encode(data)
}

/// `hex::decode` of a text, with its error turned into its message. The
/// contract states when it succeeds and what it returns; a failure's message
/// is the one `hex_decode_error` names for the text's bytes, and it is spelled
/// out for an odd length and for an invalid printable ASCII character (for
/// other invalid bytes the character's debug form is left unsaid).
#[verifier::external_body]
pub(crate) fn hex_decode(text: &str) -> (res: Result<Vec<u8>, String>)
    ensures
        res is Ok <==> hex_decodes(utf8(text@)),
        res matches Ok(v) ==> v@ == hex_bytes(utf8(text@)),
        res matches Err(m) ==> m@ == hex_decode_error(utf8(text@)) && hex_error_message(text@, m@),
{
    hex::decode(text).map_err(|e| e.to_string())
}

} // verus!

verus! {

/// Digit `2i` and `2i + 1` of the hex text are the high and low nibble of
/// byte `i`.
pub proof fn lemma_hex_lower_digits(bytes: Seq<u8>)
    ensures
        hex_lower(bytes).len() == 2 * bytes.len(),
        forall|i: int|
            0 <= i < bytes.len() ==> hex_lower(bytes)[2 * i] == hex_char((bytes[i] / 16) as nat)
                && hex_lower(bytes)[2 * i + 1] == hex_char((bytes[i] % 16) as nat),
    decreases bytes.len(),
{
    if bytes.len() > 0 {
        lemma_hex_lower_digits(bytes.drop_last());
        let prev = bytes.drop_last();
        assert forall|i: int| 0 <= i < bytes.len() implies hex_lower(bytes)[2 * i] == hex_char(
            (bytes[i] / 16) as nat,
        ) && hex_lower(bytes)[2 * i + 1] == hex_char((bytes[i] % 16) as nat) by {
            if i < prev.len() {
                assert(prev[i] == bytes[i]);
            }
        }
    }
}

/// A hexadecimal digit character is ASCII and reads back as its value.
pub proof fn lemma_hex_char(d: nat)
    requires
        d < 16,
    ensures
        '\0' <= hex_char(d) <= '\u{7f}',
        hex_value(hex_char(d) as u8) == Some(d as u8),
{
    if d < 10 {
        assert(((48 + d) as char) as u32 == 48 + d);
    } else {
        assert(((87 + d) as char) as u32 == 87 + d);
    }
}

/// Decoding the lowercase hex text of some bytes gives those bytes back.
pub proof fn lemma_hex_roundtrip(bytes: Seq<u8>)
    ensures
        hex_decodes(utf8(hex_lower(bytes))),
        hex_bytes(utf8(hex_lower(bytes))) == bytes,
{
    let text = hex_lower(bytes);
    lemma_hex_lower_digits(bytes);
    assert forall|j: int| 0 <= j < text.len() implies '\0' <= #[trigger] text[j] <= '\u{7f}' by {
        let i = j / 2;
        lemma_hex_char((bytes[i] / 16) as nat);
        lemma_hex_char((bytes[i] % 16) as nat);
        if j == 2 * i {
            assert(text[2 * i] == hex_char((bytes[i] / 16) as nat));
        } else {
            assert(j == 2 * i + 1);
            assert(text[2 * i + 1] == hex_char((bytes[i] % 16) as nat));
        }
    }
    vstd::utf8::is_ascii_chars_encode_utf8(text);
    let enc = utf8(text);
    assert forall|j: int| 0 <= j < enc.len() implies (#[trigger] hex_value(enc[j])) is Some by {
        let i = j / 2;
        assert(text[j] as u8 == enc[j]);
        lemma_hex_char((bytes[i] / 16) as nat);
        lemma_hex_char((bytes[i] % 16) as nat);
        if j == 2 * i {
            assert(text[2 * i] == hex_char((bytes[i] / 16) as nat));
        } else {
            assert(j == 2 * i + 1);
            assert(text[2 * i + 1] == hex_char((bytes[i] % 16) as nat));
        }
    }
    assert(enc.len() % 2 == 0);
    assert(hex_bytes(enc) =~= bytes) by {
        assert forall|i: int| 0 <= i < bytes.len() implies #[trigger] hex_bytes(enc)[i] == bytes[i] by {
            assert(text[2 * i] as u8 == enc[2 * i]);
            assert(text[2 * i + 1] as u8 == enc[2 * i + 1]);
            lemma_hex_char((bytes[i] / 16) as nat);
            lemma_hex_char((bytes[i] % 16) as nat);
            let b = bytes[i];
            assert((b / 16) * 16 + b % 16 == b) by (nonlinear_arith);
        }
    }
}

} // verus!
