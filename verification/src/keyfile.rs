//! Key files: a 32-byte Ed25519 key written as 64 lowercase hex digits.
use vstd::prelude::*;
use crate::encoding::utf8;
use crate::hexfmt::{
    hex_bytes, hex_char, hex_decode, hex_decode_error, hex_decodes, hex_encode, hex_error_message,
    hex_lower, lemma_hex_char, lemma_hex_lower_digits, lemma_hex_roundtrip,
};
use crate::text::{is_white_space, trim, trim_end, trim_start, trim_text};

verus! {

/// The text of a key file holding `key`: its lowercase hex digits.
pub fn key_to_hex(key: &[u8; 32]) -> (res: String)
    ensures
        res@ == hex_lower(key@),
{
    hex_encode(key.as_slice())
}

/// What a key file holds once surrounding white space is removed.
pub open spec fn key_text(text: Seq<char>) -> Seq<u8> {
    utf8(trim(text))
}

/// Read a key file's text: surrounding white space is ignored, the rest must
/// be hexadecimal (`"key file is not valid hex: "` and the decoder's message
/// otherwise) spelling exactly 32 bytes (`"key file must be exactly 32 bytes
/// (64 hex chars)"` otherwise).
pub fn key_from_hex(text: &str) -> (res: Result<[u8; 32], String>)
    ensures
        res is Ok <==> hex_decodes(key_text(text@)) && hex_bytes(key_text(text@)).len() == 32,
        res matches Ok(k) ==> k@ == hex_bytes(key_text(text@)),
        !hex_decodes(key_text(text@)) ==> (res matches Err(m) && m@.take(27)
            == "key file is not valid hex: "@ && m@.skip(27) == hex_decode_error(key_text(text@))
            && hex_error_message(trim(text@), m@.skip(27))),
        hex_decodes(key_text(text@)) && hex_bytes(key_text(text@)).len() != 32 ==> (res matches Err(m)
            && m@ == "key file must be exactly 32 bytes (64 hex chars)"@),
{
    let trimmed = trim_text(text);
    let bytes = match hex_decode(trimmed.as_str()) {
        Ok(b) => b,
        Err(e) => {
            let mut msg = "key file is not valid hex: ".to_owned();
            let ghost prefix = msg@;
            proof {
                reveal_strlit("key file is not valid hex: ");
            }
            msg.append(e.as_str());
            assert(msg@.take(27) =~= prefix);
            assert(msg@.skip(27) =~= e@);
            return Err(msg);
        },
    };
    if bytes.len() != 32 {
        return Err("key file must be exactly 32 bytes (64 hex chars)".to_owned());
    }
    let mut key = [0u8; 32];
    for i in 0..32
        invariant
            bytes@.len() == 32,
            forall|k: int| 0 <= k < i ==> key@[k] == bytes@[k],
    {
        key[i] = bytes[i];
    }
    assert(key@ =~= bytes@);
    Ok(key)
}

/// Hex text has no white space around it.
proof fn lemma_hex_text_trimmed(bytes: Seq<u8>)
    ensures
        trim(hex_lower(bytes)) == hex_lower(bytes),
{
    let t = hex_lower(bytes);
    lemma_hex_lower_digits(bytes);
    assert forall|j: int| 0 <= j < t.len() implies !is_white_space(#[trigger] t[j]) by {
        let i = j / 2;
        lemma_hex_char((bytes[i] / 16) as nat);
        lemma_hex_char((bytes[i] % 16) as nat);
        if j == 2 * i {
            assert(t[2 * i] == hex_char((bytes[i] / 16) as nat));
        } else {
            assert(t[2 * i + 1] == hex_char((bytes[i] % 16) as nat));
        }
    }
    if t.len() > 0 {
        assert(!is_white_space(t[0]));
        assert(!is_white_space(t.last()));
    }
    assert(trim_start(t) == t);
    assert(trim_end(t) == t);
}

/// A key written to a key file reads back unchanged.
pub proof fn key_file_roundtrip(key: Seq<u8>)
    requires
        key.len() == 32,
    ensures
        hex_decodes(key_text(hex_lower(key))),
        hex_bytes(key_text(hex_lower(key))) == key,
{
    lemma_hex_text_trimmed(key);
    lemma_hex_roundtrip(key);
}

} // verus!
