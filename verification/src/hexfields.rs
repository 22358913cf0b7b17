//! Hashes and signatures stored as lowercase hex text in receipts and packs.
use vstd::prelude::*;
use crate::encoding::utf8;
use crate::hexfmt::{hex_bytes, hex_decode, hex_decode_error, hex_decodes, hex_encode, hex_lower};

verus! {

/// The hex text of a 32-byte hash.
pub fn hash_to_hex(hash: &[u8; 32]) -> (res: String)
    ensures
        res@ == hex_lower(hash@),
{
    hex_encode(hash.as_slice())
}

/// The hex text of a 64-byte signature.
pub fn signature_to_hex(signature: &[u8; 64]) -> (res: String)
    ensures
        res@ == hex_lower(signature@),
{
    hex_encode(signature.as_slice())
}

/// Read a 32-byte hash from hex text: the decoder's message when the text is
/// not hexadecimal, `"expected 32-byte hex string"` when it spells another
/// number of bytes.
pub fn hash_from_hex(text: &str) -> (res: Result<[u8; 32], String>)
    ensures
        res is Ok <==> hex_decodes(utf8(text@)) && hex_bytes(utf8(text@)).len() == 32,
        res matches Ok(b) ==> b@ == hex_bytes(utf8(text@)),
        !hex_decodes(utf8(text@)) ==> (res matches Err(m) && m@ == hex_decode_error(utf8(text@))),
        hex_decodes(utf8(text@)) && hex_bytes(utf8(text@)).len() != 32 ==> (res matches Err(m) && m@
            == "expected 32-byte hex string"@),
{
    let bytes = match hex_decode(text) {
        Ok(b) => b,
        Err(e) => return Err(e),
    };
    if bytes.len() != 32 {
        return Err("expected 32-byte hex string".to_owned());
    }
    let mut out = [0u8; 32];
    for i in 0..32
        invariant
            bytes@.len() == 32,
            forall|k: int| 0 <= k < i ==> out@[k] == bytes@[k],
    {
        out[i] = bytes[i];
    }
    assert(out@ =~= bytes@);
    Ok(out)
}

/// Read an optional 64-byte signature from optional hex text: absent text is
/// no signature; otherwise the decoder's message when the text is not
/// hexadecimal, `"expected 64-byte hex string"` when it spells another number
/// of bytes.
pub fn signature_from_hex(text: Option<&str>) -> (res: Result<Option<[u8; 64]>, String>)
    ensures
        text is None ==> res == Ok::<Option<[u8; 64]>, String>(None),
        text matches Some(t) ==> {
            &&& res is Ok <==> hex_decodes(utf8(t@)) && hex_bytes(utf8(t@)).len() == 64
            &&& res matches Ok(s) ==> s matches Some(b) && b@ == hex_bytes(utf8(t@))
            &&& !hex_decodes(utf8(t@)) ==> (res matches Err(m) && m@ == hex_decode_error(utf8(t@)))
            &&& hex_decodes(utf8(t@)) && hex_bytes(utf8(t@)).len() != 64 ==> (res matches Err(m) && m@
                == "expected 64-byte hex string"@)
        },
{
    let t = match text {
        Some(t) => t,
        None => return Ok(None),
    };
    let bytes = match hex_decode(t) {
        Ok(b) => b,
        Err(e) => return Err(e),
    };
    if bytes.len() != 64 {
        return Err("expected 64-byte hex string".to_owned());
    }
    let mut out = [0u8; 64];
    for i in 0..64
        invariant
            bytes@.len() == 64,
            forall|k: int| 0 <= k < i ==> out@[k] == bytes@[k],
    {
        out[i] = bytes[i];
    }
    assert(out@ =~= bytes@);
    Ok(Some(out))
}

} // verus!
