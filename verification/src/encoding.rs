//! Byte-level building blocks shared by the canonical JSON encoder and the
//! text helpers: decimal digits, hex digits, JSON string escaping and
//! appending to byte buffers.
use vstd::prelude::*;

verus! {

/// The UTF-8 bytes of a piece of text.
pub open spec fn utf8(s: Seq<char>) -> Seq<u8> {
    vstd::utf8::encode_utf8(s)
}

/// Decimal digits (ASCII) of a natural number, most significant first, no
/// leading zeros (zero is `"0"`).
pub open spec fn decimal(n: nat) -> Seq<u8>
    decreases n,
{
    if n < 10 {
        seq![(48 + n) as u8]
    } else {
        decimal(n / 10) + seq![(48 + n % 10) as u8]
    }
}

/// Lowercase hexadecimal digit for a value below 16.
pub open spec fn hex_digit(d: nat) -> u8 {
    if d < 10 {
        (48 + d) as u8
    } else {
        (87 + d) as u8
    }
}

/// How one byte of a string's UTF-8 encoding is written inside a JSON string:
/// quote, backslash and control bytes are escaped, all other bytes (including
/// every byte of a multi-byte UTF-8 sequence) are written unchanged.
pub open spec fn escape_byte(b: u8) -> Seq<u8> {
    if b == 0x08 {
        seq![92u8, 98u8]
    } else if b == 0x09 {
        seq![92u8, 116u8]
    } else if b == 0x0A {
        seq![92u8, 110u8]
    } else if b == 0x0C {
        seq![92u8, 102u8]
    } else if b == 0x0D {
        seq![92u8, 114u8]
    } else if b == 0x22 {
        seq![92u8, 34u8]
    } else if b == 0x5C {
        seq![92u8, 92u8]
    } else if b < 0x20 {
        seq![92u8, 117u8, 48u8, 48u8, hex_digit((b / 16) as nat), hex_digit((b % 16) as nat)]
    } else {
        seq![b]
    }
}

/// The escaped form of a byte sequence, byte by byte.
pub open spec fn escape_bytes(s: Seq<u8>) -> Seq<u8>
    decreases s.len(),
{
    if s.len() == 0 {
        Seq::empty()
    } else {
        escape_bytes(s.drop_last()) + escape_byte(s.last())
    }
}

/// A JSON string literal holding the text `s`.
pub open spec fn json_string(s: Seq<char>) -> Seq<u8> {
    seq![34u8] + escape_bytes(utf8(s)) + seq![34u8]
}

/// A byte that serde_json writes unchanged inside a string: anything but a
/// quote, a backslash or a control byte below 0x20 (so `/` and every byte of
/// a multi-byte UTF-8 sequence are written as they are).
pub open spec fn plain_byte(b: u8) -> bool {
    b >= 0x20 && b != 0x22 && b != 0x5C
}

/// Bytes that need no escape are written unchanged, one for one.
pub proof fn plain_bytes_unescaped(s: Seq<u8>)
    requires
        forall|i: int| 0 <= i < s.len() ==> plain_byte(#[trigger] s[i]),
    ensures
        escape_bytes(s) == s,
    decreases s.len(),
{
    if s.len() > 0 {
        plain_bytes_unescaped(s.drop_last());
        assert(plain_byte(s[s.len() - 1]));
        assert(s.drop_last().push(s.last()) =~= s);
    }
}

/// A text whose bytes need no escape is written as itself between quotes.
pub proof fn json_string_of_plain_text(s: Seq<char>)
    requires
        forall|i: int| 0 <= i < utf8(s).len() ==> plain_byte(#[trigger] utf8(s)[i]),
    ensures
        json_string(s) == seq![34u8] + utf8(s) + seq![34u8],
{
    plain_bytes_unescaped(utf8(s));
}

/// A quote and a backslash are written as a backslash followed by the byte
/// itself; a control byte is written as an escape that starts with a
/// backslash and never as the raw byte.
pub proof fn escaped_bytes(b: u8)
    ensures
        (b == 0x22 || b == 0x5C) ==> escape_byte(b) == seq![92u8, b],
        b < 0x20 ==> escape_byte(b).len() >= 2 && escape_byte(b)[0] == 92u8,
        plain_byte(b) ==> escape_byte(b) == seq![b],
{
}

/// Append `bytes` to `out`.
pub fn push_all(out: &mut Vec<u8>, bytes: &[u8])
    ensures
        final(out)@ == old(out)@ + bytes@,
{
    let n = bytes.len();
    for i in 0..n
        invariant
            n == bytes@.len(),
            out@ == old(out)@ + bytes@.take(i as int),
    {
        out.push(bytes[i]);
        assert(bytes@.take(i + 1) =~= bytes@.take(i as int).push(bytes@[i as int]));
    }
    assert(bytes@.take(n as int) =~= bytes@);
}

/// Append the UTF-8 bytes of `s` to `out`.
pub fn push_text(out: &mut Vec<u8>, s: &str)
    ensures
        final(out)@ == old(out)@ + utf8(s@),
{
    push_all(out, s.as_bytes());
}

/// Append the decimal digits of `n` to `out`.
pub fn push_decimal(out: &mut Vec<u8>, n: u64)
    ensures
        final(out)@ == old(out)@ + decimal(n as nat),
    decreases n,
{
    if n >= 10 {
        push_decimal(out, n / 10);
    }
    out.push((48 + n % 10) as u8);
}

/// Append the escaped form of one byte.
fn push_escaped_byte(out: &mut Vec<u8>, b: u8)
    ensures
        final(out)@ == old(out)@ + escape_byte(b),
{
    if b == 0x08 {
        out.push(92u8);
        out.push(98u8);
    } else if b == 0x09 {
        out.push(92u8);
        out.push(116u8);
    } else if b == 0x0A {
        out.push(92u8);
        out.push(110u8);
    } else if b == 0x0C {
        out.push(92u8);
        out.push(102u8);
    } else if b == 0x0D {
        out.push(92u8);
        out.push(114u8);
    } else if b == 0x22 {
        out.push(92u8);
        out.push(34u8);
    } else if b == 0x5C {
        out.push(92u8);
        out.push(92u8);
    } else if b < 0x20 {
        let hi: u8 = b / 16;
        let lo: u8 = b % 16;
        out.push(92u8);
        out.push(117u8);
        out.push(48u8);
        out.push(48u8);
        out.push(if hi < 10 { 48 + hi } else { 87 + hi });
        out.push(if lo < 10 { 48 + lo } else { 87 + lo });
    } else {
        out.push(b);
    }
    assert(final(out)@ =~= old(out)@ + escape_byte(b));
}

/// Append `s` as a JSON string literal (quotes included).
pub fn push_json_string(out: &mut Vec<u8>, s: &str)
    ensures
        final(out)@ == old(out)@ + json_string(s@),
{
    let bytes = s.as_bytes();
    let n = bytes.len();
    out.push(34u8);
    let ghost start = out@;
    for i in 0..n
        invariant
            n == bytes@.len(),
            bytes@ == utf8(s@),
            out@ == start + escape_bytes(bytes@.take(i as int)),
    {
        assert(bytes@.take(i + 1).drop_last() =~= bytes@.take(i as int));
        push_escaped_byte(out, bytes[i]);
    }
    assert(bytes@.take(n as int) =~= bytes@);
    out.push(34u8);
    assert(final(out)@ =~= old(out)@ + json_string(s@));
}

} // verus!

verus! {

/// Whether two byte slices hold the same bytes.
pub fn bytes_equal(a: &[u8], b: &[u8]) -> (res: bool)
    ensures
        res == (a@ == b@),
{
    if a.len() != b.len() {
        return false;
    }
    let n = a.len();
    for i in 0..n
        invariant
            n == a@.len(),
            n == b@.len(),
            forall|k: int| 0 <= k < i ==> a@[k] == b@[k],
    {
        if a[i] != b[i] {
            return false;
        }
    }
    assert(a@ =~= b@);
    true
}

/// Whether two texts are equal (compared through their UTF-8 bytes).
pub fn text_equal(a: &str, b: &str) -> (res: bool)
    ensures
        res == (a@ == b@),
{
    let r = bytes_equal(a.as_bytes(), b.as_bytes());
    proof {
        vstd::utf8::encode_utf8_decode_utf8(a@);
        vstd::utf8::encode_utf8_decode_utf8(b@);
    }
    r
}

} // verus!
