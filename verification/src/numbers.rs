//! Reading decimal numbers the way `str::parse` reads `u64` and `i64`.
use vstd::prelude::*;

verus! {

/// An ASCII decimal digit.
pub open spec fn is_digit(c: char) -> bool {
    '0' <= c && c <= '9'
}

/// The number that a string of decimal digits spells.
pub open spec fn digits_value(d: Seq<char>) -> nat
    decreases d.len(),
{
    if d.len() == 0 {
        0
    } else {
        digits_value(d.drop_last()) * 10 + (d.last() as int - 48) as nat
    }
}

/// A non-empty string of decimal digits whose value fits in 64 bits, read.
pub open spec fn digits_u64(d: Seq<char>) -> Option<u64> {
    if d.len() > 0 && (forall|i: int| 0 <= i < d.len() ==> is_digit(#[trigger] d[i]))
        && digits_value(d) <= u64::MAX {
        Some(digits_value(d) as u64)
    } else {
        None
    }
}

/// The digits of an unsigned number's text: the text after one leading `+`.
pub open spec fn unsigned_digits(s: Seq<char>) -> Seq<char> {
    if s.len() > 0 && s[0] == '+' {
        s.drop_first()
    } else {
        s
    }
}

/// What `str::parse::<u64>` accepts: an optional `+`, then at least one
/// decimal digit and nothing else, of a value that fits in 64 bits.
pub open spec fn parse_u64(s: Seq<char>) -> Option<u64> {
    digits_u64(unsigned_digits(s))
}

/// What `str::parse::<i64>` accepts: an optional `+` or `-`, then at least
/// one decimal digit and nothing else, of a value that fits in 64 signed
/// bits.
pub open spec fn parse_i64(s: Seq<char>) -> Option<i64> {
    if s.len() > 0 && s[0] == '-' {
        match digits_u64(s.drop_first()) {
            Some(v) => if v <= 0x8000_0000_0000_0000u64 {
                Some((0 - v) as i64)
            } else {
                None
            },
            None => None,
        }
    } else {
        match digits_u64(unsigned_digits(s)) {
            Some(v) => if v <= i64::MAX {
                Some(v as i64)
            } else {
                None
            },
            None => None,
        }
    }
}

/// A prefix of a string of digits spells no larger a number.
pub proof fn lemma_digits_value_prefix(d: Seq<char>, i: int)
    requires
        0 <= i <= d.len(),
        forall|k: int| 0 <= k < d.len() ==> is_digit(#[trigger] d[k]),
    ensures
        digits_value(d.take(i)) <= digits_value(d),
    decreases d.len(),
{
    if i < d.len() {
        assert(d.drop_last().take(i) =~= d.take(i));
        lemma_digits_value_prefix(d.drop_last(), i);
    } else {
        assert(d.take(i) =~= d);
    }
}

/// Read the decimal digits `chars[start..]` as a 64-bit number.
pub fn digits_number(chars: &Vec<char>, start: usize) -> (res: Option<u64>)
    requires
        start <= chars@.len(),
    ensures
        res == digits_u64(chars@.subrange(start as int, chars@.len() as int)),
{
    let n = chars.len();
    let ghost d = chars@.subrange(start as int, n as int);
    if start == n {
        return None;
    }
    let mut value: u64 = 0;
    let mut i: usize = start;
    while i < n
        invariant
            start <= i <= n == chars@.len(),
            start < n,
            d == chars@.subrange(start as int, n as int),
            value == digits_value(d.take(i - start)),
            forall|k: int| 0 <= k < i - start ==> is_digit(#[trigger] d[k]),
        decreases n - i,
    {
        let c = chars[i];
        assert(d[i - start] == c);
        if !('0' <= c && c <= '9') {
            assert(!is_digit(d[i - start]));
            return None;
        }
        let digit: u64 = (c as u32 - 48) as u64;
        assert(d.take(i - start + 1).drop_last() =~= d.take(i - start));
        assert(digits_value(d.take(i - start + 1)) == value * 10 + digit);
        let next = match value.checked_mul(10) {
            Some(v) => v.checked_add(digit),
            None => None,
        };
        match next {
            Some(w) => {
                value = w;
            },
            None => {
                assert(value * 10 + digit > u64::MAX);
                proof {
                    if forall|k: int| 0 <= k < d.len() ==> is_digit(#[trigger] d[k]) {
                        lemma_digits_value_prefix(d, i - start + 1);
                        assert(digits_value(d) > u64::MAX);
                    }
                }
                return None;
            },
        }
        i = i + 1;
    }
    assert(d.take(n - start) =~= d);
    Some(value)
}

/// Read an unsigned 64-bit number the way `str::parse::<u64>` does.
pub fn parse_unsigned(chars: &Vec<char>) -> (res: Option<u64>)
    ensures
        res == parse_u64(chars@),
{
    let n = chars.len();
    if n > 0 && chars[0] == '+' {
        assert(chars@.drop_first() =~= chars@.subrange(1, n as int));
        digits_number(chars, 1)
    } else {
        assert(chars@ =~= chars@.subrange(0, n as int));
        digits_number(chars, 0)
    }
}

/// Read a signed 64-bit number the way `str::parse::<i64>` does.
pub fn parse_signed(chars: &Vec<char>) -> (res: Option<i64>)
    ensures
        res == parse_i64(chars@),
{
    let n = chars.len();
    if n > 0 && chars[0] == '-' {
        assert(chars@.drop_first() =~= chars@.subrange(1, n as int));
        match digits_number(chars, 1) {
            Some(v) => if v < 0x8000_0000_0000_0000u64 {
                Some(0 - (v as i64))
            } else if v == 0x8000_0000_0000_0000u64 {
                Some(i64::MIN)
            } else {
                None
            },
            None => None,
        }
    } else {
        match parse_unsigned(chars) {
            Some(v) => if v <= 0x7fff_ffff_ffff_ffffu64 {
                Some(v as i64)
            } else {
                None
            },
            None => None,
        }
    }
}

} // verus!
