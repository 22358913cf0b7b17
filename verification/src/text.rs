//! Character-level text handling: reading a text into characters, building
//! a text from characters, trimming, splitting and reading numbers.
use vstd::prelude::*;
use crate::encoding::{decimal, push_decimal};

verus! {

/// The characters of a text, in order.
pub fn chars_of(s: &str) -> (res: Vec<char>)
    ensures
        res@ == s@,
{
    let mut out: Vec<char> = Vec::new();
    for c in it: s.chars()
        invariant
            it.seq() == s@,
            out@ == it.seq().take(it.index()),
    {
        assert(it.seq().take(it.index() + 1) =~= it.seq().take(it.index()).push(c));
        out.push(c);
    }
    out
}


/// The text made of the given characters, in order (`String::from_iter`).
/// The contract states the whole result.
#[verifier::external_body]
pub(crate) fn string_of(chars: &[char]) -> (res: String)
    ensures
        res@ == chars@,
{
    String::from_iter(chars.iter())
}

/// The first `n` characters of `chars`.
pub fn prefix(chars: &Vec<char>, n: usize) -> (res: Vec<char>)
    requires
        n <= chars@.len(),
    ensures
        res@ == chars@.take(n as int),
{
    let mut out: Vec<char> = Vec::new();
    for i in 0..n
        invariant
            n <= chars@.len(),
            out@ == chars@.take(i as int),
    {
        out.push(chars[i]);
        assert(chars@.take(i + 1) =~= chars@.take(i as int).push(chars@[i as int]));
    }
    out
}

/// `s` without its trailing carriage returns (`trim_end_matches('\r')`).
pub open spec fn trim_end_cr(s: Seq<char>) -> Seq<char>
    decreases s.len(),
{
    if s.len() > 0 && s.last() == '\r' {
        trim_end_cr(s.drop_last())
    } else {
        s
    }
}

/// Remove every trailing carriage return from a text.
pub fn strip_trailing_cr(s: &str) -> (res: String)
    ensures
        res@ == trim_end_cr(s@),
{
    let chars = chars_of(s);
    let mut end = chars.len();
    assert(chars@.take(end as int) =~= s@);
    while end > 0 && chars[end - 1] == '\r'
        invariant
            end <= chars@.len(),
            trim_end_cr(s@) == trim_end_cr(chars@.take(end as int)),
        decreases end,
    {
        assert(chars@.take(end as int).drop_last() =~= chars@.take(end - 1));
        end = end - 1;
    }
    assert(chars@.take(end as int) =~= trim_end_cr(chars@.take(end as int)));
    let kept = prefix(&chars, end);
    string_of(kept.as_slice())
}

/// Whether `c` has the Unicode `White_Space` property, the test that
/// `char::is_whitespace` and `str::trim` use.
pub open spec fn is_white_space(c: char) -> bool {
    ||| ('\t' <= c && c <= '\r')
    ||| c == ' '
    ||| c == '\u{85}'
    ||| c == '\u{a0}'
    ||| c == '\u{1680}'
    ||| ('\u{2000}' <= c && c <= '\u{200a}')
    ||| c == '\u{2028}'
    ||| c == '\u{2029}'
    ||| c == '\u{202f}'
    ||| c == '\u{205f}'
    ||| c == '\u{3000}'
}

/// Whether a character is white space.
pub fn white_space(c: char) -> (res: bool)
    ensures
        res == is_white_space(c),
{
    ('\t' <= c && c <= '\r') || c == ' ' || c == '\u{85}' || c == '\u{a0}' || c == '\u{1680}'
        || ('\u{2000}' <= c && c <= '\u{200a}') || c == '\u{2028}' || c == '\u{2029}' || c
        == '\u{202f}' || c == '\u{205f}' || c == '\u{3000}'
}

/// `s` without its leading white space.
pub open spec fn trim_start(s: Seq<char>) -> Seq<char>
    decreases s.len(),
{
    if s.len() > 0 && is_white_space(s[0]) {
        trim_start(s.drop_first())
    } else {
        s
    }
}

/// `s` without its trailing white space.
pub open spec fn trim_end(s: Seq<char>) -> Seq<char>
    decreases s.len(),
{
    if s.len() > 0 && is_white_space(s.last()) {
        trim_end(s.drop_last())
    } else {
        s
    }
}

/// `s` without leading and trailing white space (`str::trim`).
pub open spec fn trim(s: Seq<char>) -> Seq<char> {
    trim_end(trim_start(s))
}

/// The characters `from..to` of `chars`.
pub fn slice_chars(chars: &Vec<char>, from: usize, to: usize) -> (res: Vec<char>)
    requires
        from <= to <= chars@.len(),
    ensures
        res@ == chars@.subrange(from as int, to as int),
{
    let mut out: Vec<char> = Vec::new();
    let mut i = from;
    while i < to
        invariant
            from <= i <= to <= chars@.len(),
            out@ == chars@.subrange(from as int, i as int),
        decreases to - i,
    {
        out.push(chars[i]);
        assert(chars@.subrange(from as int, i + 1) =~= chars@.subrange(from as int, i as int).push(
            chars@[i as int],
        ));
        i = i + 1;
    }
    out
}

/// The characters of `chars` without leading and trailing white space.
pub fn trim_chars(chars: &Vec<char>) -> (res: Vec<char>)
    ensures
        res@ == trim(chars@),
{
    let n = chars.len();
    let mut start: usize = 0;
    assert(chars@.subrange(0, n as int) =~= chars@);
    while start < n && white_space(chars[start])
        invariant
            start <= n == chars@.len(),
            trim_start(chars@) == trim_start(chars@.subrange(start as int, n as int)),
        decreases n - start,
    {
        assert(chars@.subrange(start as int, n as int).drop_first() =~= chars@.subrange(
            start + 1,
            n as int,
        ));
        start = start + 1;
    }
    assert(trim_start(chars@.subrange(start as int, n as int)) == chars@.subrange(
        start as int,
        n as int,
    ));
    let mut end: usize = n;
    while end > start && white_space(chars[end - 1])
        invariant
            start <= end <= n == chars@.len(),
            trim(chars@) == trim_end(chars@.subrange(start as int, end as int)),
        decreases end,
    {
        assert(chars@.subrange(start as int, end as int).drop_last() =~= chars@.subrange(
            start as int,
            end - 1,
        ));
        end = end - 1;
    }
    assert(trim_end(chars@.subrange(start as int, end as int)) == chars@.subrange(
        start as int,
        end as int,
    ));
    slice_chars(chars, start, end)
}

/// The text `s` without leading and trailing white space.
pub fn trim_text(s: &str) -> (res: String)
    ensures
        res@ == trim(s@),
{
    let chars = chars_of(s);
    let kept = trim_chars(&chars);
    string_of(kept.as_slice())
}

/// Whether `needle` occurs in `hay` at position `i`.
pub open spec fn occurs_at(hay: Seq<char>, needle: Seq<char>, i: int) -> bool {
    0 <= i && i + needle.len() <= hay.len() && hay.subrange(i, i + needle.len()) == needle
}

/// Whether `needle` occurs in `hay` (`str::contains`).
pub open spec fn contains(hay: Seq<char>, needle: Seq<char>) -> bool {
    exists|i: int| #[trigger] occurs_at(hay, needle, i)
}

/// Whether the text `needle` occurs in the text `hay`.
pub fn contains_text(hay: &str, needle: &str) -> (res: bool)
    ensures
        res == contains(hay@, needle@),
{
    let h = chars_of(hay);
    let n = chars_of(needle);
    let hl = h.len();
    let nl = n.len();
    if nl > hl {
        assert forall|i: int| !#[trigger] occurs_at(hay@, needle@, i) by {}
        return false;
    }
    let mut i: usize = 0;
    while i <= hl - nl
        invariant
            h@ == hay@,
            n@ == needle@,
            hl == h@.len(),
            nl == n@.len(),
            nl <= hl,
            i <= hl - nl + 1,
            forall|k: int| 0 <= k < i ==> !#[trigger] occurs_at(hay@, needle@, k),
        decreases hl - i,
    {
        let mut j: usize = 0;
        while j < nl && h[i + j] == n[j]
            invariant
                h@ == hay@,
                n@ == needle@,
                hl == h@.len(),
                nl == n@.len(),
                i + nl <= hl,
                j <= nl,
                forall|m: int| 0 <= m < j ==> h@[i + m] == n@[m],
            decreases nl - j,
        {
            j = j + 1;
        }
        if j == nl {
            assert(hay@.subrange(i as int, i + nl) =~= needle@);
            assert(occurs_at(hay@, needle@, i as int));
            return true;
        }
        assert(!occurs_at(hay@, needle@, i as int)) by {
            if occurs_at(hay@, needle@, i as int) {
                assert(hay@.subrange(i as int, i + nl)[j as int] == h@[i + j]);
            }
        }
        i = i + 1;
    }
    assert forall|k: int| !#[trigger] occurs_at(hay@, needle@, k) by {
        if 0 <= k < i {
        } else if k >= i {
            assert(k + nl > hl);
        }
    }
    false
}

/// The decimal digits of a number, as characters.
pub open spec fn decimal_chars(n: nat) -> Seq<char> {
    decimal(n).map_values(|d: u8| d as char)
}

/// The decimal text of a number.
pub fn decimal_text(n: u64) -> (res: String)
    ensures
        res@ == decimal_chars(n as nat),
{
    let mut bytes: Vec<u8> = Vec::new();
    push_decimal(&mut bytes, n);
    let mut chars: Vec<char> = Vec::new();
    let len = bytes.len();
    for i in 0..len
        invariant
            len == bytes@.len(),
            bytes@ == decimal(n as nat),
            chars@ == bytes@.take(i as int).map_values(|d: u8| d as char),
    {
        let b = bytes[i];
        chars.push(b as char);
        assert(bytes@.take(i + 1).map_values(|d: u8| d as char) =~= bytes@.take(i as int).map_values(
            |d: u8| d as char,
        ).push(b as char));
    }
    assert(bytes@.take(len as int) =~= bytes@);
    string_of(chars.as_slice())
}

/// The position of the first `c` in `s`, or the length of `s` when `c` does
/// not occur.
pub open spec fn first_index(s: Seq<char>, c: char) -> int {
    if exists|i: int| 0 <= i < s.len() && s[i] == c {
        choose|i: int| 0 <= i < s.len() && s[i] == c && forall|j: int| 0 <= j < i ==> s[j] != c
    } else {
        s.len() as int
    }
}

/// The position of the first `c` among `chars`, or their number when `c`
/// does not occur.
pub fn find_char(chars: &Vec<char>, c: char) -> (res: usize)
    ensures
        res == first_index(chars@, c),
        res <= chars@.len(),
{
    let n = chars.len();
    let mut i: usize = 0;
    while i < n && chars[i] != c
        invariant
            i <= n == chars@.len(),
            forall|j: int| 0 <= j < i ==> chars@[j] != c,
        decreases n - i,
    {
        i = i + 1;
    }
    assert(first_index(chars@, c) == i) by {
        if i < n {
            let w = choose|k: int|
                0 <= k < chars@.len() && chars@[k] == c && forall|j: int| 0 <= j < k ==> chars@[j] != c;
            assert(chars@[i as int] == c);
            if w < i {
            } else if w > i {
                assert(chars@[i as int] != c);
            }
        }
    }
    i
}

/// `s` without its trailing `c`s (`trim_end_matches(c)`).
pub open spec fn trim_end_char(s: Seq<char>, c: char) -> Seq<char>
    decreases s.len(),
{
    if s.len() > 0 && s.last() == c {
        trim_end_char(s.drop_last(), c)
    } else {
        s
    }
}

/// The characters of `chars` without their trailing `c`s.
pub fn strip_trailing_char(chars: &Vec<char>, c: char) -> (res: Vec<char>)
    ensures
        res@ == trim_end_char(chars@, c),
{
    let mut end = chars.len();
    assert(chars@.take(end as int) =~= chars@);
    while end > 0 && chars[end - 1] == c
        invariant
            end <= chars@.len(),
            trim_end_char(chars@, c) == trim_end_char(chars@.take(end as int), c),
        decreases end,
    {
        assert(chars@.take(end as int).drop_last() =~= chars@.take(end - 1));
        end = end - 1;
    }
    assert(chars@.take(end as int) =~= trim_end_char(chars@.take(end as int), c));
    prefix(chars, end)
}

/// The first three pieces of `s` split at `sep` (`splitn(3, sep)`), the last
/// one holding the rest; `None` when `sep` occurs less than twice.
pub open spec fn three_fields(s: Seq<char>, sep: char) -> Option<(Seq<char>, Seq<char>, Seq<char>)> {
    let i = first_index(s, sep);
    if i >= s.len() {
        None
    } else {
        let rest = s.subrange(i + 1, s.len() as int);
        let j = first_index(rest, sep);
        if j >= rest.len() {
            None
        } else {
            Some((s.subrange(0, i), rest.subrange(0, j), rest.subrange(j + 1, rest.len() as int)))
        }
    }
}

/// Split `chars` into its first three pieces at `sep`.
pub fn split_three(chars: &Vec<char>, sep: char) -> (res: Option<(Vec<char>, Vec<char>, Vec<char>)>)
    ensures
        match three_fields(chars@, sep) {
            Some(f) => res matches Some(r) && r.0@ == f.0 && r.1@ == f.1 && r.2@ == f.2,
            None => res is None,
        },
{
    let n = chars.len();
    let i = find_char(chars, sep);
    if i >= n {
        return None;
    }
    let rest = slice_chars(chars, i + 1, n);
    let j = find_char(&rest, sep);
    if j >= rest.len() {
        return None;
    }
    let first = slice_chars(chars, 0, i);
    let second = slice_chars(&rest, 0, j);
    let third = slice_chars(&rest, j + 1, rest.len());
    Some((first, second, third))
}

} // verus!
