//! A JSON value model held as plain data, its compact canonical encoding
//! (byte for byte what serde_json writes for the same value), and the parse
//! entry point backed by serde_json.
use vstd::prelude::*;
use crate::encoding::{
    decimal, json_string, push_all, push_decimal, push_json_string, push_text, text_equal, utf8,
};
use crate::text::chars_of;

verus! {

/// A JSON number as serde_json keeps it: a non-negative integer, a negative
/// integer, or a floating-point number held as the text serde_json prints.
#[derive(Debug, Clone, PartialEq)]
pub enum JsonNumber {
    PosInt(u64),
    NegInt(i64),
    Float(String),
}

/// A JSON value. Object members keep the order in which they were read.
#[derive(Debug, PartialEq)]
pub enum Json {
    Null,
    Bool(bool),
    Number(JsonNumber),
    Str(String),
    Array(Vec<Json>),
    Object(Vec<(String, Json)>),
}

/// The mathematical view of a JSON number.
pub enum NumberView {
    PosInt(u64),
    NegInt(i64),
    Float(Seq<char>),
}

/// The mathematical view of a JSON value.
pub enum JsonView {
    Null,
    Bool(bool),
    Number(NumberView),
    Str(Seq<char>),
    Array(Seq<JsonView>),
    Object(Seq<(Seq<char>, JsonView)>),
}

impl View for JsonNumber {
    type V = NumberView;

    open spec fn view(&self) -> NumberView {
        match self {
            JsonNumber::PosInt(u) => NumberView::PosInt(*u),
            JsonNumber::NegInt(i) => NumberView::NegInt(*i),
            JsonNumber::Float(t) => NumberView::Float(t@),
        }
    }
}

/// The plain-value view of a JSON value.
pub open spec fn json_view(j: Json) -> JsonView
    decreases j,
{
    match j {
        Json::Null => JsonView::Null,
        Json::Bool(b) => JsonView::Bool(b),
        Json::Number(n) => JsonView::Number(n@),
        Json::Str(s) => JsonView::Str(s@),
        Json::Array(v) => JsonView::Array(
            Seq::new(v.len() as nat, |i: int| if 0 <= i < v.len() { json_view(v[i]) } else { JsonView::Null }),
        ),
        Json::Object(v) => JsonView::Object(
            Seq::new(
                v.len() as nat,
                |i: int|
                    if 0 <= i < v.len() {
                        (v[i].0@, json_view(v[i].1))
                    } else {
                        (Seq::empty(), JsonView::Null)
                    },
            ),
        ),
    }
}

impl View for Json {
    type V = JsonView;

    open spec fn view(&self) -> JsonView {
        json_view(*self)
    }
}

/// Comma-separated concatenation of byte strings.
pub open spec fn join_commas(parts: Seq<Seq<u8>>) -> Seq<u8>
    decreases parts.len(),
{
    if parts.len() == 0 {
        Seq::empty()
    } else if parts.len() == 1 {
        parts[0]
    } else {
        join_commas(parts.drop_last()) + seq![44u8] + parts.last()
    }
}

/// The JSON text of a number: decimal digits with a leading `-` when
/// negative; a float's own text.
pub open spec fn number_bytes(n: NumberView) -> Seq<u8> {
    match n {
        NumberView::PosInt(u) => decimal(u as nat),
        NumberView::NegInt(i) => if i < 0 {
            seq![45u8] + decimal((0 - i) as nat)
        } else {
            decimal(i as nat)
        },
        NumberView::Float(t) => utf8(t),
    }
}

/// The compact JSON texts of the elements of an array.
pub open spec fn element_texts(items: Seq<JsonView>) -> Seq<Seq<u8>>
    decreases items,
{
    Seq::new(items.len(), |i: int| if 0 <= i < items.len() { json_bytes(items[i]) } else { Seq::empty() })
}

/// The members of an object paired with the compact JSON texts of their
/// values.
pub open spec fn member_entries(members: Seq<(Seq<char>, JsonView)>) -> Seq<(Seq<char>, Seq<u8>)>
    decreases members,
{
    Seq::new(
        members.len(),
        |i: int|
            if 0 <= i < members.len() {
                (members[i].0, json_bytes(members[i].1))
            } else {
                (Seq::empty(), Seq::empty())
            },
    )
}

/// Whether key `a` comes before key `b` in `String`'s order, comparing from
/// position `i` on: character by character (the order of their UTF-8 bytes),
/// a proper prefix first.
pub open spec fn key_before_from(a: Seq<char>, b: Seq<char>, i: int) -> bool
    decreases a.len() - i,
{
    if i < 0 || i >= a.len() {
        0 <= i < b.len()
    } else if i >= b.len() {
        false
    } else if a[i] != b[i] {
        a[i] < b[i]
    } else {
        key_before_from(a, b, i + 1)
    }
}

/// Whether key `a` comes before key `b` in `String`'s order.
pub open spec fn key_before(a: Seq<char>, b: Seq<char>) -> bool {
    key_before_from(a, b, 0)
}

/// An entry put into a list kept in key order, as a `BTreeMap` insert does:
/// it goes after the entries with earlier keys, replacing an entry with the
/// same key or standing before the rest.
pub open spec fn insert_entry(sorted: Seq<(Seq<char>, Seq<u8>)>, e: (Seq<char>, Seq<u8>)) -> Seq<
    (Seq<char>, Seq<u8>),
>
    decreases sorted.len(),
{
    if sorted.len() == 0 {
        seq![e]
    } else if key_before(sorted[0].0, e.0) {
        seq![sorted[0]] + insert_entry(sorted.drop_first(), e)
    } else if sorted[0].0 == e.0 {
        seq![e] + sorted.drop_first()
    } else {
        seq![e] + sorted
    }
}

/// The entries of an object as serde_json's map keeps them: inserted in
/// order into a map sorted by key, so one entry per key, the last one given
/// for a key winning.
pub open spec fn sorted_entries(entries: Seq<(Seq<char>, Seq<u8>)>) -> Seq<(Seq<char>, Seq<u8>)>
    decreases entries.len(),
{
    if entries.len() == 0 {
        Seq::empty()
    } else {
        insert_entry(sorted_entries(entries.drop_last()), entries.last())
    }
}

/// Whether the keys of a list of entries strictly increase, so that no key
/// occurs twice.
pub open spec fn keys_increasing(s: Seq<(Seq<char>, Seq<u8>)>) -> bool {
    forall|i: int, j: int| 0 <= i < j < s.len() ==> key_before(#[trigger] s[i].0, #[trigger] s[j].0)
}

/// No key comes before itself.
pub proof fn lemma_key_before_irreflexive(a: Seq<char>, i: int)
    requires
        0 <= i,
    ensures
        !key_before_from(a, a, i),
    decreases a.len() - i,
{
    if i < a.len() {
        lemma_key_before_irreflexive(a, i + 1);
    }
}

/// The key order is transitive.
pub proof fn lemma_key_before_transitive(a: Seq<char>, b: Seq<char>, c: Seq<char>, i: int)
    requires
        0 <= i,
        key_before_from(a, b, i),
        key_before_from(b, c, i),
    ensures
        key_before_from(a, c, i),
    decreases a.len() - i,
{
    if i < a.len() && i < b.len() && i < c.len() && a[i] == b[i] && b[i] == c[i] {
        lemma_key_before_transitive(a, b, c, i + 1);
    }
}

/// Two keys that agree up to position `i` and of which neither comes before
/// the other are equal.
pub proof fn lemma_key_before_total(a: Seq<char>, b: Seq<char>, i: int)
    requires
        0 <= i <= a.len(),
        i <= b.len(),
        a.subrange(0, i) == b.subrange(0, i),
        !key_before_from(a, b, i),
        !key_before_from(b, a, i),
    ensures
        a == b,
    decreases a.len() - i,
{
    if i < a.len() && i < b.len() {
        assert(a[i] == b[i]);
        assert(a.subrange(0, i + 1) =~= a.subrange(0, i).push(a[i]));
        assert(b.subrange(0, i + 1) =~= b.subrange(0, i).push(b[i]));
        lemma_key_before_total(a, b, i + 1);
    } else {
        assert(a.len() == i && b.len() == i);
        assert(a =~= a.subrange(0, i));
        assert(b =~= b.subrange(0, i));
    }
}

/// Every key of `insert_entry(s, e)` comes after a key that comes before `e`'s
/// and every key of `s`.
proof fn lemma_insert_entry_bounded(s: Seq<(Seq<char>, Seq<u8>)>, e: (Seq<char>, Seq<u8>), b: Seq<char>)
    requires
        key_before(b, e.0),
        forall|k: int| 0 <= k < s.len() ==> key_before(b, #[trigger] s[k].0),
    ensures
        forall|k: int|
            0 <= k < insert_entry(s, e).len() ==> key_before(b, #[trigger] insert_entry(s, e)[k].0),
    decreases s.len(),
{
    if s.len() > 0 {
        let rest = s.drop_first();
        assert forall|k: int| 0 <= k < rest.len() implies key_before(b, #[trigger] rest[k].0) by {
            assert(rest[k] == s[k + 1]);
        }
        lemma_insert_entry_bounded(rest, e, b);
        let r = insert_entry(s, e);
        if key_before(s[0].0, e.0) {
            assert forall|k: int| 0 <= k < r.len() implies key_before(b, #[trigger] r[k].0) by {
                if k > 0 {
                    assert(r[k] == insert_entry(rest, e)[k - 1]);
                }
            }
        } else if s[0].0 == e.0 {
            assert forall|k: int| 0 <= k < r.len() implies key_before(b, #[trigger] r[k].0) by {
                if k > 0 {
                    assert(r[k] == rest[k - 1]);
                }
            }
        } else {
            assert forall|k: int| 0 <= k < r.len() implies key_before(b, #[trigger] r[k].0) by {
                if k > 0 {
                    assert(r[k] == s[k - 1]);
                }
            }
        }
    }
}

/// Inserting into a list whose keys strictly increase keeps them strictly
/// increasing.
proof fn lemma_insert_entry_increasing(s: Seq<(Seq<char>, Seq<u8>)>, e: (Seq<char>, Seq<u8>))
    requires
        keys_increasing(s),
    ensures
        keys_increasing(insert_entry(s, e)),
    decreases s.len(),
{
    if s.len() > 0 {
        let rest = s.drop_first();
        assert(keys_increasing(rest)) by {
            assert forall|i: int, j: int| 0 <= i < j < rest.len() implies key_before(
                #[trigger] rest[i].0,
                #[trigger] rest[j].0,
            ) by {
                assert(rest[i] == s[i + 1] && rest[j] == s[j + 1]);
            }
        }
        assert forall|k: int| 0 <= k < rest.len() implies key_before(s[0].0, #[trigger] rest[k].0) by {
            assert(rest[k] == s[k + 1]);
        }
        let r = insert_entry(s, e);
        if key_before(s[0].0, e.0) {
            lemma_insert_entry_increasing(rest, e);
            lemma_insert_entry_bounded(rest, e, s[0].0);
            let t = insert_entry(rest, e);
            assert forall|i: int, j: int| 0 <= i < j < r.len() implies key_before(
                #[trigger] r[i].0,
                #[trigger] r[j].0,
            ) by {
                assert(r[j] == t[j - 1]);
                if i > 0 {
                    assert(r[i] == t[i - 1]);
                }
            }
        } else if s[0].0 == e.0 {
            assert forall|i: int, j: int| 0 <= i < j < r.len() implies key_before(
                #[trigger] r[i].0,
                #[trigger] r[j].0,
            ) by {
                assert(r[j] == rest[j - 1]);
                if i > 0 {
                    assert(r[i] == rest[i - 1]);
                }
            }
        } else {
            if !key_before(e.0, s[0].0) {
                assert(s[0].0.subrange(0, 0) =~= e.0.subrange(0, 0));
                lemma_key_before_total(s[0].0, e.0, 0);
            }
            assert forall|i: int, j: int| 0 <= i < j < r.len() implies key_before(
                #[trigger] r[i].0,
                #[trigger] r[j].0,
            ) by {
                assert(r[j] == s[j - 1]);
                if i > 0 {
                    assert(r[i] == s[i - 1]);
                } else if j > 1 {
                    lemma_key_before_transitive(e.0, s[0].0, s[j - 1].0, 0);
                }
            }
        }
    }
}

/// The entries that an object's compact JSON writes are sorted by key, with
/// no key twice.
pub proof fn sorted_entries_increasing(entries: Seq<(Seq<char>, Seq<u8>)>)
    ensures
        keys_increasing(sorted_entries(entries)),
    decreases entries.len(),
{
    if entries.len() > 0 {
        sorted_entries_increasing(entries.drop_last());
        lemma_insert_entry_increasing(sorted_entries(entries.drop_last()), entries.last());
    }
}

/// The texts `"key":value` of entries.
pub open spec fn entry_texts(entries: Seq<(Seq<char>, Seq<u8>)>) -> Seq<Seq<u8>> {
    entries.map_values(|e: (Seq<char>, Seq<u8>)| json_string(e.0) + seq![58u8] + e.1)
}

/// The compact JSON text of a value, as serde_json writes a `Value`: no
/// whitespace, elements in order, object members sorted by key with one per
/// key (the last given wins), strings escaped as in `json_string`.
pub open spec fn json_bytes(v: JsonView) -> Seq<u8>
    decreases v,
{
    match v {
        JsonView::Null => utf8("null"@),
        JsonView::Bool(b) => if b {
            utf8("true"@)
        } else {
            utf8("false"@)
        },
        JsonView::Number(n) => number_bytes(n),
        JsonView::Str(s) => json_string(s),
        JsonView::Array(items) => seq![91u8] + join_commas(element_texts(items)) + seq![93u8],
        JsonView::Object(members) => seq![123u8] + join_commas(
            entry_texts(sorted_entries(member_entries(members))),
        ) + seq![125u8],
    }
}

/// Adding one more part to a comma-joined list.
pub proof fn lemma_join_commas_step(parts: Seq<Seq<u8>>, i: int)
    requires
        0 <= i < parts.len(),
    ensures
        join_commas(parts.take(i + 1)) == if i == 0 {
            parts[0]
        } else {
            join_commas(parts.take(i)) + seq![44u8] + parts[i]
        },
{
    assert(parts.take(i + 1).drop_last() =~= parts.take(i));
    if i == 0 {
        assert(parts.take(1)[0] == parts[0]);
    }
}

impl JsonNumber {
    /// Append the JSON text of this number.
    pub fn write_to(&self, out: &mut Vec<u8>)
        ensures
            final(out)@ == old(out)@ + number_bytes(self@),
    {
        match self {
            JsonNumber::PosInt(u) => push_decimal(out, *u),
            JsonNumber::NegInt(i) => {
                if *i < 0 {
                    out.push(45u8);
                    let magnitude: u64 = (0 - (*i as i128)) as u64;
                    push_decimal(out, magnitude);
                    assert(final(out)@ =~= old(out)@ + number_bytes(self@));
                } else {
                    push_decimal(out, *i as u64);
                }
            },
            JsonNumber::Float(t) => push_text(out, t.as_str()),
        }
    }
}

/// Append the comma-joined texts of the elements of an array.
#[verifier::loop_isolation(false)]
fn write_elements(v: &Vec<Json>, out: &mut Vec<u8>)
    ensures
        final(out)@ == old(out)@ + join_commas(element_texts(v@.map_values(|x: Json| x@))),
    decreases v,
{
    let ghost items = v@.map_values(|x: Json| x@);
    let ghost parts = element_texts(items);
    let ghost start = out@;
    let n = v.len();
    assert(parts.len() == n);
    for i in 0..n
        invariant
            n == v.len(),
            out@ == start + join_commas(parts.take(i as int)),
    {
        proof {
            lemma_join_commas_step(parts, i as int);
        }
        if i > 0 {
            out.push(44u8);
        }
        assert(decreases_to!(v => v[i as int]));
        v[i].write_to(out);
        assert(parts[i as int] == json_bytes(v[i as int]@));
        assert(out@ =~= start + join_commas(parts.take(i + 1)));
    }
    assert(parts.take(n as int) =~= parts);
}

/// The view of a list of entries.
pub open spec fn entries_view(v: Seq<(String, Vec<u8>)>) -> Seq<(Seq<char>, Seq<u8>)> {
    v.map_values(|e: (String, Vec<u8>)| (e.0@, e.1@))
}

/// Whether key `a` comes before key `b`.
fn key_precedes(a: &str, b: &str) -> (res: bool)
    ensures
        res == key_before(a@, b@),
{
    let x = chars_of(a);
    let y = chars_of(b);
    let mut i: usize = 0;
    while i < x.len() && i < y.len() && x[i] == y[i]
        invariant
            x@ == a@,
            y@ == b@,
            i <= x@.len(),
            i <= y@.len(),
            key_before(a@, b@) == key_before_from(a@, b@, i as int),
        decreases x@.len() - i,
    {
        i = i + 1;
    }
    if i >= x.len() {
        i < y.len()
    } else if i >= y.len() {
        false
    } else {
        x[i] < y[i]
    }
}

/// Where an entry stands after the entries before it: the result of
/// `insert_entry` at the first position whose key is not earlier.
proof fn lemma_insert_entry_at(s: Seq<(Seq<char>, Seq<u8>)>, e: (Seq<char>, Seq<u8>), p: int)
    requires
        0 <= p <= s.len(),
        forall|j: int| 0 <= j < p ==> key_before(#[trigger] s[j].0, e.0),
        p < s.len() ==> !key_before(s[p].0, e.0),
    ensures
        insert_entry(s, e) == if p < s.len() && s[p].0 == e.0 {
            s.update(p, e)
        } else {
            s.insert(p, e)
        },
    decreases p,
{
    if p == 0 {
        if s.len() > 0 {
            if s[0].0 == e.0 {
                assert(seq![e] + s.drop_first() =~= s.update(0, e));
            } else {
                assert(seq![e] + s =~= s.insert(0, e));
            }
        } else {
            assert(seq![e] =~= s.insert(0, e));
        }
    } else {
        let rest = s.drop_first();
        assert forall|j: int| 0 <= j < p - 1 implies key_before(#[trigger] rest[j].0, e.0) by {
            assert(rest[j] == s[j + 1]);
        }
        assert(key_before(s[0].0, e.0));
        lemma_insert_entry_at(rest, e, p - 1);
        if p < s.len() && s[p].0 == e.0 {
            assert(seq![s[0]] + rest.update(p - 1, e) =~= s.update(p, e));
        } else {
            assert(seq![s[0]] + rest.insert(p - 1, e) =~= s.insert(p, e));
        }
    }
}

/// Put an entry into a list kept in key order.
fn insert_sorted(v: &mut Vec<(String, Vec<u8>)>, key: String, bytes: Vec<u8>)
    ensures
        entries_view(final(v)@) == insert_entry(entries_view(old(v)@), (key@, bytes@)),
{
    let ghost e = (key@, bytes@);
    let ghost before = entries_view(v@);
    let n = v.len();
    let mut p: usize = 0;
    while p < n && key_precedes(v[p].0.as_str(), key.as_str())
        invariant
            n == v@.len(),
            p <= n,
            before == entries_view(v@),
            e == (key@, bytes@),
            forall|j: int| 0 <= j < p ==> key_before(#[trigger] before[j].0, e.0),
        decreases n - p,
    {
        assert(before[p as int].0 == v@[p as int].0@);
        p = p + 1;
    }
    proof {
        lemma_insert_entry_at(before, e, p as int);
    }
    if p < n && text_equal(v[p].0.as_str(), key.as_str()) {
        v.set(p, (key, bytes));
        assert(entries_view(v@) =~= before.update(p as int, e));
    } else {
        v.insert(p, (key, bytes));
        assert(entries_view(v@) =~= before.insert(p as int, e));
    }
}

/// Append the comma-joined `"key":value` texts of the members of an object,
/// sorted by key with one per key.
#[verifier::loop_isolation(false)]
fn write_members(v: &Vec<(String, Json)>, out: &mut Vec<u8>)
    ensures
        final(out)@ == old(out)@ + join_commas(
            entry_texts(sorted_entries(member_entries(v@.map_values(|m: (String, Json)| (m.0@, m.1@))))),
        ),
    decreases v,
{
    let ghost members = v@.map_values(|m: (String, Json)| (m.0@, m.1@));
    let ghost raw = member_entries(members);
    let n = v.len();
    assert(raw.len() == n);
    let mut sorted: Vec<(String, Vec<u8>)> = Vec::new();
    assert(raw.take(0) =~= Seq::<(Seq<char>, Seq<u8>)>::empty());
    assert(entries_view(sorted@) =~= Seq::<(Seq<char>, Seq<u8>)>::empty());
    for i in 0..n
        invariant
            n == v.len(),
            entries_view(sorted@) == sorted_entries(raw.take(i as int)),
    {
        let member = &v[i];
        let mut bytes: Vec<u8> = Vec::new();
        assert(decreases_to!(v => v[i as int]));
        assert(decreases_to!(v[i as int] => v[i as int].1));
        member.1.write_to(&mut bytes);
        assert(bytes@ =~= json_bytes(v[i as int].1@));
        assert(raw[i as int] == (member.0@, bytes@));
        insert_sorted(&mut sorted, member.0.clone(), bytes);
        assert(raw.take(i + 1).drop_last() =~= raw.take(i as int));
    }
    assert(raw.take(n as int) =~= raw);
    let ghost parts = entry_texts(entries_view(sorted@));
    let ghost start = out@;
    let m = sorted.len();
    for j in 0..m
        invariant
            m == sorted@.len(),
            parts == entry_texts(entries_view(sorted@)),
            out@ == start + join_commas(parts.take(j as int)),
    {
        proof {
            lemma_join_commas_step(parts, j as int);
        }
        if j > 0 {
            out.push(44u8);
        }
        let entry = &sorted[j];
        push_json_string(out, entry.0.as_str());
        out.push(58u8);
        push_all(out, entry.1.as_slice());
        assert(parts[j as int] == json_string(sorted@[j as int].0@) + seq![58u8] + sorted@[j as int].1@);
        assert(out@ =~= start + join_commas(parts.take(j + 1)));
    }
    assert(parts.take(m as int) =~= parts);
}

impl Json {
    /// Append the compact JSON text of this value to `out`.
    pub fn write_to(&self, out: &mut Vec<u8>)
        ensures
            final(out)@ == old(out)@ + json_bytes(self@),
        decreases self,
    {
        match self {
            Json::Null => push_text(out, "null"),
            Json::Bool(b) => {
                if *b {
                    push_text(out, "true")
                } else {
                    push_text(out, "false")
                }
            },
            Json::Number(n) => n.write_to(out),
            Json::Str(s) => push_json_string(out, s.as_str()),
            Json::Array(v) => {
                assert(self@->Array_0 =~= v@.map_values(|x: Json| x@));
                out.push(91u8);
                write_elements(v, out);
                out.push(93u8);
                assert(final(out)@ =~= old(out)@ + json_bytes(self@));
            },
            Json::Object(v) => {
                assert(self@->Object_0 =~= v@.map_values(|m: (String, Json)| (m.0@, m.1@)));
                out.push(123u8);
                write_members(v, out);
                out.push(125u8);
                assert(final(out)@ =~= old(out)@ + json_bytes(self@));
            },
        }
    }

    /// The compact JSON text of this value.
    pub fn to_json_bytes(&self) -> (res: Vec<u8>)
        ensures
            res@ == json_bytes(self@),
    {
        let mut out: Vec<u8> = Vec::new();
        self.write_to(&mut out);
        assert(out@ =~= json_bytes(self@));
        out
    }
}

} // verus!

verus! {

#[verifier::external_type_specification]
#[verifier::external_body]
pub struct ExJsonValue(serde_json::Value);

/// Move a `serde_json::Value` into the library's `Json`, variant by variant
/// (numbers keep serde_json's own distinction between non-negative integers,
/// negative integers and floats; a float keeps the text serde_json prints for
/// it). Nothing is stated of the result: it is only reached through
/// `parse_json`, whose contract covers the whole parse.
#[verifier::external_body]
fn json_from_value(v: serde_json::Value) -> Json {
    match v {
        serde_json::Value::Null => Json::Null,
        serde_json::Value::Bool(b) => Json::Bool(b),
        serde_json::Value::Number(n) => Json::Number(match (n.as_u64(), n.as_i64()) {
            (Some(u), _) => JsonNumber::PosInt(u),
            (None, Some(i)) => JsonNumber::NegInt(i),
            (None, None) => JsonNumber::Float(n.to_string()),
        }),
        serde_json::Value::String(s) => Json::Str(s),
        serde_json::Value::Array(a) => Json::Array(a.into_iter().map(json_from_value).collect()),
        serde_json::Value::Object(m) => Json::Object(m.into_iter().map(|(k, x)| (k, json_from_value(x))).collect()),
    }
}

/// What `serde_json::from_str::<serde_json::Value>` makes of a text: the value
/// it reads (object members in the order serde_json's map keeps them), or the
/// message of the error it reports.
pub uninterp spec fn serde_json_parse(text: Seq<char>) -> Result<JsonView, Seq<char>>;

/// Parse a JSON text with `serde_json::from_str::<serde_json::Value>`.
/// The contract claims only that the outcome is the one `serde_json_parse`
/// names for this text: the JSON grammar itself is serde_json's.
#[verifier::external_body]
pub(crate) fn parse_json(text: &str) -> (res: Result<Json, String>)
    ensures
        match res {
            Ok(v) => serde_json_parse(text@) matches Ok(w) && w == v@,
            Err(e) => serde_json_parse(text@) matches Err(m) && m == e@,
        },
{
    match serde_json::from_str::<serde_json::Value>(text) {
        Ok(v) => Ok(json_from_value(v)),
        Err(e) => Err(e.to_string()),
    }
}

/// The value of the last member named `key` among `members[..i]`.
pub open spec fn member_before(members: Seq<(Seq<char>, JsonView)>, key: Seq<char>, i: int) -> Option<JsonView>
    decreases i,
{
    if i <= 0 || i > members.len() {
        None
    } else if members[i - 1].0 == key {
        Some(members[i - 1].1)
    } else {
        member_before(members, key, i - 1)
    }
}

/// The value of member `key` of an object, as the object's map holds it: the
/// last member given under that key (`None` for a missing member or a value
/// that is not an object).
pub open spec fn json_member(v: JsonView, key: Seq<char>) -> Option<JsonView> {
    match v {
        JsonView::Object(members) => member_before(members, key, members.len() as int),
        _ => None,
    }
}

/// The text of a string value.
pub open spec fn json_as_str(v: JsonView) -> Option<Seq<char>> {
    match v {
        JsonView::Str(s) => Some(s),
        _ => None,
    }
}

/// The integer of a non-negative integer value.
pub open spec fn json_as_u64(v: JsonView) -> Option<u64> {
    match v {
        JsonView::Number(NumberView::PosInt(u)) => Some(u),
        _ => None,
    }
}

impl Clone for Json {
    /// A copy of this value.
    fn clone(&self) -> (res: Json)
        ensures
            res@ == self@,
    {
        self.duplicate()
    }
}

impl Json {
    /// The value of member `key` of an object: the last member given under
    /// that key.
    pub fn get(&self, key: &str) -> (res: Option<&Json>)
        ensures
            match res {
                Some(r) => json_member(self@, key@) == Some(r@),
                None => json_member(self@, key@) is None,
            },
    {
        match self {
            Json::Object(v) => {
                let ghost members = v@.map_values(|m: (String, Json)| (m.0@, m.1@));
                assert(self@->Object_0 =~= members);
                let mut i = v.len();
                while i > 0
                    invariant
                        i <= v.len(),
                        members == v@.map_values(|m: (String, Json)| (m.0@, m.1@)),
                        json_member(self@, key@) == member_before(members, key@, i as int),
                    decreases i,
                {
                    if text_equal(v[i - 1].0.as_str(), key) {
                        return Some(&v[i - 1].1);
                    }
                    i = i - 1;
                }
                None
            },
            _ => None,
        }
    }

    /// The text of a string value.
    pub fn as_str(&self) -> (res: Option<&String>)
        ensures
            match res {
                Some(s) => json_as_str(self@) == Some(s@),
                None => json_as_str(self@) is None,
            },
    {
        match self {
            Json::Str(s) => Some(s),
            _ => None,
        }
    }

    /// The integer of a non-negative integer value.
    pub fn as_u64(&self) -> (res: Option<u64>)
        ensures
            res == json_as_u64(self@),
    {
        match self {
            Json::Number(JsonNumber::PosInt(u)) => Some(*u),
            _ => None,
        }
    }

    /// Whether this is the `null` value.
    pub fn is_null(&self) -> (res: bool)
        ensures
            res == (self@ == JsonView::Null),
    {
        match self {
            Json::Null => true,
            _ => false,
        }
    }

    /// A copy of this value.
    pub fn duplicate(&self) -> (res: Json)
        ensures
            res@ == self@,
        decreases self,
    {
        match self {
            Json::Null => Json::Null,
            Json::Bool(b) => Json::Bool(*b),
            Json::Number(n) => Json::Number(
                match n {
                    JsonNumber::PosInt(u) => JsonNumber::PosInt(*u),
                    JsonNumber::NegInt(i) => JsonNumber::NegInt(*i),
                    JsonNumber::Float(t) => JsonNumber::Float(t.clone()),
                },
            ),
            Json::Str(s) => Json::Str(s.clone()),
            Json::Array(v) => {
                let r = duplicate_elements(v);
                assert(self@->Array_0 =~= v@.map_values(|x: Json| x@));
                assert(Json::Array(r)@->Array_0 =~= r@.map_values(|x: Json| x@));
                Json::Array(r)
            },
            Json::Object(v) => {
                let r = duplicate_members(v);
                assert(self@->Object_0 =~= v@.map_values(|m: (String, Json)| (m.0@, m.1@)));
                assert(Json::Object(r)@->Object_0 =~= r@.map_values(|m: (String, Json)| (m.0@, m.1@)));
                Json::Object(r)
            },
        }
    }
}

fn duplicate_elements(v: &Vec<Json>) -> (res: Vec<Json>)
    ensures
        res@.map_values(|x: Json| x@) =~= v@.map_values(|x: Json| x@),
    decreases v,
{
    let mut r: Vec<Json> = Vec::new();
    let n = v.len();
    for i in 0..n
        invariant
            n == v.len(),
            r@.len() == i,
            forall|k: int| 0 <= k < i ==> #[trigger] r@[k]@ == v@[k]@,
    {
        assert(decreases_to!(v => v[i as int]));
        r.push(v[i].duplicate());
    }
    r
}

fn duplicate_members(v: &Vec<(String, Json)>) -> (res: Vec<(String, Json)>)
    ensures
        res@.map_values(|m: (String, Json)| (m.0@, m.1@)) =~= v@.map_values(
            |m: (String, Json)| (m.0@, m.1@),
        ),
    decreases v,
{
    let mut r: Vec<(String, Json)> = Vec::new();
    let n = v.len();
    for i in 0..n
        invariant
            n == v.len(),
            r@.len() == i,
            forall|k: int| 0 <= k < i ==> (#[trigger] r@[k]).0@ == v@[k].0@ && r@[k].1@ == v@[k].1@,
    {
        assert(decreases_to!(v => v[i as int]));
        assert(decreases_to!(v[i as int] => v[i as int].1));
        let key = v[i].0.clone();
        let value = v[i].1.duplicate();
        r.push((key, value));
        assert(r@[i as int].0@ == v@[i as int].0@);
    }
    r
}

} // verus!
