//! Capturing a session: the `--context` option, the session's metadata and
//! the event that each line of input becomes.
use vstd::prelude::*;
use crate::encoding::text_equal;
use crate::event::{
    copy_text, is_uuid_v7_text, line_kind, line_payload, line_timestamp, opt_view, Event,
    EventContext, EventKind,
};
use crate::json::{json_member, serde_json_parse, Json, JsonNumber, JsonView, NumberView};
use crate::numbers::{parse_u64, parse_unsigned};
use crate::text::{
    chars_of, find_char, first_index, is_white_space, slice_chars, string_of, trim, trim_chars,
    trim_end, trim_end_cr, trim_start,
};

verus! {

/// The pieces of `s` between the occurrences of `sep` (`str::split`); there
/// is always at least one.
pub open spec fn split_on(s: Seq<char>, sep: char) -> Seq<Seq<char>>
    decreases s.len(),
{
    if s.len() == 0 {
        seq![Seq::empty()]
    } else {
        let prev = split_on(s.drop_last(), sep);
        if s.last() == sep {
            prev.push(Seq::empty())
        } else {
            prev.update(prev.len() - 1, prev.last().push(s.last()))
        }
    }
}

/// The key of a `key=value` pair: what precedes the first `=`, or the whole
/// pair when it has none.
pub open spec fn key_of(pair: Seq<char>) -> Seq<char> {
    pair.subrange(0, first_index(pair, '='))
}

/// The value of a `key=value` pair: what follows the first `=`, or nothing
/// when it has none.
pub open spec fn value_of(pair: Seq<char>) -> Seq<char> {
    if first_index(pair, '=') < pair.len() {
        pair.subrange(first_index(pair, '=') + 1, pair.len() as int)
    } else {
        Seq::empty()
    }
}

/// The repository, branch and pull-request number that a list of
/// `key=value` pairs sets: for each of the keys `repo`, `branch` and `pr`
/// (trimmed), the last pair naming it wins; its trimmed value is taken as is,
/// and for `pr` read as a number (an unreadable one clears it).
pub open spec fn context_fold(pairs: Seq<Seq<char>>) -> (Option<Seq<char>>, Option<Seq<char>>, Option<u64>)
    decreases pairs.len(),
{
    if pairs.len() == 0 {
        (None, None, None)
    } else {
        let acc = context_fold(pairs.drop_last());
        let key = trim(key_of(pairs.last()));
        let value = trim(value_of(pairs.last()));
        if key == "repo"@ {
            (Some(value), acc.1, acc.2)
        } else if key == "branch"@ {
            (acc.0, Some(value), acc.2)
        } else if key == "pr"@ {
            (acc.0, acc.1, parse_u64(value))
        } else {
            acc
        }
    }
}

/// The repository, branch and pull-request number that a `--context` text
/// sets: its comma-separated pairs, folded.
pub open spec fn context_fields(ctx: Seq<char>) -> (Option<Seq<char>>, Option<Seq<char>>, Option<u64>) {
    context_fold(split_on(ctx, ','))
}

/// The view of the parsed context fields.
pub open spec fn fields_view(t: (Option<String>, Option<String>, Option<u64>)) -> (
    Option<Seq<char>>,
    Option<Seq<char>>,
    Option<u64>,
) {
    (opt_view(t.0), opt_view(t.1), t.2)
}

/// Apply one `key=value` pair to the fields read so far.
fn apply_pair(acc: (Option<String>, Option<String>, Option<u64>), pair: &Vec<char>) -> (res: (
    Option<String>,
    Option<String>,
    Option<u64>,
))
    ensures
        fields_view(res) == ({
            let key = trim(key_of(pair@));
            let value = trim(value_of(pair@));
            let a = fields_view(acc);
            if key == "repo"@ {
                (Some(value), a.1, a.2)
            } else if key == "branch"@ {
                (a.0, Some(value), a.2)
            } else if key == "pr"@ {
                (a.0, a.1, parse_u64(value))
            } else {
                a
            }
        }),
{
    let n = pair.len();
    let i = find_char(pair, '=');
    let head = slice_chars(pair, 0, i);
    let key_chars = trim_chars(&head);
    let value_chars = if i < n {
        let tail = slice_chars(pair, i + 1, n);
        trim_chars(&tail)
    } else {
        assert(trim(Seq::<char>::empty()) =~= Seq::<char>::empty());
        Vec::new()
    };
    let key = string_of(key_chars.as_slice());
    let (repo, branch, pr) = acc;
    if text_equal(key.as_str(), "repo") {
        (Some(string_of(value_chars.as_slice())), branch, pr)
    } else if text_equal(key.as_str(), "branch") {
        (repo, Some(string_of(value_chars.as_slice())), pr)
    } else if text_equal(key.as_str(), "pr") {
        (repo, branch, parse_unsigned(&value_chars))
    } else {
        (repo, branch, pr)
    }
}

/// Parse `--context "repo=X,branch=Y,pr=N"` into `(repo, branch, pr_number)`.
///
/// Pairs are separated by commas, keys from values by the first `=`; keys and
/// values are trimmed; unknown keys are ignored; a later pair overrides an
/// earlier one; a `pr` value that is not a number leaves no PR number.
pub fn parse_context(ctx: &str) -> (res: (Option<String>, Option<String>, Option<u64>))
    ensures
        fields_view(res) == context_fields(ctx@),
{
    let chars = chars_of(ctx);
    let n = chars.len();
    let mut acc: (Option<String>, Option<String>, Option<u64>) = (None, None, None);
    let mut current: Vec<char> = Vec::new();
    let mut i: usize = 0;
    assert(chars@.take(0) =~= Seq::<char>::empty());
    while i < n
        invariant
            n == chars@.len(),
            chars@ == ctx@,
            i <= n,
            split_on(chars@.take(i as int), ',').len() >= 1,
            current@ == split_on(chars@.take(i as int), ',').last(),
            fields_view(acc) == context_fold(split_on(chars@.take(i as int), ',').drop_last()),
        decreases n - i,
    {
        let c = chars[i];
        let ghost prev = split_on(chars@.take(i as int), ',');
        assert(chars@.take(i + 1).drop_last() =~= chars@.take(i as int));
        assert(chars@.take(i + 1).last() == c);
        if c == ',' {
            acc = apply_pair(acc, &current);
            current = Vec::new();
            assert(split_on(chars@.take(i + 1), ',') == prev.push(Seq::<char>::empty()));
            assert(prev.push(Seq::<char>::empty()).drop_last() =~= prev);
            assert(current@ =~= Seq::<char>::empty());
        } else {
            current.push(c);
            let ghost next = prev.update(prev.len() - 1, prev.last().push(c));
            assert(split_on(chars@.take(i + 1), ',') == next);
            assert(next.drop_last() =~= prev.drop_last());
        }
        i = i + 1;
    }
    assert(chars@.take(n as int) =~= chars@);
    apply_pair(acc, &current)
}

/// What a `Json` object member holding an optional text becomes: the text,
/// or `null`.
pub open spec fn optional_text_json(o: Option<String>) -> JsonView {
    match o {
        Some(s) => JsonView::Str(s@),
        None => JsonView::Null,
    }
}

/// What a `Json` object member holding an optional number becomes: the
/// number, or `null`.
pub open spec fn optional_number_json(o: Option<u64>) -> JsonView {
    match o {
        Some(n) => JsonView::Number(NumberView::PosInt(n)),
        None => JsonView::Null,
    }
}

fn text_or_null(o: &Option<String>) -> (res: Json)
    ensures
        res@ == optional_text_json(*o),
{
    match o {
        Some(s) => Json::Str(s.clone()),
        None => Json::Null,
    }
}

/// The metadata recorded for a captured session: its name, source, and the
/// repository, branch and PR number from `--context` (`null` when unset).
pub fn session_metadata(
    session: &str,
    source: &str,
    repo: &Option<String>,
    branch: &Option<String>,
    pr_number: Option<u64>,
) -> (res: Json)
    ensures
        res@ == JsonView::Object(
            seq![
                ("session_id"@, JsonView::Str(session@)),
                ("source"@, JsonView::Str(source@)),
                ("repo"@, optional_text_json(*repo)),
                ("branch"@, optional_text_json(*branch)),
                ("pr_number"@, optional_number_json(pr_number)),
            ],
        ),
{
    let mut members: Vec<(String, Json)> = Vec::new();
    members.push(("session_id".to_owned(), Json::Str(session.to_owned())));
    members.push(("source".to_owned(), Json::Str(source.to_owned())));
    members.push(("repo".to_owned(), text_or_null(repo)));
    members.push(("branch".to_owned(), text_or_null(branch)));
    let pr = match pr_number {
        Some(n) => Json::Number(JsonNumber::PosInt(n)),
        None => Json::Null,
    };
    members.push(("pr_number".to_owned(), pr));
    assert(members@[0].0@ == "session_id"@ && members@[0].1@ == JsonView::Str(session@));
    assert(members@[1].0@ == "source"@ && members@[1].1@ == JsonView::Str(source@));
    assert(members@[2].0@ == "repo"@ && members@[2].1@ == optional_text_json(*repo));
    assert(members@[3].0@ == "branch"@ && members@[3].1@ == optional_text_json(*branch));
    assert(members@[4].0@ == "pr_number"@ && members@[4].1@ == optional_number_json(pr_number));
    let res = Json::Object(members);
    assert(res@->Object_0 =~= seq![
        ("session_id"@, JsonView::Str(session@)),
        ("source"@, JsonView::Str(source@)),
        ("repo"@, optional_text_json(*repo)),
        ("branch"@, optional_text_json(*branch)),
        ("pr_number"@, optional_number_json(pr_number)),
    ]);
    res
}

/// The context that capture puts on every event: the session, the
/// repository, branch and PR number from `--context`, nothing else.
pub open spec fn captured_context(
    c: EventContext,
    session: Seq<char>,
    repo: Option<String>,
    branch: Option<String>,
    pr_number: Option<u64>,
) -> bool {
    &&& c.session_id@ == session
    &&& c.repo == repo
    &&& c.branch == branch
    &&& c.pr_number == pr_number
    &&& c.tool is None
    &&& c.policy is None
    &&& c.result is None
}

/// Whether a trimmed input line is read as a JSONL event: it starts with `{`
/// and parses as JSON.
pub open spec fn reads_as_json(t: Seq<char>) -> bool {
    t.len() > 0 && t[0] == '{' && serde_json_parse(t) is Ok
}

/// Trimmed text ends in no white space, so in no carriage return.
proof fn lemma_trimmed_no_trailing_cr(s: Seq<char>)
    ensures
        trim_end_cr(trim(s)) == trim(s),
{
    lemma_trim_end_last(trim_start(s));
}

proof fn lemma_trim_end_last(s: Seq<char>)
    ensures
        trim_end(s).len() > 0 ==> !is_white_space(trim_end(s).last()),
    decreases s.len(),
{
    if s.len() > 0 && is_white_space(s.last()) {
        lemma_trim_end_last(s.drop_last());
    }
}

/// The event that one line of captured input becomes, or `None` for a blank
/// line. The line is trimmed; one that starts with `{` and parses as JSON is
/// read as a JSONL event, any other as plain text. The event then takes the
/// capture's source, and a context holding the session and the fields of
/// `--context`.
pub fn capture_line(
    line: &str,
    session: &str,
    source: &str,
    repo: &Option<String>,
    branch: &Option<String>,
    pr_number: Option<u64>,
) -> (res: Option<Event>)
    ensures
        (trim(line@).len() == 0) <==> res is None,
        res matches Some(ev) ==> {
            let t = trim(line@);
            &&& ev.source@ == source@
            &&& captured_context(ev.context, session@, *repo, *branch, pr_number)
            &&& is_uuid_v7_text(ev.id@)
            &&& if reads_as_json(t) {
                let v = serde_json_parse(t)->Ok_0;
                &&& ev.kind == line_kind(v)
                &&& ev.payload@ == line_payload(v)
                &&& (json_member(v, "payload"@) is None ==> ev.payload@ == v)
                &&& (line_timestamp(v) matches Some(ms) ==> ev.timestamp == ms)
            } else {
                &&& ev.kind == EventKind::Custom
                &&& ev.payload@ == JsonView::Object(seq![("text"@, JsonView::Str(t))])
            }
        },
{
    let chars = chars_of(line);
    let kept = trim_chars(&chars);
    if kept.len() == 0 {
        return None;
    }
    let trimmed = string_of(kept.as_slice());
    proof {
        lemma_trimmed_no_trailing_cr(line@);
    }
    let event = if kept[0] == '{' {
        match Event::from_json_line(trimmed.as_str(), session) {
            Ok(ev) => ev,
            Err(_) => Event::from_plain_text(trimmed.as_str(), session),
        }
    } else {
        Event::from_plain_text(trimmed.as_str(), session)
    };
    let context = EventContext {
        session_id: session.to_owned(),
        repo: copy_text(repo),
        branch: copy_text(branch),
        pr_number,
        tool: event.context.tool,
        policy: event.context.policy,
        result: event.context.result,
    };
    Some(
        Event {
            id: event.id,
            timestamp: event.timestamp,
            kind: event.kind,
            source: source.to_owned(),
            context,
            payload: event.payload,
        },
    )
}

} // verus!
