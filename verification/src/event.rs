//! Recorded events: their kinds, context, construction from input lines, and
//! their canonical JSON encoding (the bytes that are hashed).
use vstd::prelude::*;
use vstd::string::StringExecFns;
use crate::encoding::{decimal, json_string, push_decimal, push_json_string, push_text, text_equal, utf8};
use crate::json::{json_as_str, json_as_u64, json_bytes, json_member, parse_json, serde_json_parse, Json, JsonView};
use crate::text::{strip_trailing_cr, trim_end_cr};

verus! {

/// The kind of event being recorded.
#[derive(Debug, Clone, Copy, PartialEq, Eq, Structural)]
pub enum EventKind {
    ToolUse,
    FileEdit,
    ShellExec,
    PrAction,
    TestRun,
    Custom,
}

/// The snake_case name under which a kind is written.
pub open spec fn kind_name(k: EventKind) -> Seq<char> {
    match k {
        EventKind::ToolUse => "tool_use"@,
        EventKind::FileEdit => "file_edit"@,
        EventKind::ShellExec => "shell_exec"@,
        EventKind::PrAction => "pr_action"@,
        EventKind::TestRun => "test_run"@,
        EventKind::Custom => "custom"@,
    }
}

/// The kind whose snake_case name is `s`.
pub open spec fn kind_named(s: Seq<char>) -> Option<EventKind> {
    if s == "tool_use"@ {
        Some(EventKind::ToolUse)
    } else if s == "file_edit"@ {
        Some(EventKind::FileEdit)
    } else if s == "shell_exec"@ {
        Some(EventKind::ShellExec)
    } else if s == "pr_action"@ {
        Some(EventKind::PrAction)
    } else if s == "test_run"@ {
        Some(EventKind::TestRun)
    } else if s == "custom"@ {
        Some(EventKind::Custom)
    } else {
        None
    }
}

/// The kind a JSON value reads as: a string naming a kind, or an object with
/// exactly one member whose key names a kind and whose value is `null`.
pub open spec fn kind_from_json(v: JsonView) -> Option<EventKind> {
    match v {
        JsonView::Str(s) => kind_named(s),
        JsonView::Object(members) => if members.len() == 1 && members[0].1 == JsonView::Null {
            kind_named(members[0].0)
        } else {
            None
        },
        _ => None,
    }
}

impl EventKind {
    /// The snake_case name of this kind.
    pub fn name(&self) -> (res: &'static str)
        ensures
            res@ == kind_name(*self),
    {
        match self {
            EventKind::ToolUse => "tool_use",
            EventKind::FileEdit => "file_edit",
            EventKind::ShellExec => "shell_exec",
            EventKind::PrAction => "pr_action",
            EventKind::TestRun => "test_run",
            EventKind::Custom => "custom",
        }
    }

    /// The kind with the given snake_case name.
    pub fn from_name(s: &str) -> (res: Option<EventKind>)
        ensures
            res == kind_named(s@),
    {
        if text_equal(s, "tool_use") {
            Some(EventKind::ToolUse)
        } else if text_equal(s, "file_edit") {
            Some(EventKind::FileEdit)
        } else if text_equal(s, "shell_exec") {
            Some(EventKind::ShellExec)
        } else if text_equal(s, "pr_action") {
            Some(EventKind::PrAction)
        } else if text_equal(s, "test_run") {
            Some(EventKind::TestRun)
        } else if text_equal(s, "custom") {
            Some(EventKind::Custom)
        } else {
            None
        }
    }

    /// The kind a JSON value reads as, if any.
    pub fn from_json(v: &Json) -> (res: Option<EventKind>)
        ensures
            res == kind_from_json(v@),
    {
        match v {
            Json::Str(s) => EventKind::from_name(s.as_str()),
            Json::Object(members) => {
                assert(v@->Object_0 =~= members@.map_values(|m: (String, Json)| (m.0@, m.1@)));
                if members.len() == 1 && members[0].1.is_null() {
                    EventKind::from_name(members[0].0.as_str())
                } else {
                    None
                }
            },
            _ => None,
        }
    }
}

/// Context associated with an event (session, repo, branch, etc.).
#[derive(Debug, Clone, PartialEq)]
pub struct EventContext {
    pub session_id: String,
    pub repo: Option<String>,
    pub branch: Option<String>,
    pub pr_number: Option<u64>,
    pub tool: Option<String>,
    pub policy: Option<String>,
    pub result: Option<String>,
}

/// The view of an optional text.
pub open spec fn opt_view(o: Option<String>) -> Option<Seq<char>> {
    match o {
        Some(s) => Some(s@),
        None => None,
    }
}

/// Whether `c` is the minimal context of session `session_id`: only the
/// session is set.
pub open spec fn is_minimal_context(c: EventContext, session_id: Seq<char>) -> bool {
    &&& c.session_id@ == session_id
    &&& c.repo is None
    &&& c.branch is None
    &&& c.pr_number is None
    &&& c.tool is None
    &&& c.policy is None
    &&& c.result is None
}

impl EventContext {
    /// Create a minimal context with only a session ID.
    pub fn new(session_id: &str) -> (res: EventContext)
        ensures
            is_minimal_context(res, session_id@),
    {
        EventContext {
            session_id: session_id.to_owned(),
            repo: None,
            branch: None,
            pr_number: None,
            tool: None,
            policy: None,
            result: None,
        }
    }
}

/// A single recorded event.
#[derive(Debug, Clone, PartialEq)]
pub struct Event {
    pub id: String,
    /// Unix epoch milliseconds.
    pub timestamp: u64,
    pub kind: EventKind,
    pub source: String,
    pub context: EventContext,
    pub payload: Json,
}

/// An optional text member `,"name":"value"`, absent when the text is.
pub open spec fn optional_text_member(name: Seq<char>, value: Option<String>) -> Seq<u8> {
    match value {
        Some(s) => seq![44u8] + json_string(name) + seq![58u8] + json_string(s@),
        None => Seq::empty(),
    }
}

/// An optional number member `,"name":value`, absent when the number is.
pub open spec fn optional_number_member(name: Seq<char>, value: Option<u64>) -> Seq<u8> {
    match value {
        Some(n) => seq![44u8] + json_string(name) + seq![58u8] + decimal(n as nat),
        None => Seq::empty(),
    }
}

/// The canonical JSON of a context: members in declaration order, absent
/// optional members left out.
pub open spec fn context_bytes(c: EventContext) -> Seq<u8> {
    utf8("{\"session_id\":"@) + json_string(c.session_id@) + optional_text_member("repo"@, c.repo)
        + optional_text_member("branch"@, c.branch) + optional_number_member(
        "pr_number"@,
        c.pr_number,
    ) + optional_text_member("tool"@, c.tool) + optional_text_member("policy"@, c.policy)
        + optional_text_member("result"@, c.result) + seq![125u8]
}

/// The canonical JSON of an event: compact, the event's fields in
/// declaration order, the kind as its snake_case name, the payload as its
/// compact JSON (object members sorted by key, one per key). These are the
/// bytes that serde_json writes for the event.
#[verifier::opaque]
pub open spec fn event_bytes(e: Event) -> Seq<u8> {
    utf8("{\"id\":"@) + json_string(e.id@) + utf8(",\"timestamp\":"@) + decimal(
        e.timestamp as nat,
    ) + utf8(",\"kind\":"@) + json_string(kind_name(e.kind)) + utf8(",\"source\":"@)
        + json_string(e.source@) + utf8(",\"context\":"@) + context_bytes(e.context) + utf8(
        ",\"payload\":"@,
    ) + json_bytes(e.payload@) + seq![125u8]
}

fn push_optional_text(out: &mut Vec<u8>, name: &str, value: &Option<String>)
    ensures
        final(out)@ == old(out)@ + optional_text_member(name@, *value),
{
    match value {
        Some(s) => {
            out.push(44u8);
            push_json_string(out, name);
            out.push(58u8);
            push_json_string(out, s.as_str());
            assert(final(out)@ =~= old(out)@ + optional_text_member(name@, *value));
        },
        None => {
            assert(final(out)@ =~= old(out)@ + optional_text_member(name@, *value));
        },
    }
}

fn push_optional_number(out: &mut Vec<u8>, name: &str, value: Option<u64>)
    ensures
        final(out)@ == old(out)@ + optional_number_member(name@, value),
{
    match value {
        Some(n) => {
            out.push(44u8);
            push_json_string(out, name);
            out.push(58u8);
            push_decimal(out, n);
            assert(final(out)@ =~= old(out)@ + optional_number_member(name@, value));
        },
        None => {
            assert(final(out)@ =~= old(out)@ + optional_number_member(name@, value));
        },
    }
}

impl EventContext {
    /// Append the canonical JSON of this context.
    pub fn write_to(&self, out: &mut Vec<u8>)
        ensures
            final(out)@ == old(out)@ + context_bytes(*self),
    {
        let ghost start = out@;
        let ghost mut acc = utf8("{\"session_id\":"@);
        push_text(out, "{\"session_id\":");
        push_json_string(out, self.session_id.as_str());
        proof {
            vstd::seq_lib::lemma_concat_associative(start, acc, json_string(self.session_id@));
            acc = acc + json_string(self.session_id@);
        }
        assert(out@ == start + acc);
        push_optional_text(out, "repo", &self.repo);
        proof {
            vstd::seq_lib::lemma_concat_associative(start, acc, optional_text_member("repo"@, self.repo));
            acc = acc + optional_text_member("repo"@, self.repo);
        }
        assert(out@ == start + acc);
        push_optional_text(out, "branch", &self.branch);
        proof {
            vstd::seq_lib::lemma_concat_associative(start, acc, optional_text_member("branch"@, self.branch));
            acc = acc + optional_text_member("branch"@, self.branch);
        }
        assert(out@ == start + acc);
        push_optional_number(out, "pr_number", self.pr_number);
        proof {
            vstd::seq_lib::lemma_concat_associative(start, acc, optional_number_member("pr_number"@, self.pr_number));
            acc = acc + optional_number_member("pr_number"@, self.pr_number);
        }
        assert(out@ == start + acc);
        push_optional_text(out, "tool", &self.tool);
        proof {
            vstd::seq_lib::lemma_concat_associative(start, acc, optional_text_member("tool"@, self.tool));
            acc = acc + optional_text_member("tool"@, self.tool);
        }
        assert(out@ == start + acc);
        push_optional_text(out, "policy", &self.policy);
        proof {
            vstd::seq_lib::lemma_concat_associative(start, acc, optional_text_member("policy"@, self.policy));
            acc = acc + optional_text_member("policy"@, self.policy);
        }
        assert(out@ == start + acc);
        push_optional_text(out, "result", &self.result);
        proof {
            vstd::seq_lib::lemma_concat_associative(start, acc, optional_text_member("result"@, self.result));
            acc = acc + optional_text_member("result"@, self.result);
        }
        assert(out@ == start + acc);
        out.push(125u8);
        proof {
            vstd::seq_lib::lemma_concat_associative(start, acc, seq![125u8]);
            acc = acc + seq![125u8];
        }
        assert(out@ == start + acc);
    }

    /// A copy of this context.
    pub fn duplicate(&self) -> (res: EventContext)
        ensures
            res == *self,
    {
        EventContext {
            session_id: self.session_id.clone(),
            repo: copy_text(&self.repo),
            branch: copy_text(&self.branch),
            pr_number: self.pr_number,
            tool: copy_text(&self.tool),
            policy: copy_text(&self.policy),
            result: copy_text(&self.result),
        }
    }
}

/// A copy of an optional text.
pub(crate) fn copy_text(o: &Option<String>) -> (res: Option<String>)
    ensures
        res == *o,
{
    match o {
        Some(s) => Some(s.clone()),
        None => None,
    }
}

/// Whether `t` has the shape of the hyphenated lowercase text of a version-7
/// UUID: 36 characters, hyphens at positions 8, 13, 18 and 23, the version
/// digit `7` at position 14, lowercase hexadecimal digits elsewhere.
pub open spec fn is_uuid_v7_text(t: Seq<char>) -> bool {
    &&& t.len() == 36
    &&& forall|i: int|
        0 <= i < 36 ==> if i == 8 || i == 13 || i == 18 || i == 23 {
            #[trigger] t[i] == '-'
        } else {
            ('0' <= t[i] <= '9') || ('a' <= t[i] <= 'f')
        }
    &&& t[14] == '7'
}

/// A fresh event id: `uuid::Uuid::now_v7().to_string()`. The id depends on
/// the clock and on random bits; the contract states only its textual shape,
/// which the uuid crate documents (hyphenated lowercase, version 7).
#[verifier::external_body]
fn new_event_id() -> (res: String)
    ensures
        is_uuid_v7_text(res@),
{
    uuid::Uuid::now_v7().to_string()
}

#[verifier::external_type_specification]
#[verifier::external_body]
pub struct ExSystemTime(std::time::SystemTime);

/// `SystemTime::now`: the clock's reading. Nothing is stated of it.
#[verifier::external_body]
fn clock_now() -> (res: std::time::SystemTime) {
    std::time::SystemTime::now()
}

/// `SystemTime::duration_since(UNIX_EPOCH)`, `None` for a time before the
/// epoch. Nothing is stated of the duration.
#[verifier::external_body]
fn since_epoch(t: &std::time::SystemTime) -> (res: Option<std::time::Duration>) {
    t.duration_since(std::time::UNIX_EPOCH).ok()
}

/// `Duration::as_millis`: the whole milliseconds of a duration. Nothing is
/// stated of the value.
#[verifier::external_body]
fn whole_millis(d: &std::time::Duration) -> (res: u128) {
    d.as_millis()
}

/// A time as Unix epoch milliseconds in 64 bits, given the whole
/// milliseconds elapsed since the epoch (`None` for a time before it, which
/// counts as 0): the elapsed count truncated to its low 64 bits, as `as u64`
/// does.
pub fn epoch_millis(elapsed_ms: Option<u128>) -> (res: u64)
    ensures
        res == match elapsed_ms {
            Some(ms) => (ms % 0x1_0000_0000_0000_0000) as u64,
            None => 0,
        },
{
    match elapsed_ms {
        Some(ms) => {
            let low = #[verifier::truncate]
            (ms as u64);
            assert(low == (ms % 0x1_0000_0000_0000_0000) as u64) by (bit_vector)
                requires
                    low == ms as u64,
            ;
            low
        },
        None => 0,
    }
}

/// The current time as Unix epoch milliseconds (0 if the clock is before the
/// epoch), truncated to 64 bits. Nothing is stated of the value: it is the
/// clock's.
pub(crate) fn now_millis() -> (res: u64) {
    let elapsed = match since_epoch(&clock_now()) {
        Some(d) => Some(whole_millis(&d)),
        None => None,
    };
    epoch_millis(elapsed)
}

/// The kind named by member `kind` of a parsed line, `Custom` when it is
/// missing or names no kind.
pub open spec fn line_kind(v: JsonView) -> EventKind {
    match json_member(v, "kind"@) {
        Some(k) => match kind_from_json(k) {
            Some(kind) => kind,
            None => EventKind::Custom,
        },
        None => EventKind::Custom,
    }
}

/// The text of member `source` of a parsed line, `"jsonl"` when it is missing
/// or not a string.
pub open spec fn line_source(v: JsonView) -> Seq<char> {
    match json_member(v, "source"@) {
        Some(s) => match json_as_str(s) {
            Some(t) => t,
            None => "jsonl"@,
        },
        None => "jsonl"@,
    }
}

/// Member `payload` of a parsed line, or the whole value when it has none.
pub open spec fn line_payload(v: JsonView) -> JsonView {
    match json_member(v, "payload"@) {
        Some(p) => p,
        None => v,
    }
}

/// A parsed line's payload is its `payload` member, or the whole parsed
/// value when it has none; its source is its `source` text, `"jsonl"` when
/// there is none; its kind is `Custom` when it names none.
pub proof fn line_defaults(v: JsonView)
    ensures
        json_member(v, "payload"@) matches Some(p) ==> line_payload(v) == p,
        json_member(v, "payload"@) is None ==> line_payload(v) == v,
        json_member(v, "source"@) is None ==> line_source(v) == "jsonl"@,
        json_member(v, "source"@) matches Some(JsonView::Str(t)) ==> line_source(v) == t,
        json_member(v, "kind"@) is None ==> line_kind(v) == EventKind::Custom,
{
}

/// Member `timestamp` of a parsed line when it is a non-negative integer.
pub open spec fn line_timestamp(v: JsonView) -> Option<u64> {
    match json_member(v, "timestamp"@) {
        Some(t) => json_as_u64(t),
        None => None,
    }
}

impl Event {
    /// Create a new event with a fresh UUID v7 id and the current time.
    pub fn new(kind: EventKind, source: &str, context: EventContext, payload: Json) -> (res: Event)
        ensures
            is_uuid_v7_text(res.id@),
            res.kind == kind,
            res.source@ == source@,
            res.context == context,
            res.payload == payload,
    {
        let id = new_event_id();
        let timestamp = now_millis();
        Event { id, timestamp, kind, source: source.to_owned(), context, payload }
    }

    /// Parse a JSONL line into an event.
    ///
    /// Trailing carriage returns are removed first. The line must be JSON
    /// (else `Err` with `"JSON parse error: "` and serde_json's message).
    /// `kind` defaults to `Custom`, `source` to `"jsonl"`, `payload` to the
    /// whole value and `timestamp` to the current time; the context holds only
    /// the session; the id is a fresh UUID v7.
    pub fn from_json_line(line: &str, session_id: &str) -> (res: Result<Event, String>)
        ensures
            match serde_json_parse(trim_end_cr(line@)) {
                Err(m) => res matches Err(e) && e@ == "JSON parse error: "@ + m,
                Ok(v) => res matches Ok(ev) && {
                    &&& ev.kind == line_kind(v)
                    &&& ev.source@ == line_source(v)
                    &&& ev.payload@ == line_payload(v)
                    &&& (json_member(v, "payload"@) is None ==> ev.payload@ == v)
                    &&& (line_timestamp(v) matches Some(t) ==> ev.timestamp == t)
                    &&& is_minimal_context(ev.context, session_id@)
                    &&& is_uuid_v7_text(ev.id@)
                },
            },
    {
        let trimmed = strip_trailing_cr(line);
        match parse_json(trimmed.as_str()) {
            Ok(value) => Ok(Event::from_json_value(&value, session_id)),
            Err(e) => {
                let mut msg = "JSON parse error: ".to_owned();
                msg.append(e.as_str());
                Err(msg)
            },
        }
    }

    /// The event a parsed JSONL line describes: `kind` defaults to `Custom`,
    /// `source` to `"jsonl"`, `payload` to the whole value and `timestamp` to
    /// the current time; the context holds only the session; the id is a
    /// fresh UUID v7.
    pub fn from_json_value(value: &Json, session_id: &str) -> (res: Event)
        ensures
            res.kind == line_kind(value@),
            res.source@ == line_source(value@),
            res.payload@ == line_payload(value@),
            json_member(value@, "payload"@) matches Some(p) ==> res.payload@ == p,
            json_member(value@, "payload"@) is None ==> res.payload@ == value@,
            line_timestamp(value@) matches Some(t) ==> res.timestamp == t,
            is_minimal_context(res.context, session_id@),
            is_uuid_v7_text(res.id@),
    {
        let kind = match value.get("kind") {
            Some(k) => match EventKind::from_json(k) {
                Some(kind) => kind,
                None => EventKind::Custom,
            },
            None => EventKind::Custom,
        };
        let source = match value.get("source") {
            Some(s) => match s.as_str() {
                Some(t) => t.clone(),
                None => "jsonl".to_owned(),
            },
            None => "jsonl".to_owned(),
        };
        let payload = match value.get("payload") {
            Some(p) => p.duplicate(),
            None => value.duplicate(),
        };
        let timestamp = match value.get("timestamp") {
            Some(t) => match t.as_u64() {
                Some(ms) => ms,
                None => now_millis(),
            },
            None => now_millis(),
        };
        let context = EventContext::new(session_id);
        Event { id: new_event_id(), timestamp, kind, source, context, payload }
    }

    /// Wrap a plain text as a `Custom` event from source `"plain_text"` whose
    /// payload is `{"text": text}`.
    pub fn from_plain_text(text: &str, session_id: &str) -> (res: Event)
        ensures
            res.kind == EventKind::Custom,
            res.source@ == "plain_text"@,
            is_minimal_context(res.context, session_id@),
            res.payload@ == JsonView::Object(seq![("text"@, JsonView::Str(text@))]),
            is_uuid_v7_text(res.id@),
    {
        let context = EventContext::new(session_id);
        let mut members: Vec<(String, Json)> = Vec::new();
        members.push(("text".to_owned(), Json::Str(text.to_owned())));
        let payload = Json::Object(members);
        assert(members@[0].0@ == "text"@);
        assert(members@[0].1@ == JsonView::Str(text@));
        assert(payload@->Object_0 =~= seq![("text"@, JsonView::Str(text@))]);
        Event::new(EventKind::Custom, "plain_text", context, payload)
    }

    /// Append the canonical JSON of this event.
    pub fn write_to(&self, out: &mut Vec<u8>)
        ensures
            final(out)@ == old(out)@ + event_bytes(*self),
    {
        let ghost start = out@;
        let ghost mut acc = utf8("{\"id\":"@);
        push_text(out, "{\"id\":");
        push_json_string(out, self.id.as_str());
        proof {
            vstd::seq_lib::lemma_concat_associative(start, acc, json_string(self.id@));
            acc = acc + json_string(self.id@);
        }
        assert(out@ == start + acc);
        push_text(out, ",\"timestamp\":");
        proof {
            vstd::seq_lib::lemma_concat_associative(start, acc, utf8(",\"timestamp\":"@));
            acc = acc + utf8(",\"timestamp\":"@);
        }
        assert(out@ == start + acc);
        push_decimal(out, self.timestamp);
        proof {
            vstd::seq_lib::lemma_concat_associative(start, acc, decimal(self.timestamp as nat));
            acc = acc + decimal(self.timestamp as nat);
        }
        assert(out@ == start + acc);
        push_text(out, ",\"kind\":");
        proof {
            vstd::seq_lib::lemma_concat_associative(start, acc, utf8(",\"kind\":"@));
            acc = acc + utf8(",\"kind\":"@);
        }
        assert(out@ == start + acc);
        push_json_string(out, self.kind.name());
        proof {
            vstd::seq_lib::lemma_concat_associative(start, acc, json_string(kind_name(self.kind)));
            acc = acc + json_string(kind_name(self.kind));
        }
        assert(out@ == start + acc);
        push_text(out, ",\"source\":");
        proof {
            vstd::seq_lib::lemma_concat_associative(start, acc, utf8(",\"source\":"@));
            acc = acc + utf8(",\"source\":"@);
        }
        assert(out@ == start + acc);
        push_json_string(out, self.source.as_str());
        proof {
            vstd::seq_lib::lemma_concat_associative(start, acc, json_string(self.source@));
            acc = acc + json_string(self.source@);
        }
        assert(out@ == start + acc);
        push_text(out, ",\"context\":");
        proof {
            vstd::seq_lib::lemma_concat_associative(start, acc, utf8(",\"context\":"@));
            acc = acc + utf8(",\"context\":"@);
        }
        assert(out@ == start + acc);
        self.context.write_to(out);
        proof {
            vstd::seq_lib::lemma_concat_associative(start, acc, context_bytes(self.context));
            acc = acc + context_bytes(self.context);
        }
        assert(out@ == start + acc);
        push_text(out, ",\"payload\":");
        proof {
            vstd::seq_lib::lemma_concat_associative(start, acc, utf8(",\"payload\":"@));
            acc = acc + utf8(",\"payload\":"@);
        }
        assert(out@ == start + acc);
        self.payload.write_to(out);
        proof {
            vstd::seq_lib::lemma_concat_associative(start, acc, json_bytes(self.payload@));
            acc = acc + json_bytes(self.payload@);
        }
        assert(out@ == start + acc);
        out.push(125u8);
        proof {
            vstd::seq_lib::lemma_concat_associative(start, acc, seq![125u8]);
            acc = acc + seq![125u8];
        }
        assert(out@ == start + acc);
        assert(acc == event_bytes(*self)) by {
            reveal(event_bytes);
        }
    }

    /// The canonical JSON of this event.
    pub fn canonical_json(&self) -> (res: Vec<u8>)
        ensures
            res@ == event_bytes(*self),
    {
        let mut out: Vec<u8> = Vec::new();
        self.write_to(&mut out);
        assert(out@ =~= event_bytes(*self));
        out
    }

    /// A copy of this event: the same fields, the payload copied value for
    /// value.
    pub fn duplicate(&self) -> (res: Event)
        ensures
            res.id == self.id,
            res.timestamp == self.timestamp,
            res.kind == self.kind,
            res.source == self.source,
            res.context == self.context,
            res.payload@ == self.payload@,
    {
        Event {
            id: self.id.clone(),
            timestamp: self.timestamp,
            kind: self.kind,
            source: self.source.clone(),
            context: self.context.duplicate(),
            payload: self.payload.duplicate(),
        }
    }
}

} // verus!
