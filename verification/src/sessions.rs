//! Session logs: what their lines say of a session and its tokens.
use vstd::prelude::*;
use vstd::string::*;

#[allow(unused_imports)]
use vstd::utf8::*;

use crate::chart::TokenUsage;
use crate::json;
use crate::text::{blank, same_text, trim_start_matches};
use crate::timestamp::{timestamp_from_rfc3339, Timestamp};

#[allow(unused_imports)]
use crate::json::JsonTree;

verus! {

/// A session and the last token counts that its log holds. `modified_at` is the time of the last
/// change to the log, in nanoseconds since the epoch.
#[derive(Debug)]
pub struct SessionUsage {
    pub modified_at: i128,
    pub started_at: Option<Timestamp>,
    pub id: String,
    pub cwd: String,
    pub model: String,
    pub token_events: usize,
    pub total: Option<TokenUsage>,
}

#[verifier::ext_equal]
pub struct SessionView {
    pub modified_at: int,
    pub started_at: Option<(int, int)>,
    pub id: Seq<char>,
    pub cwd: Seq<char>,
    pub model: Seq<char>,
    pub token_events: nat,
    pub total: Option<TokenUsage>,
}

impl View for SessionUsage {
    type V = SessionView;

    open spec fn view(&self) -> SessionView {
        SessionView {
            modified_at: self.modified_at as int,
            started_at: crate::timestamp::moment(self.started_at),
            id: self.id@,
            cwd: self.cwd@,
            model: self.model@,
            token_events: self.token_events as nat,
            total: self.total,
        }
    }
}

pub open spec fn session_views(sessions: Seq<SessionUsage>) -> Seq<SessionView> {
    sessions.map_values(|s: SessionUsage| s@)
}

/// The id of a session after the name of its log.
pub open spec fn id_from_stem(stem: Option<Seq<char>>) -> Seq<char> {
    match stem {
        Some(stem) => crate::text::strip_prefixes(stem, "rollout-"@),
        None => crate::text::strip_prefixes("unknown-session"@, "rollout-"@),
    }
}

/// The id of a session after the name of its log, without directory and extension.
pub fn session_id_from_path(stem: Option<&str>) -> (r: String)
    ensures
        r@ == id_from_stem(crate::settings::value_of(stem)),
{
    match stem {
        Some(stem) => trim_start_matches(stem, "rollout-"),
        None => trim_start_matches("unknown-session", "rollout-"),
    }
}

/// Tells whether a file is the log of a session, after its extension.
pub fn is_session_log(extension: Option<&str>) -> (r: bool)
    ensures
        r == (crate::settings::value_of(extension) == Some("jsonl"@)),
{
    match extension {
        Some(extension) => same_text(extension, "jsonl"),
        None => false,
    }
}

/// A line of the given type.
pub open spec fn has_type(line: JsonTree, kind: Seq<char>) -> bool {
    line.member("type"@) == Some(JsonTree::Text(kind))
}

/// The text of a member of the payload, where it is one.
pub open spec fn payload_text(line: JsonTree, key: Seq<char>) -> Option<Seq<char>> {
    match line.member("payload"@) {
        Some(payload) => match payload.member(key) {
            Some(JsonTree::Text(text)) => Some(text),
            _ => None,
        },
        None => None,
    }
}

pub open spec fn or_else(text: Option<Seq<char>>, other: Seq<char>) -> Seq<char> {
    match text {
        Some(text) => text,
        None => other,
    }
}

/// The session after a line that may describe it.
pub open spec fn described(s: SessionView, line: JsonTree) -> SessionView {
    if has_type(line, "session_meta"@) {
        SessionView {
            id: or_else(payload_text(line, "id"@), s.id),
            started_at: match payload_text(line, "timestamp"@) {
                Some(timestamp) => crate::timestamp::rfc3339(timestamp),
                None => s.started_at,
            },
            cwd: or_else(payload_text(line, "cwd"@), s.cwd),
            ..s
        }
    } else if has_type(line, "turn_context"@) {
        SessionView {
            cwd: if s.cwd.len() == 0 {
                or_else(payload_text(line, "cwd"@), s.cwd)
            } else {
                s.cwd
            },
            model: or_else(payload_text(line, "model"@), s.model),
            ..s
        }
    } else {
        s
    }
}

fn is_type(line: &serde_json::Value, kind: &str) -> (r: bool)
    ensures
        r == has_type(json::json_tree(*line), kind@),
{
    match json::member_str(line, "type") {
        Some(text) => same_text(text, kind),
        None => false,
    }
}

fn payload_str<'a>(line: &'a serde_json::Value, key: &str) -> (r: Option<&'a str>)
    ensures
        crate::settings::value_of(r) == payload_text(json::json_tree(*line), key@),
{
    match json::member(line, "payload") {
        Some(payload) => json::member_str(payload, key),
        None => None,
    }
}

/// Takes over what a line says of the session.
pub fn update_session_metadata(session: &mut SessionUsage, line: &serde_json::Value)
    ensures
        final(session)@ == described(old(session)@, json::json_tree(*line)),
{
    proof {
        reveal_strlit("session_meta");
        reveal_strlit("turn_context");
        assert("session_meta"@[0] != "turn_context"@[0]);
    }
    if is_type(line, "session_meta") {
        if let Some(id) = payload_str(line, "id") {
            session.id = id.to_string();
        }
        if let Some(timestamp) = payload_str(line, "timestamp") {
            session.started_at = timestamp_from_rfc3339(timestamp);
        }
        if let Some(cwd) = payload_str(line, "cwd") {
            session.cwd = cwd.to_string();
        }
    }
    if is_type(line, "turn_context") {
        if session.cwd.as_str().is_empty() {
            if let Some(cwd) = payload_str(line, "cwd") {
                session.cwd = cwd.to_string();
            }
        }
        if let Some(model) = payload_str(line, "model") {
            session.model = model.to_string();
        }
    }
}

/// A member of a member.
pub open spec fn inner(tree: Option<JsonTree>, key: Seq<char>) -> Option<JsonTree> {
    match tree {
        Some(tree) => tree.member(key),
        None => None,
    }
}

/// A count among the token counts, 0 where it is no number.
pub open spec fn count_of(counts: JsonTree, key: Seq<char>) -> u64 {
    match counts.member(key) {
        Some(count) => match count.unsigned() {
            Some(n) => n,
            None => 0,
        },
        None => 0,
    }
}

/// The token counts that a line holds: that of an event which counts tokens.
pub open spec fn total_tokens_of(line: JsonTree) -> Option<TokenUsage> {
    let payload = line.member("payload"@);
    if !has_type(line, "event_msg"@) || inner(payload, "type"@) != Some(
        JsonTree::Text("token_count"@),
    ) {
        None
    } else {
        match inner(inner(payload, "info"@), "total_token_usage"@) {
            Some(counts) => Some(
                TokenUsage {
                    input_tokens: count_of(counts, "input_tokens"@),
                    cached_input_tokens: count_of(counts, "cached_input_tokens"@),
                    output_tokens: count_of(counts, "output_tokens"@),
                    reasoning_output_tokens: count_of(counts, "reasoning_output_tokens"@),
                    total_tokens: count_of(counts, "total_tokens"@),
                },
            ),
            None => None,
        }
    }
}

fn count(counts: &serde_json::Value, key: &str) -> (r: u64)
    ensures
        r == count_of(json::json_tree(*counts), key@),
{
    match json::member(counts, key) {
        Some(count) => match json::unsigned(count) {
            Some(n) => n,
            None => 0,
        },
        None => 0,
    }
}

/// The token counts that a line holds.
pub fn token_count_total(line: &serde_json::Value) -> (r: Option<TokenUsage>)
    ensures
        r == total_tokens_of(json::json_tree(*line)),
{
    if !is_type(line, "event_msg") {
        return None;
    }
    let payload = match json::member(line, "payload") {
        Some(payload) => payload,
        None => {
            return None;
        },
    };
    if !is_type(payload, "token_count") {
        return None;
    }
    let info = match json::member(payload, "info") {
        Some(info) => info,
        None => {
            return None;
        },
    };
    let counts = match json::member(info, "total_token_usage") {
        Some(counts) => counts,
        None => {
            return None;
        },
    };
    Some(
        TokenUsage {
            input_tokens: count(counts, "input_tokens"),
            cached_input_tokens: count(counts, "cached_input_tokens"),
            output_tokens: count(counts, "output_tokens"),
            reasoning_output_tokens: count(counts, "reasoning_output_tokens"),
            total_tokens: count(counts, "total_tokens"),
        },
    )
}

/// The session after a line that is JSON.
pub open spec fn after_value(s: SessionView, line: JsonTree) -> SessionView {
    let now = described(s, line);
    match total_tokens_of(line) {
        Some(total) => SessionView {
            token_events: now.token_events + 1,
            total: Some(total),
            ..now
        },
        None => now,
    }
}

/// The session after a line of its log. Lines that are blank or no JSON say nothing.
pub open spec fn after_line(s: SessionView, line: Seq<char>) -> SessionView {
    if crate::text::is_blank(line) {
        s
    } else {
        match json::json_document(encode_utf8(line)) {
            Some(value) => after_value(s, value),
            None => s,
        }
    }
}

/// Takes over what a line that is JSON says.
pub fn read_value(session: &mut SessionUsage, value: &serde_json::Value)
    requires
        old(session).token_events < usize::MAX,
    ensures
        final(session)@ == after_value(old(session)@, json::json_tree(*value)),
{
    update_session_metadata(session, value);
    if let Some(total) = token_count_total(value) {
        session.token_events = session.token_events + 1;
        session.total = Some(total);
    }
}

/// Takes over what a line of the log says.
pub fn read_line(session: &mut SessionUsage, line: &str)
    requires
        old(session).token_events < usize::MAX,
    ensures
        final(session)@ == after_line(old(session)@, line@),
{
    if blank(line) {
        return;
    }
    if let Some(value) = json::parse(line.as_bytes()) {
        read_value(session, &value);
    }
}

/// The session after all lines of its log.
pub open spec fn after_lines(s: SessionView, lines: Seq<Seq<char>>) -> SessionView
    decreases lines.len(),
{
    if lines.len() == 0 {
        s
    } else {
        after_line(after_lines(s, lines.drop_last()), lines.last())
    }
}

/// A session of which nothing has been read.
pub open spec fn unread(modified_at: int, stem: Option<Seq<char>>) -> SessionView {
    SessionView {
        modified_at,
        started_at: None,
        id: id_from_stem(stem),
        cwd: Seq::empty(),
        model: Seq::empty(),
        token_events: 0,
        total: None,
    }
}

/// Reads the log of a session: the time of its last change, its name, and its lines.
pub fn parse_session_file(modified_at: i128, stem: Option<&str>, lines: &Vec<String>) -> (r:
    SessionUsage)
    ensures
        r@ == after_lines(
            unread(modified_at as int, crate::settings::value_of(stem)),
            crate::options::arg_views(lines@),
        ),
{
    let mut session = SessionUsage {
        modified_at,
        started_at: None,
        id: session_id_from_path(stem),
        cwd: String::new(),
        model: String::new(),
        token_events: 0,
        total: None,
    };
    let ghost start = session@;
    let ghost all = crate::options::arg_views(lines@);
    assert(start =~= unread(modified_at as int, crate::settings::value_of(stem)));
    assert(all.take(0) =~= Seq::empty());
    for i in 0..lines.len()
        invariant
            all == crate::options::arg_views(lines@),
            session@ == after_lines(start, all.take(i as int)),
            session.token_events <= i,
    {
        assert(all.take(i + 1).drop_last() == all.take(i as int));
        read_line(&mut session, lines[i].as_str());
    }
    assert(all.take(all.len() as int) == all);
    session
}

/// The counts that a session ends with are those of the last line that holds any, whatever comes
/// before it.
pub proof fn lemma_last_count_wins(s: SessionView, lines: Seq<Seq<char>>, line: Seq<char>)
    ensures
        after_lines(s, lines.push(line)).total == match json::json_document(encode_utf8(line)) {
            Some(value) => if !crate::text::is_blank(line) && total_tokens_of(value) is Some {
                total_tokens_of(value)
            } else {
                after_lines(s, lines).total
            },
            None => after_lines(s, lines).total,
        },
{
    assert(lines.push(line).drop_last() == lines);
}

/// A session has counts exactly where a line of its log counted tokens.
pub proof fn lemma_total_counts_events(s: SessionView, lines: Seq<Seq<char>>)
    requires
        s.total is None,
        s.token_events == 0,
    ensures
        after_lines(s, lines).total is Some <==> after_lines(s, lines).token_events > 0,
        after_lines(s, lines).token_events <= lines.len(),
    decreases lines.len(),
{
    if lines.len() > 0 {
        lemma_total_counts_events(s, lines.drop_last());
    }
}

} // verus!
