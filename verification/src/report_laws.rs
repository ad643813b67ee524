//! What the usage report tells, whatever the logs hold.
use vstd::prelude::*;

#[allow(unused_imports)]
use vstd::utf8::*;

#[allow(unused_imports)]
use crate::chart::TokenUsage;
#[allow(unused_imports)]
use crate::json::JsonTree;
#[allow(unused_imports)]
use crate::options::{parsed_args, CommandView, OptionsView, UsageErrorView};
#[allow(unused_imports)]
use crate::sessions::SessionView;
#[allow(unused_imports)]
use crate::text::{decimal, grouped, is_blank, pad_end, pad_start, trimmed};
#[allow(unused_imports)]
use crate::usage::ColumnsView;

verus! {

/// How many commas stand among `n` grouped digits.
pub open spec fn commas(n: nat) -> nat {
    if n == 0 {
        0
    } else {
        ((n - 1) / 3) as nat
    }
}

/// Grouped digits are the digits, with a comma before every third of them from the end.
pub proof fn lemma_grouped(digits: Seq<char>, i: int)
    requires
        0 <= i < grouped(digits).len(),
    ensures
        grouped(digits).len() == digits.len() + commas(digits.len()),
        ({
            let from_end = grouped(digits).len() - 1 - i;
            grouped(digits)[i] == if from_end % 4 == 3 {
                ','
            } else {
                digits[digits.len() - 1 - (from_end - from_end / 4)]
            }
        }),
    decreases digits.len(),
{
    if digits.len() > 3 {
        let front = digits.take(digits.len() - 3);
        let g = grouped(front);
        if i < g.len() {
            lemma_grouped(front, i);
        } else {
            lemma_grouped_len(front);
        }
    }
}

proof fn lemma_grouped_len(digits: Seq<char>)
    ensures
        grouped(digits).len() == digits.len() + commas(digits.len()),
    decreases digits.len(),
{
    if digits.len() > 3 {
        lemma_grouped_len(digits.take(digits.len() - 3));
    }
}

/// A count as it stands in the report.
pub open spec fn shown_count(n: u64) -> Seq<char> {
    grouped(decimal(n as nat))
}

/// The counts of a session stand under their own headings: what was logged as input under Input, what
/// was cached under Cached, and so on. A session without counts has dashes there.
pub proof fn lemma_counts_under_headings(s: SessionView, started: Seq<char>)
    ensures
        ({
            let c = crate::usage::session_columns(s, started);
            &&& s.total matches Some(t) ==> c.input == shown_count(t.input_tokens) && c.cached
                == shown_count(t.cached_input_tokens) && c.output == shown_count(t.output_tokens)
                && c.reasoning == shown_count(t.reasoning_output_tokens) && c.total == shown_count(
                t.total_tokens,
            )
            &&& s.total is None ==> c.input == "-"@ && c.cached == "-"@ && c.output == "-"@
                && c.reasoning == "-"@ && c.total == "-"@
        }),
{
}

proof fn lemma_model_column(s: SessionView, started: Seq<char>)
    ensures
        crate::usage::session_columns(s, started).model.len() <= 10,
{
    reveal_strlit("...");
    assert("..."@.len() == 3);
}

/// Where each column of a line begins that fits its columns.
proof fn lemma_columns(c: ColumnsView)
    requires
        c.started.len() <= 16,
        c.model.len() <= 10,
        c.input.len() <= 12,
        c.cached.len() <= 12,
        c.output.len() <= 12,
        c.reasoning.len() <= 12,
        c.total.len() <= 12,
    ensures
        ({
            let line = crate::usage::table_line(c);
            &&& line.subrange(0, 16) == pad_end(c.started, 16)
            &&& line.subrange(17, 27) == pad_end(c.model, 10)
            &&& line.subrange(28, 40) == pad_start(c.input, 12)
            &&& line.subrange(41, 53) == pad_start(c.cached, 12)
            &&& line.subrange(54, 66) == pad_start(c.output, 12)
            &&& line.subrange(67, 79) == pad_start(c.reasoning, 12)
            &&& line.subrange(80, 92) == pad_start(c.total, 12)
            &&& line.skip(94) == c.name
        }),
{
    reveal_strlit(" ");
    reveal_strlit("  ");
    assert(" "@.len() == 1 && "  "@.len() == 2);
    let line = crate::usage::table_line(c);
    assert(line.subrange(0, 16) =~= pad_end(c.started, 16));
    assert(line.subrange(17, 27) =~= pad_end(c.model, 10));
    assert(line.subrange(28, 40) =~= pad_start(c.input, 12));
    assert(line.subrange(41, 53) =~= pad_start(c.cached, 12));
    assert(line.subrange(54, 66) =~= pad_start(c.output, 12));
    assert(line.subrange(67, 79) =~= pad_start(c.reasoning, 12));
    assert(line.subrange(80, 92) =~= pad_start(c.total, 12));
    assert(line.skip(94) =~= c.name);
}

/// Where the headings of the table stand.
pub proof fn lemma_headings()
    ensures
        ({
            let head = crate::usage::header_line();
            &&& head.subrange(0, 16) == pad_end("Started"@, 16)
            &&& head.subrange(17, 27) == pad_end("Model"@, 10)
            &&& head.subrange(28, 40) == pad_start("Input"@, 12)
            &&& head.subrange(41, 53) == pad_start("Cached"@, 12)
            &&& head.subrange(54, 66) == pad_start("Output"@, 12)
            &&& head.subrange(67, 79) == pad_start("Reasoning"@, 12)
            &&& head.subrange(80, 92) == pad_start("Total"@, 12)
            &&& head.skip(94) == "Session"@
        }),
{
    reveal_strlit("Started");
    reveal_strlit("Model");
    reveal_strlit("Input");
    reveal_strlit("Cached");
    reveal_strlit("Output");
    reveal_strlit("Reasoning");
    reveal_strlit("Total");
    lemma_columns(
        ColumnsView {
            started: "Started"@,
            model: "Model"@,
            input: "Input"@,
            cached: "Cached"@,
            output: "Output"@,
            reasoning: "Reasoning"@,
            total: "Total"@,
            name: "Session"@,
        },
    );
}

/// The line of a session has each of its counts in the columns under its heading, as far as they fit
/// there.
pub proof fn lemma_session_row(s: SessionView, started: Seq<char>, t: TokenUsage)
    requires
        s.total == Some(t),
        started.len() <= 16,
        shown_count(t.input_tokens).len() <= 12,
        shown_count(t.cached_input_tokens).len() <= 12,
        shown_count(t.output_tokens).len() <= 12,
        shown_count(t.reasoning_output_tokens).len() <= 12,
        shown_count(t.total_tokens).len() <= 12,
    ensures
        ({
            let line = crate::usage::table_line(crate::usage::session_columns(s, started));
            &&& s.started_at is Some ==> line.subrange(0, 16) == pad_end(started, 16)
            &&& s.started_at is None ==> line.subrange(0, 16) == pad_end("-"@, 16)
            &&& line.subrange(28, 40) == pad_start(shown_count(t.input_tokens), 12)
            &&& line.subrange(41, 53) == pad_start(shown_count(t.cached_input_tokens), 12)
            &&& line.subrange(54, 66) == pad_start(shown_count(t.output_tokens), 12)
            &&& line.subrange(67, 79) == pad_start(shown_count(t.reasoning_output_tokens), 12)
            &&& line.subrange(80, 92) == pad_start(shown_count(t.total_tokens), 12)
        }),
{
    reveal_strlit("-");
    lemma_model_column(s, started);
    lemma_counts_under_headings(s, started);
    lemma_columns(crate::usage::session_columns(s, started));
}

/// A text that is cut keeps its beginning; one that fits is shown whole, but for outer white space.
pub proof fn lemma_shortened(value: Seq<char>, max_len: nat)
    requires
        max_len >= 3,
    ensures
        crate::usage::shortened(value, max_len).len() <= max_len,
        trimmed(value).len() <= max_len ==> crate::usage::shortened(value, max_len) == trimmed(value),
        trimmed(value).len() > max_len ==> crate::usage::shortened(value, max_len).take(max_len - 3)
            == trimmed(value).take(max_len - 3) && crate::usage::shortened(value, max_len).skip(
            max_len - 3,
        ) == "..."@,
{
    reveal_strlit("...");
    if trimmed(value).len() > max_len {
        let cut = crate::usage::shortened(value, max_len);
        assert(cut.take(max_len - 3) =~= trimmed(value).take(max_len - 3));
        assert(cut.skip(max_len - 3) =~= "..."@);
    }
}

/// A session goes by the directory that it ran in, and by its id where that is not known.
pub proof fn lemma_session_name(s: SessionView, started: Seq<char>)
    ensures
        !is_blank(s.cwd) && trimmed(s.cwd).len() <= 42 ==> crate::usage::session_columns(
            s,
            started,
        ).name == trimmed(s.cwd),
        is_blank(s.cwd) && trimmed(s.id).len() <= 42 ==> crate::usage::session_columns(
            s,
            started,
        ).name == trimmed(s.id),
        !is_blank(s.model) && trimmed(s.model).len() <= 10 ==> crate::usage::session_columns(
            s,
            started,
        ).model == trimmed(s.model),
        is_blank(s.model) ==> crate::usage::session_columns(s, started).model == "-"@,
{
    crate::text::lemma_trimmed_idempotent(s.model);
    reveal_strlit("-");
    assert(crate::text::is_trimmed("-"@));
    crate::text::lemma_trimmed_fixed("-"@);
}

/// The greatest total is that of a session, and none is greater.
pub proof fn lemma_greatest_total(sessions: Seq<SessionView>, i: int)
    requires
        0 <= i < sessions.len(),
    ensures
        sessions[i].total matches Some(t) ==> t.total_tokens <= crate::usage::greatest_total(
            sessions,
        ),
        crate::usage::greatest_total(sessions) > 0 ==> exists|k: int|
            0 <= k < sessions.len() && (#[trigger] sessions[k]).total is Some
                && sessions[k].total->0.total_tokens == crate::usage::greatest_total(sessions),
    decreases sessions.len(),
{
    let front = sessions.drop_last();
    let best = crate::usage::greatest_total(front);
    assert(forall|k: int| 0 <= k < front.len() ==> front[k] == sessions[k]);
    if i < front.len() {
        lemma_greatest_total(front, i);
    }
    if front.len() > 0 {
        lemma_greatest_total(front, 0);
    }
    if crate::usage::greatest_total(sessions) > 0 {
        if crate::usage::greatest_total(sessions) == best {
            let k = choose|k: int|
                0 <= k < front.len() && (#[trigger] front[k]).total is Some
                    && front[k].total->0.total_tokens == best;
            assert(sessions[k] == front[k]);
        } else {
            assert(sessions[sessions.len() - 1] == sessions.last());
        }
    }
}

/// The sessions with counts.
pub open spec fn counted(sessions: Seq<SessionView>) -> Seq<SessionView> {
    sessions.filter(|s: SessionView| s.total is Some)
}

proof fn lemma_chart_len(sessions: Seq<SessionView>, started: Seq<Seq<char>>, max_total: u64)
    ensures
        crate::usage::chart_rows(sessions, started, max_total).len() == counted(sessions).len(),
    decreases sessions.len(),
{
    reveal(Seq::filter);
    if sessions.len() > 0 {
        lemma_chart_len(sessions.drop_last(), started, max_total);
    }
}

/// The chart has a line for each session with counts, and no other.
pub proof fn lemma_chart_rows(
    sessions: Seq<SessionView>,
    started: Seq<Seq<char>>,
    max_total: u64,
    i: int,
)
    requires
        0 <= i < sessions.len(),
    ensures
        sessions[i].total matches Some(t) ==> exists|p: int|
            0 <= p < crate::usage::chart_rows(sessions, started, max_total).len()
                && #[trigger] crate::usage::chart_rows(sessions, started, max_total)[p]
                == crate::usage::chart_line(sessions[i], started[i], t, max_total),
        crate::usage::chart_rows(sessions, started, max_total).len() == counted(sessions).len(),
    decreases sessions.len(),
{
    lemma_chart_len(sessions, started, max_total);
    let front = sessions.drop_last();
    let rows = crate::usage::chart_rows(front, started, max_total);
    let all = crate::usage::chart_rows(sessions, started, max_total);
    if i < front.len() {
        lemma_chart_rows(front, started, max_total, i);
    }
    match sessions[i].total {
        Some(t) => {
            if i < front.len() {
                assert(front[i] == sessions[i]);
                let p = choose|p: int|
                    0 <= p < rows.len() && #[trigger] rows[p] == crate::usage::chart_line(
                        sessions[i],
                        started[i],
                        t,
                        max_total,
                    );
                assert(all[p] == rows[p]);
            } else {
                assert(all[rows.len() as int] == crate::usage::chart_line(
                    sessions[i],
                    started[i],
                    t,
                    max_total,
                ));
            }
        },
        None => {},
    }
}

/// A line of the chart begins with the start of the session, ends with its total, and has its bar in
/// brackets between them.
pub proof fn lemma_chart_line(s: SessionView, started: Seq<char>, t: TokenUsage, max_total: u64)
    requires
        s.started_at is Some,
    ensures
        crate::usage::chart_line(s, started, t, max_total) == pad_end(started, 16) + " ["@ + t.bar(
            max_total,
            48,
        ) + "] "@ + shown_count(t.total_tokens),
{
}

/// The report begins with its head; then comes a line for each reported session, the latest first.
pub proof fn lemma_report_rows(
    options: OptionsView,
    sessions: Seq<SessionView>,
    started: Seq<Seq<char>>,
    p: int,
)
    requires
        0 <= p < crate::usage::reported(sessions, options).len(),
    ensures
        ({
            let lines = crate::usage::report_of(options, sessions, started);
            let i = crate::usage::reported(sessions, options)[p];
            &&& lines.len() >= 2 + crate::usage::reported(sessions, options).len()
            &&& lines[0] == crate::usage::header_line()
            &&& lines[2 + p] == crate::usage::table_line(
                crate::usage::session_columns(sessions[i], started[i]),
            )
            &&& !options.show_chart ==> lines.len() == 2 + crate::usage::reported(
                sessions,
                options,
            ).len()
        }),
{
}

/// Which sessions are reported: those with counts, or all where all are wanted; the latest of them, up
/// to the limit.
pub proof fn lemma_reported_sessions(sessions: Seq<SessionView>, options: OptionsView, i: int)
    requires
        0 <= i < sessions.len(),
    ensures
        ({
            let r = crate::usage::reported(sessions, options);
            &&& r.len() <= options.limit
            &&& r.contains(i) ==> options.all || sessions[i].total is Some
            &&& (options.all || sessions[i].total is Some) && !r.contains(i) ==> r.len()
                == options.limit && forall|p: int|
                0 <= p < r.len() ==> sessions[#[trigger] r[p]].modified_at
                    >= sessions[i].modified_at
            &&& forall|p: int, q: int|
                0 <= p < q < r.len() ==> sessions[#[trigger] r[p]].modified_at
                    >= sessions[#[trigger] r[q]].modified_at
        }),
{
    crate::usage::lemma_reported(sessions, options);
    let r = crate::usage::reported(sessions, options);
    let wanted = crate::usage::is_wanted(sessions, options.all);
    assert(wanted(i) == (options.all || sessions[i].total is Some));
    if r.contains(i) {
        let p = choose|p: int| 0 <= p < r.len() && r[p] == i;
        assert(wanted(r[p]));
    }
}

/// The chart follows the table where it is wanted and there is a session with tokens.
pub proof fn lemma_report_has_chart(
    sessions: Seq<SessionView>,
    started: Seq<Seq<char>>,
    i: int,
    t: TokenUsage,
)
    requires
        0 <= i < sessions.len(),
        sessions[i].total == Some(t),
        t.total_tokens > 0,
    ensures
        crate::usage::report_lines(sessions, started, true).contains(
            crate::usage::chart_line(
                sessions[i],
                started[i],
                t,
                crate::usage::greatest_total(sessions),
            ),
        ),
{
    let max_total = crate::usage::greatest_total(sessions);
    let all = crate::usage::report_lines(sessions, started, true);
    let rows = crate::usage::chart_rows(sessions, started, max_total);
    lemma_greatest_total(sessions, i);
    lemma_chart_rows(sessions, started, max_total, i);
    let p = choose|p: int|
        0 <= p < rows.len() && #[trigger] rows[p] == crate::usage::chart_line(
            sessions[i],
            started[i],
            t,
            max_total,
        );
    assert(all[2 + sessions.len() + 3 + p] == rows[p]);
}

/// A tree that has members at a path of keys.
pub open spec fn at_path(tree: JsonTree, path: Seq<Seq<char>>) -> Option<JsonTree>
    decreases path.len(),
{
    if path.len() == 0 {
        Some(tree)
    } else {
        match at_path(tree, path.drop_last()) {
            Some(inner) => inner.member(path.last()),
            None => None,
        }
    }
}

/// The count that a line of a log has at a key of its total usage.
pub open spec fn logged_count(line: JsonTree, key: Seq<char>) -> nat {
    match at_path(line, seq!["payload"@, "info"@, "total_token_usage"@, key]) {
        Some(JsonTree::Integer(n)) => if 0 <= n <= u64::MAX {
            n as nat
        } else {
            0
        },
        _ => 0,
    }
}

proof fn lemma_path(tree: JsonTree, a: Seq<char>, b: Seq<char>, c: Seq<char>, d: Seq<char>)
    ensures
        at_path(tree, seq![a]) == tree.member(a),
        at_path(tree, seq![a, b]) == crate::sessions::inner(tree.member(a), b),
        at_path(tree, seq![a, b, c]) == crate::sessions::inner(
            crate::sessions::inner(tree.member(a), b),
            c,
        ),
        at_path(tree, seq![a, b, c, d]) == crate::sessions::inner(
            crate::sessions::inner(crate::sessions::inner(tree.member(a), b), c),
            d,
        ),
{
    reveal_with_fuel(at_path, 5);
    assert(seq![a].drop_last() =~= Seq::empty());
    assert(seq![a, b].drop_last() =~= seq![a]);
    assert(seq![a, b, c].drop_last() =~= seq![a, b]);
    assert(seq![a, b, c, d].drop_last() =~= seq![a, b, c]);
}

/// An event that counts tokens gives the session its counts, each from the key of that name. No other
/// line touches them.
pub proof fn lemma_logged_counts(s: SessionView, line: JsonTree)
    ensures
        ({
            let counts = at_path(line, seq!["payload"@, "info"@, "total_token_usage"@]);
            let is_count = line.member("type"@) == Some(JsonTree::Text("event_msg"@)) && at_path(
                line,
                seq!["payload"@, "type"@],
            ) == Some(JsonTree::Text("token_count"@)) && counts is Some;
            let after = crate::sessions::after_value(s, line);
            &&& is_count ==> (after.total matches Some(t) && t.input_tokens == logged_count(
                line,
                "input_tokens"@,
            ) && t.cached_input_tokens == logged_count(line, "cached_input_tokens"@)
                && t.output_tokens == logged_count(line, "output_tokens"@)
                && t.reasoning_output_tokens == logged_count(line, "reasoning_output_tokens"@)
                && t.total_tokens == logged_count(line, "total_tokens"@)) && after.token_events
                == s.token_events + 1
            &&& !is_count ==> after.total == s.total && after.token_events == s.token_events
        }),
{
    lemma_path(line, "payload"@, "info"@, "total_token_usage"@, "input_tokens"@);
    lemma_path(line, "payload"@, "info"@, "total_token_usage"@, "cached_input_tokens"@);
    lemma_path(line, "payload"@, "info"@, "total_token_usage"@, "output_tokens"@);
    lemma_path(line, "payload"@, "info"@, "total_token_usage"@, "reasoning_output_tokens"@);
    lemma_path(line, "payload"@, "info"@, "total_token_usage"@, "total_tokens"@);
    lemma_path(line, "payload"@, "type"@, "type"@, "type"@);
}

/// What a log last counted is what the row of its session shows.
pub proof fn lemma_last_count_is_shown(
    s: SessionView,
    lines: Seq<Seq<char>>,
    line: Seq<char>,
    tree: JsonTree,
    started: Seq<char>,
)
    requires
        !is_blank(line),
        crate::json::json_document(encode_utf8(line)) == Some(tree),
        tree.member("type"@) == Some(JsonTree::Text("event_msg"@)),
        at_path(tree, seq!["payload"@, "type"@]) == Some(JsonTree::Text("token_count"@)),
        at_path(tree, seq!["payload"@, "info"@, "total_token_usage"@]) is Some,
    ensures
        ({
            let c = crate::usage::session_columns(
                crate::sessions::after_lines(s, lines.push(line)),
                started,
            );
            &&& c.input == grouped(decimal(logged_count(tree, "input_tokens"@)))
            &&& c.cached == grouped(decimal(logged_count(tree, "cached_input_tokens"@)))
            &&& c.output == grouped(decimal(logged_count(tree, "output_tokens"@)))
            &&& c.reasoning == grouped(decimal(logged_count(tree, "reasoning_output_tokens"@)))
            &&& c.total == grouped(decimal(logged_count(tree, "total_tokens"@)))
        }),
{
    assert(lines.push(line).drop_last() == lines);
    lemma_logged_counts(crate::sessions::after_lines(s, lines), tree);
}

/// The text at a key of the payload of a line.
pub open spec fn payload_value(line: JsonTree, key: Seq<char>) -> Option<JsonTree> {
    at_path(line, seq!["payload"@, key])
}

/// The first line of a session tells its id, its start and its directory; a line about a turn tells the
/// model, and the directory where that is not known yet. Other lines tell nothing of these.
pub proof fn lemma_described(s: SessionView, line: JsonTree, text: Seq<char>)
    ensures
        ({
            let after = crate::sessions::after_value(s, line);
            let meta = line.member("type"@) == Some(JsonTree::Text("session_meta"@));
            let turn = line.member("type"@) == Some(JsonTree::Text("turn_context"@));
            &&& meta && payload_value(line, "id"@) == Some(JsonTree::Text(text)) ==> after.id == text
            &&& meta && payload_value(line, "cwd"@) == Some(JsonTree::Text(text)) ==> after.cwd
                == text
            &&& meta && payload_value(line, "timestamp"@) == Some(JsonTree::Text(text))
                ==> after.started_at == crate::timestamp::rfc3339(text)
            &&& turn && payload_value(line, "model"@) == Some(JsonTree::Text(text)) ==> after.model
                == text
            &&& turn && payload_value(line, "cwd"@) == Some(JsonTree::Text(text)) && s.cwd.len() == 0
                ==> after.cwd == text
            &&& turn && s.cwd.len() > 0 ==> after.cwd == s.cwd
            &&& !meta ==> after.id == s.id && after.started_at == s.started_at
            &&& !turn ==> after.model == s.model
            &&& !meta && !turn ==> after.cwd == s.cwd
            &&& meta && !(payload_value(line, "id"@) matches Some(JsonTree::Text(_))) ==> after.id
                == s.id
            &&& after.modified_at == s.modified_at
        }),
{
    reveal_strlit("session_meta");
    reveal_strlit("turn_context");
    assert("session_meta"@[0] != "turn_context"@[0]);
    lemma_path(line, "payload"@, "id"@, "id"@, "id"@);
    lemma_path(line, "payload"@, "cwd"@, "cwd"@, "cwd"@);
    lemma_path(line, "payload"@, "timestamp"@, "timestamp"@, "timestamp"@);
    lemma_path(line, "payload"@, "model"@, "model"@, "model"@);
}

/// Lines that are blank or no JSON tell nothing.
pub proof fn lemma_unreadable_line(s: SessionView, line: Seq<char>)
    requires
        is_blank(line) || crate::json::json_document(encode_utf8(line)) is None,
    ensures
        crate::sessions::after_line(s, line) == s,
{
}

/// Reading a log in two parts is reading it at once.
pub proof fn lemma_lines_in_parts(s: SessionView, a: Seq<Seq<char>>, b: Seq<Seq<char>>)
    ensures
        crate::sessions::after_lines(s, a + b) == crate::sessions::after_lines(
            crate::sessions::after_lines(s, a),
            b,
        ),
    decreases b.len(),
{
    if b.len() == 0 {
        assert(a + b =~= a);
    } else {
        assert((a + b).drop_last() =~= a + b.drop_last());
        assert((a + b).last() == b.last());
        lemma_lines_in_parts(s, a, b.drop_last());
    }
}

/// A session that says nothing of its id has the name of its log, without the prefix of all logs.
pub proof fn lemma_id_from_stem(name: Seq<char>)
    requires
        !crate::text::begins_with(name, "rollout-"@),
    ensures
        crate::sessions::id_from_stem(Some("rollout-"@ + name)) == name,
        crate::sessions::id_from_stem(Some(name)) == name,
{
    reveal_strlit("rollout-");
    let whole = "rollout-"@ + name;
    assert(whole.take(8) =~= "rollout-"@);
    assert(whole.skip(8) =~= name);
    reveal_with_fuel(crate::text::strip_prefixes, 2);
}

/// Arguments are read from left to right: what stands behind arguments that are in order is read with
/// the options that they set.
pub proof fn lemma_args_in_parts(a: Seq<Seq<char>>, b: Seq<Seq<char>>, o: OptionsView, set: OptionsView)
    requires
        parsed_args(a, o) == Ok::<CommandView, UsageErrorView>(CommandView::Report(set)),
    ensures
        parsed_args(a + b, o) == parsed_args(b, set),
    decreases a.len(),
{
    if a.len() == 0 {
        assert(a + b =~= b);
    } else {
        assert((a + b).skip(1) =~= a.skip(1) + b);
        assert((a + b)[0] == a[0]);
        if a.len() > 1 {
            assert((a + b)[1] == a[1]);
            assert((a + b).skip(2) =~= a.skip(2) + b);
        }
        if a[0] == "--all"@ {
            lemma_args_in_parts(a.skip(1), b, OptionsView { all: true, ..o }, set);
        } else if a[0] == "--chart"@ {
            lemma_args_in_parts(a.skip(1), b, OptionsView { show_chart: true, ..o }, set);
        } else if a[0] == "--no-chart"@ {
            lemma_args_in_parts(a.skip(1), b, OptionsView { show_chart: false, ..o }, set);
        } else if a[0] == "--limit"@ || a[0] == "-n"@ {
            let n = crate::options::parsed_number(a[1])->0;
            lemma_args_in_parts(a.skip(2), b, OptionsView { limit: n as nat, ..o }, set);
        } else {
            lemma_args_in_parts(a.skip(2), b, OptionsView { sessions_dir: Some(a[1]), ..o }, set);
        }
    }
}

proof fn lemma_flags_differ()
    ensures
        "--all"@ != "--chart"@,
        "--all"@ != "--no-chart"@,
        "--all"@ != "--limit"@,
        "--all"@ != "-n"@,
        "--all"@ != "--sessions-dir"@,
        "--chart"@ != "--no-chart"@,
        "--chart"@ != "--limit"@,
        "--chart"@ != "-n"@,
        "--chart"@ != "--sessions-dir"@,
        "--no-chart"@ != "--limit"@,
        "--no-chart"@ != "-n"@,
        "--no-chart"@ != "--sessions-dir"@,
        "--limit"@ != "--sessions-dir"@,
        "-n"@ != "--sessions-dir"@,
        "--help"@ != "--all"@,
        "--help"@ != "--chart"@,
        "--help"@ != "--no-chart"@,
        "--help"@ != "--limit"@,
        "--help"@ != "-n"@,
        "--help"@ != "--sessions-dir"@,
        "-h"@ != "--all"@,
        "-h"@ != "--chart"@,
        "-h"@ != "--no-chart"@,
        "-h"@ != "--limit"@,
        "-h"@ != "-n"@,
        "-h"@ != "--sessions-dir"@,
{
    reveal_strlit("--all");
    reveal_strlit("--chart");
    reveal_strlit("--no-chart");
    reveal_strlit("--limit");
    reveal_strlit("-n");
    reveal_strlit("--sessions-dir");
    reveal_strlit("--help");
    reveal_strlit("-h");
    assert("--all"@[2] == 'a' && "--chart"@[2] == 'c' && "--no-chart"@[2] == 'n');
    assert("--limit"@[2] == 'l' && "--sessions-dir"@[2] == 's' && "--help"@[2] == 'h');
    assert("-n"@[1] == 'n' && "-h"@[1] == 'h');
    assert("-n"@.len() == 2 && "-h"@.len() == 2 && "--all"@.len() == 5);
    assert("--chart"@.len() == 7 && "--no-chart"@.len() == 10 && "--limit"@.len() == 7);
    assert("--sessions-dir"@.len() == 14 && "--help"@.len() == 6);
}

/// What each option sets, and that it sets nothing else.
pub proof fn lemma_options(o: OptionsView, n: nat, value: Seq<char>)
    requires
        n <= usize::MAX,
    ensures
        parsed_args(Seq::empty(), o) == Ok::<CommandView, UsageErrorView>(CommandView::Report(o)),
        parsed_args(seq!["--all"@], o) == Ok::<CommandView, UsageErrorView>(
            CommandView::Report(OptionsView { all: true, ..o }),
        ),
        parsed_args(seq!["--chart"@], o) == Ok::<CommandView, UsageErrorView>(
            CommandView::Report(OptionsView { show_chart: true, ..o }),
        ),
        parsed_args(seq!["--no-chart"@], o) == Ok::<CommandView, UsageErrorView>(
            CommandView::Report(OptionsView { show_chart: false, ..o }),
        ),
        parsed_args(seq!["--limit"@, decimal(n)], o) == Ok::<CommandView, UsageErrorView>(
            CommandView::Report(OptionsView { limit: n, ..o }),
        ),
        parsed_args(seq!["-n"@, decimal(n)], o) == Ok::<CommandView, UsageErrorView>(
            CommandView::Report(OptionsView { limit: n, ..o }),
        ),
        parsed_args(seq!["--sessions-dir"@, value], o) == Ok::<CommandView, UsageErrorView>(
            CommandView::Report(OptionsView { sessions_dir: Some(value), ..o }),
        ),
        parsed_args(seq!["--help"@], o) == Ok::<CommandView, UsageErrorView>(CommandView::Help),
        parsed_args(seq!["-h"@], o) == Ok::<CommandView, UsageErrorView>(CommandView::Help),
{
    lemma_flags_differ();
    crate::options::lemma_decimal_is_read(n);
    reveal_with_fuel(parsed_args, 2);
    assert(seq!["--all"@].skip(1) =~= Seq::empty());
    assert(seq!["--chart"@].skip(1) =~= Seq::empty());
    assert(seq!["--no-chart"@].skip(1) =~= Seq::empty());
    assert(seq!["--limit"@, decimal(n)].skip(2) =~= Seq::empty());
    assert(seq!["-n"@, decimal(n)].skip(2) =~= Seq::empty());
    assert(seq!["--sessions-dir"@, value].skip(2) =~= Seq::empty());
}

/// Without options the twenty latest sessions with counts are reported, with the chart.
pub proof fn lemma_default_options()
    ensures
        crate::options::default_options().limit == 20,
        !crate::options::default_options().all,
        crate::options::default_options().show_chart,
        crate::options::default_options().sessions_dir is None,
{
}

/// An option that lacks its value, a limit that is no number and an unknown option are turned down.
pub proof fn lemma_bad_options(o: OptionsView, value: Seq<char>)
    ensures
        parsed_args(seq!["--limit"@], o) == Err::<CommandView, UsageErrorView>(
            UsageErrorView::MissingNumber("--limit"@),
        ),
        parsed_args(seq!["--sessions-dir"@], o) == Err::<CommandView, UsageErrorView>(
            UsageErrorView::MissingPath,
        ),
        !crate::options::all_digits(crate::options::unsigned_digits(value)) ==> parsed_args(
            seq!["--limit"@, value],
            o,
        ) == Err::<CommandView, UsageErrorView>(UsageErrorView::InvalidLimit(value)),
        value != "--all"@ && value != "--chart"@ && value != "--no-chart"@ && value != "--limit"@
            && value != "-n"@ && value != "--sessions-dir"@ && value != "--help"@ && value != "-h"@
            ==> parsed_args(seq![value], o) == Err::<CommandView, UsageErrorView>(
            UsageErrorView::UnknownOption(value),
        ),
{
    lemma_flags_differ();
}

/// A session of which nothing has been read has no counts and no directory, and goes by the name of its
/// log.
pub proof fn lemma_unread(modified_at: int, stem: Option<Seq<char>>)
    ensures
        crate::sessions::unread(modified_at, stem).modified_at == modified_at,
        crate::sessions::unread(modified_at, stem).id == crate::sessions::id_from_stem(stem),
        crate::sessions::unread(modified_at, stem).total is None,
        crate::sessions::unread(modified_at, stem).token_events == 0,
        crate::sessions::unread(modified_at, stem).started_at is None,
        crate::sessions::unread(modified_at, stem).cwd.len() == 0,
        crate::sessions::unread(modified_at, stem).model.len() == 0,
{
}

/// There is no chart where no session has tokens, and none where it is not wanted.
pub proof fn lemma_no_chart(sessions: Seq<SessionView>, started: Seq<Seq<char>>)
    ensures
        (forall|i: int|
            0 <= i < sessions.len() ==> ((#[trigger] sessions[i]).total matches Some(t)
                ==> t.total_tokens == 0)) ==> crate::usage::report_lines(
            sessions,
            started,
            true,
        ).len() == 2 + sessions.len(),
        crate::usage::report_lines(sessions, started, false).len() == 2 + sessions.len(),
{
    if forall|i: int|
        0 <= i < sessions.len() ==> ((#[trigger] sessions[i]).total matches Some(t)
            ==> t.total_tokens == 0) {
        if crate::usage::greatest_total(sessions) > 0 {
            if sessions.len() > 0 {
                lemma_greatest_total(sessions, 0);
            }
        }
    }
}

/// A limit may have a plus sign, and is a number of digits only.
pub proof fn lemma_limit(n: nat, s: Seq<char>)
    requires
        n <= usize::MAX,
    ensures
        crate::options::parsed_number(decimal(n)) == Some(n as usize),
        crate::options::parsed_number(seq!['+'] + decimal(n)) == Some(n as usize),
        crate::options::parsed_number(Seq::empty()) is None,
        (exists|i: int| 1 <= i < s.len() && !('0' <= #[trigger] s[i] <= '9'))
            ==> crate::options::parsed_number(s) is None,
{
    crate::options::lemma_decimal_is_read(n);
    let signed = seq!['+'] + decimal(n);
    assert(signed.skip(1) =~= decimal(n));
    if exists|i: int| 1 <= i < s.len() && !('0' <= #[trigger] s[i] <= '9') {
        let i = choose|i: int| 1 <= i < s.len() && !('0' <= #[trigger] s[i] <= '9');
        let d = crate::options::unsigned_digits(s);
        if s[0] == '+' {
            assert(d[i - 1] == s[i]);
        } else {
            assert(d[i] == s[i]);
        }
    }
}

} // verus!
