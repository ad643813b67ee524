use codex_account_switcher::chart::{proportional_lengths, usage_chart_bar, TokenUsage};
use codex_account_switcher::options::{
    parse_number, usage_help, wants_usage, UsageCommand, UsageOptions,
};
use codex_account_switcher::sessions::{
    is_session_log, parse_session_file, session_id_from_path, token_count_total, SessionUsage,
};
use codex_account_switcher::usage::{empty_dash, format_count, run, truncate};
use serde_json::Value;

fn json(text: &str) -> Value {
    serde_json::from_str(text).expect("valid JSON")
}

fn tokens(input: u64, cached: u64, output: u64, reasoning: u64, total: u64) -> TokenUsage {
    TokenUsage {
        input_tokens: input,
        cached_input_tokens: cached,
        output_tokens: output,
        reasoning_output_tokens: reasoning,
        total_tokens: total,
    }
}

#[test]
fn extracts_total_token_usage_from_token_count_event() {
    let value = json(
        r#"{
            "type": "event_msg",
            "payload": {
                "type": "token_count",
                "info": {
                    "total_token_usage": {
                        "input_tokens": 10,
                        "cached_input_tokens": 4,
                        "output_tokens": 3,
                        "reasoning_output_tokens": 2,
                        "total_tokens": 13
                    }
                }
            }
        }"#,
    );

    let usage = token_count_total(&value).expect("token usage");
    assert_eq!(usage.input_tokens, 10);
    assert_eq!(usage.cached_input_tokens, 4);
    assert_eq!(usage.output_tokens, 3);
    assert_eq!(usage.reasoning_output_tokens, 2);
    assert_eq!(usage.total_tokens, 13);
}

#[test]
fn ignores_non_token_count_events() {
    let value = json(r#"{"type": "event_msg", "payload": { "type": "something_else" }}"#);

    assert!(token_count_total(&value).is_none());
}

#[test]
fn formats_counts_with_grouping() {
    assert_eq!(format_count(6_600_483), "6,600,483");
}

#[test]
fn chart_bar_splits_cached_uncached_output_and_reasoning() {
    let usage = TokenUsage {
        input_tokens: 100,
        cached_input_tokens: 40,
        output_tokens: 60,
        reasoning_output_tokens: 10,
        total_tokens: 160,
    };

    assert_eq!(usage_chart_bar(&usage, 160, 16), "CCCCIIIIIOOOOORR");
}

#[test]
fn chart_bar_scales_against_largest_session() {
    let usage = TokenUsage {
        input_tokens: 50,
        cached_input_tokens: 0,
        output_tokens: 50,
        reasoning_output_tokens: 0,
        total_tokens: 100,
    };

    assert_eq!(usage_chart_bar(&usage, 200, 20).len(), 10);
}

#[test]
fn counts_of_all_lengths() {
    assert_eq!(format_count(0), "0");
    assert_eq!(format_count(999), "999");
    assert_eq!(format_count(1000), "1,000");
    assert_eq!(format_count(u64::MAX), "18,446,744,073,709,551,615");
}

#[test]
fn token_counts_that_are_no_numbers_are_zero() {
    let value = json(
        r#"{"type":"event_msg","payload":{"type":"token_count","info":{"total_token_usage":
            {"input_tokens":-1,"cached_input_tokens":"4","output_tokens":1.5,"total_tokens":18446744073709551615}}}}"#,
    );
    assert_eq!(token_count_total(&value), Some(tokens(0, 0, 0, 0, u64::MAX)));
    let counts = json(r#"{"type":"event_msg","payload":{"type":"token_count","info":{"total_token_usage":null}}}"#);
    assert_eq!(token_count_total(&counts), Some(tokens(0, 0, 0, 0, 0)));
    let other = json(r#"{"type":"event_msg","payload":{"type":"token_count","info":null}}"#);
    assert!(token_count_total(&other).is_none());
    assert!(token_count_total(&json(r#"{"type":"other"}"#)).is_none());
    assert!(token_count_total(&json("[1]")).is_none());
}

fn lengths_by_floats(values: &[u64], total: u64, width: usize) -> Vec<usize> {
    if total == 0 || width == 0 {
        return vec![0; values.len()];
    }
    let nonzero = values.iter().filter(|v| **v > 0).count();
    let reserve = width >= nonzero;
    let mut used = if reserve { nonzero } else { 0 };
    let rest = width.saturating_sub(used);
    let mut lengths = Vec::new();
    let mut fractions = Vec::new();
    for (i, v) in values.iter().enumerate() {
        let raw = *v as f64 * rest as f64 / total as f64;
        let whole = raw.floor() as usize;
        used += whole;
        lengths.push(usize::from(reserve && *v > 0) + whole);
        fractions.push((i, raw - whole as f64));
    }
    fractions.sort_by(|a, b| b.1.partial_cmp(&a.1).unwrap_or(std::cmp::Ordering::Equal));
    for (i, _) in fractions.into_iter().take(width.saturating_sub(used)) {
        lengths[i] += 1;
    }
    lengths
}

fn bar_by_floats(usage: &TokenUsage, max_total: u64, width: usize) -> String {
    if usage.total_tokens == 0 || max_total == 0 || width == 0 {
        return String::new();
    }
    let cached = usage.cached_input_tokens.min(usage.input_tokens);
    let uncached = usage.input_tokens - cached;
    let reasoning = usage.reasoning_output_tokens.min(usage.output_tokens);
    let visible = usage.output_tokens - reasoning;
    let all = cached
        .saturating_add(uncached)
        .saturating_add(visible)
        .saturating_add(reasoning)
        .max(usage.total_tokens);
    let scaled = (((usage.total_tokens as f64 / max_total as f64) * width as f64).round() as usize)
        .clamp(1, width);
    let lengths = lengths_by_floats(&[cached, uncached, visible, reasoning], all, scaled);
    ['C', 'I', 'O', 'R']
        .iter()
        .zip(lengths)
        .map(|(c, n)| c.to_string().repeat(n))
        .collect()
}

#[test]
fn bars_follow_binary64_arithmetic() {
    let mut state: u64 = 1;
    let mut next = |bits: u32| {
        state = state.wrapping_mul(6364136223846793005).wrapping_add(1442695040888963407);
        state >> (64 - bits)
    };
    for step in 0..3000u32 {
        let bits = 1 + step % 64;
        let usage = tokens(next(bits), next(bits), next(bits), next(bits), next(bits));
        let max_total = next(bits).max(usage.total_tokens);
        let width = (next(7)) as usize;
        assert_eq!(
            usage_chart_bar(&usage, max_total, width),
            bar_by_floats(&usage, max_total, width),
            "{usage:?} {max_total} {width}"
        );
    }
}

#[test]
fn bars_have_their_width_at_all_totals() {
    let mut state: u64 = 7;
    for step in 0..2000u32 {
        state = state.wrapping_mul(6364136223846793005).wrapping_add(1442695040888963407);
        let input = state >> (1 + step % 60);
        let output = state.rotate_left(31) >> (1 + step % 60);
        let total = input + output;
        let usage = tokens(input, input / 3, output, output / 5, total);
        if total > 0 {
            assert_eq!(usage_chart_bar(&usage, total, 48).len(), 48, "{usage:?}");
        }
    }
    let over = tokens(u64::MAX, 0, u64::MAX, 0, u64::MAX);
    assert_eq!(usage_chart_bar(&over, u64::MAX, 10), "IIIIIIIIIOOOOOOOOO");
}

#[test]
fn lengths_fill_the_width() {
    assert_eq!(proportional_lengths(&[1, 1, 1], 3, 10), vec![4, 3, 3]);
    assert_eq!(proportional_lengths(&[1, 0, 1], 2, 1), vec![1, 0, 0]);
    assert_eq!(proportional_lengths(&[5, 0, 0], 5, 7), vec![7, 0, 0]);
    assert_eq!(proportional_lengths(&[0, 0], 9, 4), vec![1, 1]);
    assert_eq!(proportional_lengths(&[1, 2], 0, 4), vec![0, 0]);
    assert_eq!(proportional_lengths(&[1, 1000], 1001, 10), vec![1, 9]);
    assert_eq!(usage_chart_bar(&tokens(1, 0, 0, 0, 0), 5, 10), "");
    assert_eq!(usage_chart_bar(&tokens(1, 0, 0, 0, 1), 1000, 10), "I");
}

#[test]
fn short_texts() {
    assert_eq!(truncate("  abc  ", 10), "abc");
    assert_eq!(truncate("abcdefghijk", 10), "abcdefg...");
    assert_eq!(truncate("\u{e4}\u{f6}\u{fc}\u{e4}\u{f6}", 4), "\u{e4}...");
    assert_eq!(truncate("abcd", 2), "...");
    assert_eq!(empty_dash("  "), "-");
    assert_eq!(empty_dash(" m "), "m");
}

fn strings(args: &[&str]) -> Vec<String> {
    args.iter().map(|a| a.to_string()).collect()
}

fn options(args: &[&str]) -> UsageOptions {
    match UsageOptions::parse(&strings(args)) {
        Ok(UsageCommand::Report(options)) => options,
        other => panic!("{other:?}"),
    }
}

fn error(args: &[&str]) -> String {
    UsageOptions::parse(&strings(args)).expect_err("an error").message()
}

#[test]
fn options_are_read() {
    let o = options(&[]);
    assert_eq!((o.limit, o.all, o.show_chart, o.sessions_dir), (20, false, true, None));
    let o = options(&["--all", "--no-chart", "-n", "+7", "--sessions-dir", "/x"]);
    assert_eq!(
        (o.limit, o.all, o.show_chart, o.sessions_dir),
        (7, true, false, Some("/x".to_string()))
    );
    assert!(options(&["--no-chart", "--chart"]).show_chart);
    assert_eq!(options(&["--limit", "3", "--limit", "4"]).limit, 4);
    assert!(matches!(UsageOptions::parse(&strings(&["--all", "-h", "--bad"])), Ok(UsageCommand::Help)));
    assert!(matches!(UsageOptions::parse(&strings(&["--help"])), Ok(UsageCommand::Help)));
}

#[test]
fn options_that_are_wrong() {
    assert_eq!(error(&["--limit"]), "--limit requires a number");
    assert_eq!(error(&["-n"]), "-n requires a number");
    assert_eq!(error(&["-n", "x"]), "invalid limit: x");
    assert_eq!(error(&["-n", "-1"]), "invalid limit: -1");
    assert_eq!(error(&["--sessions-dir"]), "--sessions-dir requires a path");
    assert_eq!(error(&["--what"]), "unknown usage option: --what");
}

#[test]
fn numbers_are_read_as_the_standard_library_reads_them() {
    for text in [
        "", "+", "-", "0", "00", "+0", "-0", "++1", "1+", " 1", "12", "18446744073709551615",
        "18446744073709551616", "99999999999999999999999999", "+18446744073709551615", "1a", "\u{661}",
    ] {
        assert_eq!(parse_number(text), text.parse::<usize>().ok(), "{text:?}");
    }
}

#[test]
fn program_arguments() {
    assert!(wants_usage(&strings(&["cas", "usage", "--all"])));
    assert!(!wants_usage(&strings(&["cas"])));
    assert!(!wants_usage(&strings(&["usage"])));
    assert!(usage_help()[0].starts_with("Usage: cas usage"));
}

fn session(lines: &[&str]) -> SessionUsage {
    parse_session_file(5, Some("rollout-rollout-x"), &strings(lines))
}

#[test]
fn session_logs_are_read() {
    let s = session(&[
        "",
        "no json",
        r#"{"type":"session_meta","payload":{"id":"the-id","timestamp":"2024-05-06T07:08:09.5+02:00","cwd":"/home"}}"#,
        r#"{"type":"turn_context","payload":{"cwd":"/other","model":"gpt"}}"#,
        r#"{"type":"event_msg","payload":{"type":"token_count","info":{"total_token_usage":{"total_tokens":1}}}}"#,
        r#"{"type":"event_msg","payload":{"type":"token_count","info":{"total_token_usage":{"total_tokens":2}}}}"#,
        r#"{"type":"event_msg","payload":{"type":"token_count","info":null}}"#,
    ]);
    assert_eq!(s.modified_at, 5);
    assert_eq!(s.id, "the-id");
    assert_eq!(s.cwd, "/home");
    assert_eq!(s.model, "gpt");
    assert_eq!(s.token_events, 2);
    assert_eq!(s.total, Some(tokens(0, 0, 0, 0, 2)));
    let started = s.started_at.expect("a time");
    assert_eq!((started.secs(), started.nanos()), (1_714_972_089, 500_000_000));
}

#[test]
fn session_logs_without_description() {
    let s = session(&[r#"{"type":"turn_context","payload":{"cwd":"/first"}}"#]);
    assert_eq!((s.id.as_str(), s.cwd.as_str(), s.total), ("x", "/first", None));
    let s = session(&[r#"{"type":"session_meta","payload":{"timestamp":"yesterday"}}"#]);
    assert!(s.started_at.is_none());
    assert_eq!(session_id_from_path(None), "unknown-session");
    assert_eq!(session_id_from_path(Some("rollout-")), "");
    assert!(is_session_log(Some("jsonl")));
    assert!(!is_session_log(Some("json")));
    assert!(!is_session_log(None));
}

fn timed(modified_at: i128, id: &str, total: Option<u64>) -> SessionUsage {
    SessionUsage {
        modified_at,
        started_at: None,
        id: id.to_string(),
        cwd: String::new(),
        model: " ".to_string(),
        token_events: 0,
        total: total.map(|t| tokens(t, 0, 0, 0, t)),
    }
}

#[test]
fn report_shows_the_latest_sessions() {
    let sessions = vec![
        timed(1, "one", Some(1000)),
        timed(3, "three", Some(3)),
        timed(2, "two", None),
        timed(3, "also three", Some(500)),
    ];
    let started = strings(&["a", "b", "c", "d"]);
    let lines = run(&options(&["-n", "2"]), &sessions, &started);
    assert_eq!(
        lines,
        vec![
            format!(
                "{:<16} {:<10} {:>12} {:>12} {:>12} {:>12} {:>12}  Session",
                "Started", "Model", "Input", "Cached", "Output", "Reasoning", "Total"
            ),
            "-".repeat(118),
            format!(
                "{:<16} {:<10} {:>12} {:>12} {:>12} {:>12} {:>12}  three",
                "-", "-", "3", "0", "0", "0", "3"
            ),
            format!(
                "{:<16} {:<10} {:>12} {:>12} {:>12} {:>12} {:>12}  also three",
                "-", "-", "500", "0", "0", "0", "500"
            ),
            String::new(),
            "Token composition".to_string(),
            "C=cached input  I=uncached input  O=output  R=reasoning".to_string(),
            format!("{:<16} [I] 3", "-"),
            format!("{:<16} [{}] 500", "-", "I".repeat(48)),
        ]
    );
    let lines = run(&options(&["--all", "--no-chart"]), &sessions, &started);
    assert_eq!(lines.len(), 6);
    assert!(lines[2].ends_with("  three"));
    assert!(lines[3].ends_with("  also three"));
    assert_eq!(
        lines[4],
        format!(
            "{:<16} {:<10} {:>12} {:>12} {:>12} {:>12} {:>12}  two",
            "-", "-", "-", "-", "-", "-", "-"
        )
    );
    assert!(lines[5].contains("1,000"));
    assert_eq!(run(&options(&["-n", "0"]), &sessions, &started).len(), 2);
}

#[test]
fn report_names_sessions_by_directory() {
    let mut s = timed(1, "id", Some(0));
    s.cwd = "/a/very/long/path/that/does/not/fit/into/the/column".to_string();
    s.model = "gpt-something-long".to_string();
    s.started_at = codex_account_switcher::timestamp::Timestamp::new(0, 0);
    let lines = run(&options(&[]), &vec![s], &strings(&["1970-01-01 00:00"]));
    assert_eq!(lines.len(), 3);
    assert_eq!(
        lines[2],
        format!(
            "{:<16} {:<10} {:>12} {:>12} {:>12} {:>12} {:>12}  {}",
            "1970-01-01 00:00",
            "gpt-som...",
            "0",
            "0",
            "0",
            "0",
            "0",
            "/a/very/long/path/that/does/not/fit/int..."
        )
    );
}
