use codex_account_switcher::identity::{
    can_shorten, canonical_account_id, first_non_empty, is_uuid_like, short_account_id,
};
use codex_account_switcher::settings::{
    codex_auth_path, config_base, config_files, files_to_migrate, set_variable, use_ansi_palette,
    AuthFile, ConfigBase, LegacyFile,
};
use codex_account_switcher::text::{
    can_truncate, contains, eq_ignore_ascii_case, is_whitespace, to_ascii_lowercase, trim,
    trim_start_matches, truncate,
};
use codex_account_switcher::theme::{Color, Paint};
use codex_account_switcher::timestamp::{Timestamp, MAX_SECS, MIN_SECS};

#[test]
fn white_space_is_that_of_the_standard_library() {
    for n in 0..=0x10ffffu32 {
        if let Some(c) = char::from_u32(n) {
            assert_eq!(is_whitespace(c), c.is_whitespace(), "{n:x}");
        }
    }
}

#[test]
fn texts_are_trimmed_and_compared_as_the_standard_library_does() {
    for s in ["", " ", " a ", "\u{3000}x y\t\n", "A\u{c0}b", "aXbXc", "\u{85}z\u{a0}"] {
        assert_eq!(trim(s), s.trim());
        assert_eq!(trim(trim(s)), trim(s));
        assert_eq!(to_ascii_lowercase(s), s.to_ascii_lowercase());
        for part in ["", "a", "x y", "Xb", "zz"] {
            assert_eq!(contains(s, part), s.contains(part));
            assert_eq!(eq_ignore_ascii_case(s, part), s.eq_ignore_ascii_case(part));
        }
    }
    assert_eq!(trim_start_matches("rollout-rollout-a-rollout-", "rollout-"), "a-rollout-");
}

#[test]
fn texts_are_cut_at_bytes() {
    assert_eq!(truncate(" abc ", 3), "abc");
    assert_eq!(truncate("abcd", 3), "abc...");
    assert!(can_truncate("a\u{e4}", 3));
    assert!(!can_truncate("a\u{e4}b", 2));
    assert_eq!(truncate("a\u{e4}b", 3), "a\u{e4}...");
}

const UUID: &str = "123e4567-E89b-12d3-a456-426614174000";

#[test]
fn ids_that_are_like_uuids_win() {
    assert!(is_uuid_like(UUID));
    assert!(!is_uuid_like("123e4567-e89b-12d3-a456-42661417400"));
    assert!(!is_uuid_like("123e4567-e89b-12d3-a456-42661417400g"));
    assert!(!is_uuid_like("123e4567xe89b-12d3-a456-426614174000"));
    assert_eq!(canonical_account_id(&["", "  ", "b", "c"]), "b");
    assert_eq!(canonical_account_id(&["b", &format!(" {UUID} ")]), UUID);
    assert_eq!(canonical_account_id(&["", " "]), "");
    assert_eq!(canonical_account_id(&[]), "");
    let id = canonical_account_id(&[" x ", UUID]);
    assert_eq!(canonical_account_id(&[id.as_str()]), id);
    assert_eq!(first_non_empty(&["", " a ", "b"]), "a");
    assert_eq!(first_non_empty(&["", " "]), "");
}

#[test]
fn ids_are_shortened() {
    assert_eq!(short_account_id(" 123456789012 "), "123456789012");
    assert_eq!(short_account_id("1234567890123"), "123456...0123");
    assert_eq!(short_account_id(UUID), "123e45...4000");
    assert!(!can_shorten("12345\u{e4}7890123"));
    assert!(can_shorten("\u{e4}\u{e4}"));
}

#[test]
fn variables_choose_directories() {
    assert!(!set_variable(Some(" ")));
    assert_eq!(config_base(Some("/a"), Some("/b"), true), Some(ConfigBase::Own));
    assert_eq!(config_base(Some(""), Some("/b"), true), Some(ConfigBase::Xdg));
    assert_eq!(config_base(None, None, true), Some(ConfigBase::User));
    assert_eq!(config_base(None, Some(" "), false), None);
    assert_eq!(codex_auth_path(Some("/f"), Some("/d")), AuthFile::Named);
    assert_eq!(codex_auth_path(Some(" "), Some("/d")), AuthFile::InCodexHome);
    assert_eq!(codex_auth_path(None, None), AuthFile::InHome);
}

#[test]
fn old_files_are_carried_over() {
    let files: Vec<LegacyFile> = [(true, false), (true, true), (false, false), (true, false)]
        .iter()
        .map(|(in_legacy, in_target)| LegacyFile { in_legacy: *in_legacy, in_target: *in_target })
        .collect();
    assert_eq!(files_to_migrate(false, true, &files), vec![0, 3]);
    assert!(files_to_migrate(true, true, &files).is_empty());
    assert!(files_to_migrate(false, false, &files).is_empty());
    assert_eq!(config_files()[0], "accounts.json");
}

#[test]
fn palette_is_chosen_by_the_environment() {
    assert!(use_ansi_palette(None, None, None, true));
    assert!(!use_ansi_palette(None, None, None, false));
    assert!(!use_ansi_palette(Some(" YES "), None, None, true));
    assert!(use_ansi_palette(Some("no"), Some("x"), Some("xterm"), true));
    assert!(!use_ansi_palette(None, Some("TrueColor"), None, true));
    assert!(!use_ansi_palette(None, Some("a24bit"), None, true));
    assert!(!use_ansi_palette(None, None, Some("xterm-Direct"), true));
    assert_eq!(Paint::Pink.color(true), Color::LightMagenta);
    assert_eq!(Paint::Pink.color(false), Color::Rgb(255, 102, 170));
    assert_eq!(Paint::KeyHint.color(true), Color::Rgb(80, 220, 255));
}

#[test]
fn timestamps_hold_what_dates_hold() {
    for (secs, nanos) in [
        (0i64, 0u32),
        (-1, 999_999_999),
        (59, 1_999_999_999),
        (-1, 1_000_000_000),
        (58, 1_000_000_000),
        (59, 2_000_000_000),
        (MAX_SECS, 0),
        (MAX_SECS + 1, 0),
        (MIN_SECS, 0),
        (MIN_SECS - 1, 0),
        (i64::MAX, 0),
        (i64::MIN, 0),
    ] {
        let dated = chrono::DateTime::from_timestamp(secs, nanos);
        let ours = Timestamp::new(secs, nanos);
        assert_eq!(ours.is_some(), dated.is_some(), "{secs} {nanos}");
        if let (Some(a), Some(b)) = (ours, dated) {
            assert_eq!(a.timestamp_millis(), b.timestamp_millis());
        }
    }
    let a = Timestamp::new(5, 7).expect("a time");
    let b = Timestamp::new(5, 8).expect("a time");
    assert!(a.no_later_than(&b) && !b.no_later_than(&a));
    let c = a.plus_seconds(10);
    assert_eq!((c.secs(), c.nanos()), (15, 7));
}
