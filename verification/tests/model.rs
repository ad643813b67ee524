use codex_account_switcher::model::{
    AccountRecord, QuotaState, QuotaWindow, UsageData, FIVE_HOUR_WINDOW_SECONDS,
    WEEK_WINDOW_SECONDS,
};
use codex_account_switcher::percent::{Percent, QuotaLevel, Reading};

const MONTH_WINDOW_SECONDS: i64 = 30 * 24 * 60 * 60;

fn percent(value: f64) -> Percent {
    Percent::clamped(Reading::new(value.to_bits()).expect("a number"))
}

fn usage(windows: &[(i64, f64)]) -> UsageData {
    UsageData {
        windows: windows
            .iter()
            .map(|(window_sec, left_percent)| QuotaWindow {
                window_sec: *window_sec,
                used_percent: percent(100.0 - left_percent),
                left_percent: percent(*left_percent),
                reset_at: None,
            })
            .collect(),
        ..Default::default()
    }
}

fn account(label: &str, email: &str, id: &str) -> AccountRecord {
    AccountRecord {
        label: label.to_string(),
        email: email.to_string(),
        account_id: id.to_string(),
        ..Default::default()
    }
}

#[test]
fn long_window_uses_weekly_window_for_paid_plans() {
    let data = usage(&[
        (FIVE_HOUR_WINDOW_SECONDS, 40.0),
        (WEEK_WINDOW_SECONDS, 70.0),
    ]);

    let window = data.long_window().expect("weekly window");
    assert_eq!(window.window_sec, WEEK_WINDOW_SECONDS);
    assert_eq!(data.long_window_label(), "Week");
}

#[test]
fn long_window_uses_monthly_window_when_weekly_is_absent() {
    let data = usage(&[
        (FIVE_HOUR_WINDOW_SECONDS, 40.0),
        (MONTH_WINDOW_SECONDS, 70.0),
    ]);

    let window = data.long_window().expect("monthly window");
    assert_eq!(window.window_sec, MONTH_WINDOW_SECONDS);
    assert_eq!(data.long_window_label(), "Month");
}

#[test]
fn exhaustion_uses_monthly_window_for_free_plans() {
    let account = AccountRecord {
        quota: QuotaState::Ready(usage(&[
            (FIVE_HOUR_WINDOW_SECONDS, 40.0),
            (MONTH_WINDOW_SECONDS, 0.0),
        ])),
        ..Default::default()
    };

    assert!(account.is_exhausted());
}

#[test]
fn window_labels() {
    let label = |window_sec: i64| usage(&[(window_sec, 1.0)]).windows[0].label();
    assert_eq!(label(18_000), "5h");
    assert_eq!(label(604_800), "Week");
    assert_eq!(label(28 * 86_400), "Month");
    assert_eq!(label(31 * 86_400), "Month");
    assert_eq!(label(28 * 86_400 - 1), "Period");
    assert_eq!(label(31 * 86_400 + 1), "Period");
    assert_eq!(label(0), "Period");
}

#[test]
fn long_window_takes_the_last_of_equals_and_no_five_hour_window() {
    let data = usage(&[(100, 1.0), (200, 2.0), (200, 3.0), (FIVE_HOUR_WINDOW_SECONDS, 4.0)]);
    let window = data.long_window().expect("a window");
    assert_eq!(window.window_sec, 200);
    assert_eq!(window.left_percent.hundredths(), 300);
    assert!(usage(&[(FIVE_HOUR_WINDOW_SECONDS, 4.0)]).long_window().is_none());
    assert_eq!(usage(&[]).long_window_label(), "Period");
    assert_eq!(data.window_by_seconds(200).expect("first").left_percent.hundredths(), 200);
    assert!(data.window_by_seconds(300).is_none());
}

#[test]
fn keys_and_names() {
    assert_eq!(account("", " A@B.c ", " id ").key(), "id");
    assert_eq!(account("", " \u{c0}A@B.c ", "  ").key(), "\u{e0}a@b.c");
    assert_eq!(account(" L ", "e", "i").display_name(), "L");
    assert_eq!(account(" ", " e ", "i").display_name(), "e");
    assert_eq!(account("", "", " i ").display_name(), "i");
    assert_eq!(account("", "", "").display_name(), "unknown-account");
}

#[test]
fn plan_types() {
    let mut a = account("", "", "");
    assert_eq!(a.plan_type(), "Unknown");
    a.quota = QuotaState::Ready(UsageData { plan_type: " plus ".to_string(), ..Default::default() });
    assert_eq!(a.plan_type(), "plus");
    a.quota = QuotaState::Ready(UsageData { plan_type: " ".to_string(), ..Default::default() });
    assert_eq!(a.plan_type(), "Unknown");
    a.quota = QuotaState::Error("x".to_string());
    assert_eq!(a.plan_type(), "Unknown");
}

#[test]
fn sort_tuples() {
    let mut a = account("Name", "", "");
    assert_eq!(a.sort_tuple(), (0, 2, i64::MAX / 2, "name".to_string()));
    a.quota = QuotaState::Loading;
    assert_eq!(a.sort_tuple(), (0, 1, i64::MAX / 4, "name".to_string()));
    a.quota = QuotaState::Ready(usage(&[
        (FIVE_HOUR_WINDOW_SECONDS, 40.25),
        (WEEK_WINDOW_SECONDS, 70.5),
    ]));
    assert_eq!(a.sort_tuple(), (0, 0, -(4025 + 7050), "name".to_string()));
    a.quota = QuotaState::Ready(usage(&[(WEEK_WINDOW_SECONDS, 0.0)]));
    assert_eq!(a.sort_tuple(), (1, 0, 1, "name".to_string()));
}

#[test]
fn percentages_follow_binary64_arithmetic() {
    let mut state: u64 = 0x9e37_79b9_7f4a_7c15;
    for step in 0..4000u64 {
        state = state.wrapping_mul(6364136223846793005).wrapping_add(1442695040888963407);
        let value = match step % 4 {
            0 => (state >> 11) as f64 / (1u64 << 53) as f64 * 100.0,
            1 => (state >> 40) as f64 / 1000.0,
            2 => f64::from_bits(state & !(0x7ffu64 << 52) | ((state >> 55) << 52)),
            _ => (state % 12001) as f64 / 100.0,
        };
        if value.is_nan() {
            continue;
        }
        let used = value.clamp(0.0, 100.0);
        let left = (100.0 - used).clamp(0.0, 100.0);
        let p = percent(value).left();
        assert_eq!(p.hundredths(), (left * 100.0) as i64, "{value:?}");
        assert_eq!(p.is_spent(), left <= 0.0, "{value:?}");
        assert_eq!(p.percent_text(), format!("{:>3.0}%", left), "{value:?}");
        let filled = (((left / 100.0) * 8.0).round() as usize).min(8);
        let bar = format!("{}{}", "\u{2588}".repeat(filled), "\u{2591}".repeat(8 - filled));
        assert_eq!(p.mini_bar(), bar, "{value:?}");
        let level = if left <= 10.0 {
            QuotaLevel::Critical
        } else if left <= 35.0 {
            QuotaLevel::Low
        } else if left <= 65.0 {
            QuotaLevel::Medium
        } else {
            QuotaLevel::High
        };
        assert_eq!(p.quota_level(), level, "{value:?}");
    }
}

#[test]
fn percentages_at_the_ends() {
    assert_eq!(percent(-1.0).hundredths(), 0);
    assert_eq!(percent(f64::INFINITY).hundredths(), 10000);
    assert_eq!(percent(f64::NEG_INFINITY).hundredths(), 0);
    assert_eq!(percent(100.0).left().hundredths(), 0);
    assert!(percent(100.0).left().is_spent());
    assert!(percent(1000.0).left().is_spent());
    assert!(!percent(99.99999999999999).left().is_spent());
    assert_eq!(percent(50.0).mini_bar(), "\u{2588}\u{2588}\u{2588}\u{2588}\u{2591}\u{2591}\u{2591}\u{2591}");
    assert_eq!(percent(2.5).percent_text(), "  2%");
    assert_eq!(percent(100.0).percent_text(), "100%");
    assert!(Reading::new(f64::NAN.to_bits()).is_none());
}
