use codex_account_switcher::app::{
    ActionMenuItem, App, AuthFlowMode, AuthLinkPopup, Effect, Key, WorkerEvent,
};
use codex_account_switcher::listing::{ListItem, PlanFilter};
use codex_account_switcher::model::{AccountRecord, QuotaState, QuotaWindow, UsageData};
use codex_account_switcher::percent::{Percent, QuotaLevel, Reading};
use codex_account_switcher::theme::{Paint, Span, Style};
use codex_account_switcher::timestamp::Timestamp;
use codex_account_switcher::view::{
    account_cell, account_status_text, active_badges, can_center_rect, can_draw, centered_rect, draw,
    format_reset, plan_badge_span, quota_cell, quota_reset_text, quota_style, status_style, Area,
};

fn ready(plan: &str, left: f64) -> QuotaState {
    let p = |v: f64| Percent::clamped(Reading::new(v.to_bits()).expect("a number"));
    QuotaState::Ready(UsageData {
        plan_type: plan.to_string(),
        allowed: true,
        limit_reached: false,
        windows: vec![QuotaWindow {
            window_sec: 18_000,
            used_percent: p(100.0 - left),
            left_percent: p(left),
            reset_at: Timestamp::new(7200, 0),
        }],
    })
}

fn account(name: &str, quota: QuotaState) -> AccountRecord {
    AccountRecord {
        label: name.to_string(),
        account_id: format!("id-{name}"),
        access_token: "t".to_string(),
        quota,
        ..Default::default()
    }
}

fn app(accounts: Vec<AccountRecord>) -> App {
    App::new(accounts).0
}

fn plans() -> App {
    app(vec![
        account("a", ready("plus", 10.0)),
        account("b", ready("pro", 50.0)),
        account("c", ready("plus", 0.0)),
        account("d", ready("plus", 30.0)),
    ])
}

fn names(app: &App) -> Vec<String> {
    app.list_items()
        .into_iter()
        .map(|item| match item {
            ListItem::Account(i) => app.accounts[i].display_name(),
            ListItem::ExhaustedSummary(n) => format!("+{n}"),
        })
        .collect()
}

fn press(app: &mut App, keys: &str) -> Vec<Effect> {
    let mut effects = Vec::new();
    for c in keys.chars() {
        effects.extend(app.handle_key(Key::Char(c)));
    }
    effects
}

#[test]
fn accounts_are_sorted_and_exhausted_ones_hidden() {
    let mut app = plans();
    assert_eq!(names(&app), vec!["b", "d", "a", "+1"]);
    assert!(press(&mut app, "e").is_empty());
    assert_eq!(names(&app), vec!["b", "d", "a", "c"]);
    press(&mut app, "e");
    assert_eq!(names(&app), vec!["b", "d", "a", "+1"]);
}

#[test]
fn program_starts_by_asking_for_quota() {
    let (app, effects) = App::new(vec![
        account("a", QuotaState::Idle),
        account("b", ready("plus", 1.0)),
        account("c", QuotaState::Idle),
    ]);
    assert_eq!(effects.len(), 2);
    assert!(matches!(&effects[0], Effect::Fetch(a) if a.label == "a"));
    assert!(matches!(&effects[1], Effect::Fetch(a) if a.label == "c" && matches!(a.quota, QuotaState::Loading)));
    assert!(matches!(app.accounts[0].quota, QuotaState::Loading));
    assert!(app.status.starts_with("Enter actions \u{2022} r refresh"));
    assert_eq!((app.selected, app.viewport_rows, app.show_exhausted), (0, 5, false));
}

#[test]
fn selection_moves_within_the_list() {
    let mut app = plans();
    press(&mut app, "kk");
    assert_eq!(app.selected, 0);
    press(&mut app, "jjjjjjj");
    assert_eq!(app.selected, 3);
    app.handle_key(Key::Up);
    assert_eq!(app.selected, 2);
    app.set_height(5);
    assert_eq!((app.viewport_rows, app.scroll), (2, 1));
    app.set_height(0);
    assert_eq!((app.viewport_rows, app.scroll), (1, 2));
    app.handle_key(Key::Down);
    assert_eq!((app.selected, app.scroll), (3, 3));
    app.set_height(30);
    assert_eq!(app.scroll, 0);
    let mut empty = app;
    empty.accounts.clear();
    empty.handle_key(Key::Down);
    assert_eq!((empty.selected, empty.scroll), (0, 0));
}

#[test]
fn summary_opens_into_the_first_exhausted_account() {
    let mut app = plans();
    press(&mut app, "jjj");
    app.handle_key(Key::Enter);
    assert!(app.show_exhausted && !app.action_menu_open);
    assert_eq!(app.selected, 3);
    assert_eq!(app.selected_account_index(), Some(2));
    press(&mut app, "e");
    assert_eq!(app.selected, 3);
    assert_eq!(app.selected_account_index(), None);
}

#[test]
fn filters_cycle_and_clear() {
    let mut app = plans();
    let mut labels = Vec::new();
    for _ in 0..7 {
        press(&mut app, "p");
        labels.push(app.status.clone());
    }
    assert_eq!(
        labels,
        ["plus", "pro", "team", "business", "free", "unknown", "all"]
            .map(|l| format!("plan filter: {l}"))
    );
    assert_eq!(app.plan_filter, PlanFilter::All);
    press(&mut app, "jp");
    assert_eq!(names(&app), vec!["d", "a", "+1"]);
    assert_eq!(app.selected, 0);
    press(&mut app, "/x");
    assert_eq!(app.search_input, "x");
    app.handle_key(Key::Esc);
    press(&mut app, "f");
    assert_eq!((app.search_input.as_str(), app.status.as_str()), ("", "cleared filters"));
    assert_eq!(names(&app).len(), 4);
}

#[test]
fn searches_look_at_names_emails_and_ids() {
    let mut app = plans();
    app.accounts[1].email = "\u{c4}RGER@x".to_string();
    press(&mut app, "/");
    assert!(app.search_mode);
    assert_eq!(app.status, "search accounts by email/label");
    press(&mut app, "\u{e4}rg");
    assert_eq!(names(&app), vec!["b"]);
    for _ in 0..4 {
        app.handle_key(Key::Backspace);
    }
    assert_eq!(names(&app).len(), 4);
    press(&mut app, "ID-A");
    assert_eq!(names(&app), vec!["a"]);
    app.handle_key(Key::Enter);
    assert!(!app.search_mode);
    app.search_input = "zzz".to_string();
    app.ensure_selection_valid();
    assert!(names(&app).is_empty());
    assert_eq!(app.selected, 0);
}

#[test]
fn refreshing_asks_once() {
    let mut app = plans();
    let effects = press(&mut app, "r");
    assert!(matches!(&effects[..], [Effect::Fetch(a)] if a.label == "b"));
    assert_eq!(names(&app), vec!["d", "a", "b", "+1"]);
    let effects = press(&mut app, "R");
    assert_eq!(effects.len(), 3);
    assert!(press(&mut app, "R").is_empty());
    assert!(press(&mut app, "r").is_empty());
    assert_eq!(names(&app), vec!["a", "b", "c", "d"]);
}

#[test]
fn refreshing_under_a_plan_filter_can_empty_the_list() {
    let mut app = plans();
    press(&mut app, "pj");
    assert_eq!(app.selected, 1);
    press(&mut app, "R");
    assert!(names(&app).is_empty());
    assert_eq!(app.selected, 1);
    app.handle_worker(WorkerEvent::QuotaFailed { key: "x".to_string(), error: "e".to_string() });
    assert_eq!(app.selected, 0);
}

#[test]
fn menu_offers_actions() {
    let mut app = plans();
    app.handle_key(Key::Enter);
    assert!(app.action_menu_open);
    assert_eq!(app.status, "enter to choose action \u{2022} esc to close");
    assert!(press(&mut app, "qk").is_empty());
    assert_eq!(app.action_menu_cursor, 0);
    press(&mut app, "jjjjjjjj");
    assert_eq!(app.action_menu_cursor, 5);
    assert!(app.handle_key(Key::Enter).is_empty());
    assert!(!app.action_menu_open);
    let action = |steps: &str| {
        let mut app = plans();
        app.handle_key(Key::Enter);
        press(&mut app, steps);
        app.handle_key(Key::Enter)
    };
    assert!(matches!(&action("")[..], [Effect::ApplyToCodex { index: 1, restart: false, .. }]));
    assert!(matches!(&action("j")[..], [Effect::ApplyToCodex { index: 1, restart: true, .. }]));
    assert!(matches!(&action("jj")[..], [Effect::StartLogin(AuthFlowMode::Relogin)]));
    assert!(matches!(&action("jjj")[..], [Effect::Fetch(_)]));
    assert!(matches!(&action("jjjj")[..], [Effect::Delete(a)] if a.label == "b"));
    let labels: Vec<&str> = ActionMenuItem::all().iter().map(|i| i.label()).collect();
    assert_eq!(
        labels,
        vec![
            "Apply to Codex",
            "Apply and restart Codex",
            "Re-login account",
            "Refresh Quota",
            "Delete Account",
            "Cancel"
        ]
    );
}

#[test]
fn keys_ask_for_work() {
    let mut app = plans();
    assert!(matches!(&press(&mut app, "s")[..], [Effect::ApplyToCodex { restart: false, .. }]));
    assert!(matches!(&press(&mut app, "d")[..], [Effect::Delete(_)]));
    assert!(matches!(&press(&mut app, "a")[..], [Effect::StartLogin(AuthFlowMode::Add)]));
    assert!(matches!(&press(&mut app, "l")[..], [Effect::StartLogin(AuthFlowMode::Relogin)]));
    app.add_in_progress = true;
    assert!(press(&mut app, "al").is_empty());
    press(&mut app, "q");
    assert!(app.should_quit);
    let mut empty = App::new(vec![]).0;
    empty.add_in_progress = false;
    assert!(press(&mut empty, "sdlrR").is_empty());
    assert!(empty.handle_key(Key::Other).is_empty());
}

#[test]
fn logins_run_their_course() {
    let mut app = plans();
    app.login_started(AuthFlowMode::Relogin, "http://link".to_string());
    assert!(app.add_in_progress);
    assert_eq!(app.status, "open the re-login link and complete login...");
    assert!(press(&mut app, "qjR").is_empty());
    assert!(!app.should_quit && app.auth_popup.is_some());
    app.handle_key(Key::Esc);
    assert!(app.auth_popup.is_none() && app.add_in_progress);
    let new = account("new", QuotaState::Idle);
    let effects = app.handle_worker(WorkerEvent::AuthFinished {
        result: Ok(new.clone()),
        mode: AuthFlowMode::Add,
    });
    assert!(matches!(&effects[..], [Effect::Store { mode: AuthFlowMode::Add, .. }]));
    assert!(!app.add_in_progress);
    let mut accounts = app.accounts.clone();
    accounts.push(new.clone());
    let effects = app.login_stored(&new, AuthFlowMode::Add, Some(accounts));
    assert!(matches!(&effects[..], [Effect::Fetch(a)] if a.label == "new"));
    assert_eq!(app.status, "added new");
    assert_eq!(app.accounts.len(), 5);
    assert_eq!(names(&app)[app.selected], "new");
    app.login_stored(&new, AuthFlowMode::Relogin, None);
    assert_eq!(app.status, "re-logged new");
    app.add_in_progress = true;
    app.handle_worker(WorkerEvent::AuthFinished {
        result: Err("failed".to_string()),
        mode: AuthFlowMode::Add,
    });
    assert_eq!(app.status, "failed");
    assert!(!app.add_in_progress);
    app.login_failed("no link".to_string());
    assert_eq!(app.status, "no link");
}

#[test]
fn replies_update_accounts() {
    let mut app = plans();
    let mut news = account("d", ready("pro", 90.0));
    news.email = "new@x".to_string();
    news.managed = true;
    app.accounts[3].codex_active = true;
    app.handle_worker(WorkerEvent::QuotaLoaded(news));
    assert_eq!(app.status, "quota refreshed");
    assert_eq!(app.accounts[3].email, "new@x");
    assert!(app.accounts[3].codex_active && !app.accounts[3].managed);
    assert_eq!(names(&app)[0], "d");
    app.handle_worker(WorkerEvent::QuotaFailed {
        key: "id-a".to_string(),
        error: "broken".to_string(),
    });
    assert_eq!(app.status, "broken");
    assert!(matches!(&app.accounts[0].quota, QuotaState::Error(e) if e == "broken"));
    app.handle_worker(WorkerEvent::QuotaLoaded(account("nobody", QuotaState::Idle)));
    assert_eq!(app.accounts.len(), 4);
}

#[test]
fn deletion_reloads_and_keeps_the_selection() {
    let mut app = plans();
    press(&mut app, "j");
    assert_eq!(names(&app)[app.selected], "d");
    let gone = app.accounts[1].clone();
    let rest: Vec<AccountRecord> =
        app.accounts.iter().filter(|a| a.label != "b").cloned().collect();
    assert!(app.account_deleted(&gone, Some(rest)).is_empty());
    assert_eq!(app.status, "deleted b");
    assert_eq!(names(&app), vec!["d", "a", "+1"]);
    assert_eq!(app.selected, 0);
    assert!(app.account_deleted(&gone, None).is_empty());
}

#[test]
fn one_account_is_active() {
    let mut app = plans();
    app.accounts[0].codex_active = true;
    app.codex_applied(2);
    let flags: Vec<bool> = app.accounts.iter().map(|a| a.codex_active).collect();
    assert_eq!(flags, vec![false, false, true, false]);
    app.codex_announced(false, "/auth.json");
    assert_eq!(app.status, "applied to Codex: /auth.json");
    app.codex_announced(true, "/auth.json");
    assert_eq!(app.status, "applied to Codex and restarted app: /auth.json");
}

fn at(secs: i64, nanos: u32) -> Timestamp {
    Timestamp::new(secs, nanos).expect("a time")
}

fn reset_by_dates(reset: (i64, u32), now: (i64, u32)) -> String {
    let reset_at = chrono::DateTime::from_timestamp(reset.0, reset.1).expect("a date");
    let now = chrono::DateTime::from_timestamp(now.0, now.1).expect("a date");
    if reset_at <= now {
        return "now".to_string();
    }
    let delta = reset_at - now;
    let days = delta.num_days();
    if days >= 1 {
        let hours = (delta - chrono::Duration::days(days)).num_hours();
        return format!("{}d {}h", days, hours);
    }
    let hours = delta.num_hours();
    let minutes = (delta - chrono::Duration::hours(hours)).num_minutes();
    if hours > 0 {
        format!("{}h {}m", hours, minutes)
    } else {
        format!("{}m", minutes)
    }
}

#[test]
fn resets_are_told_as_dates_tell_them() {
    assert_eq!(format_reset(None, at(0, 0)), "-");
    assert_eq!(format_reset(Timestamp::new(5, 0), at(5, 0)), "now");
    assert_eq!(format_reset(Timestamp::new(90_061, 0), at(0, 0)), "1d 1h");
    assert_eq!(format_reset(Timestamp::new(7_199, 0), at(0, 0)), "1h 59m");
    assert_eq!(format_reset(Timestamp::new(59, 0), at(0, 0)), "0m");
    let nows = [(0i64, 0u32), (0, 1), (-86_400, 999_999_999), (43_200, 5), (119, 0)];
    let resets = [
        (0i64, 0u32), (1, 0), (60, 0), (3_600, 0), (3_659, 999_999_999), (86_399, 1_500_000_000),
        (86_400, 0), (86_459, 1_000_000_000), (172_859, 1_999_999_999), (1_000_000, 3), (119, 1_000_000_000),
    ];
    for now in nows {
        for reset in resets {
            assert_eq!(
                format_reset(Timestamp::new(reset.0, reset.1), at(now.0, now.1)),
                reset_by_dates(reset, now),
                "{reset:?} {now:?}"
            );
        }
    }
}

fn texts(spans: &[Span]) -> String {
    spans.iter().map(|s| s.text.as_str()).collect()
}

#[test]
fn accounts_are_shown() {
    let mut a = account("Name", ready(" Plus ", 50.0));
    assert_eq!(active_badges(&a), " ".repeat(8));
    a.codex_active = true;
    assert_eq!(active_badges(&a), format!("{:^8}", "\u{25cf}"));
    assert_eq!(texts(&account_cell(&a)), "Name  PLUS ");
    let badges: Vec<String> = ["plus", "PRO", " team ", "business", "free", "else", ""]
        .iter()
        .map(|p| plan_badge_span(p).text)
        .collect();
    assert_eq!(badges, vec![" PLUS ", " PRO ", " TEAM ", " BIZ ", " FREE ", " UNK ", " UNK "]);
    assert_eq!(plan_badge_span("pro").style.bg, Some(Paint::Pink));
    assert_eq!(texts(&quota_cell(&a.quota, 18_000, at(0, 0))), "\u{2588}\u{2588}\u{2588}\u{2588}\u{2591}\u{2591}\u{2591}\u{2591}  50% 2h 0m");
    assert_eq!(texts(&quota_cell(&a.quota, 604_800, at(0, 0))), "n/a");
    assert_eq!(texts(&quota_cell(&QuotaState::Idle, 1, at(0, 0))), "queued");
    assert_eq!(texts(&quota_cell(&QuotaState::Loading, 1, at(0, 0))), "loading");
    let error = QuotaState::Error("123456789012345678901".to_string());
    assert_eq!(texts(&quota_cell(&error, 1, at(0, 0))), "12345678901234567890...");
    assert_eq!(quota_reset_text(&a.quota, 18_000, at(7_000, 0)), "3m");
    assert_eq!(quota_reset_text(&a.quota, 1, at(0, 0)), "-");
    assert_eq!(quota_reset_text(&QuotaState::Loading, 1, at(0, 0)), "loading");
    assert_eq!(quota_reset_text(&error, 1, at(0, 0)), "error");
    assert_eq!(quota_reset_text(&QuotaState::Idle, 1, at(0, 0)), "queued");
    assert_eq!(quota_style(QuotaLevel::Critical), Paint::Danger);
}

#[test]
fn states_are_told() {
    let told = |quota: QuotaState| {
        let a = account("x", quota);
        (account_status_text(&a), status_style(&a))
    };
    assert_eq!(told(QuotaState::Loading), ("loading", Paint::Cyan));
    assert_eq!(told(QuotaState::Error("e".to_string())), ("error", Paint::Danger));
    assert_eq!(told(QuotaState::Idle), ("queued", Paint::Muted));
    assert_eq!(told(ready("p", 0.0)), ("exhausted", Paint::Warning));
    assert_eq!(told(ready("p", 1.0)), ("ready", Paint::Green));
}

#[test]
fn screens_are_drawn() {
    let mut app = plans();
    app.accounts[1].email = "b@x".to_string();
    app.accounts[1].expires_at = Timestamp::new(1, 0);
    press(&mut app, "/");
    assert!(can_draw(&app));
    let screen = draw(&app, "soon", at(0, 0));
    assert_eq!(texts(&screen.title[0]), "search accounts by email/label  ");
    assert_eq!(texts(&screen.title[1]), "Filter: all (p cycle)  Search: _ (/ edit, f clear)");
    assert_eq!(screen.rows.len(), 4);
    assert_eq!(screen.rows[0].marker, "\u{25b6}");
    assert_eq!(screen.rows[1].marker, " ");
    assert_eq!(
        screen.rows[0].style,
        Style {
            fg: Some(Paint::Text),
            bg: Some(Paint::SelectionBg),
            bold: true,
            underlined: false
        }
    );
    assert_eq!(texts(&screen.rows[3].account), "1 exhausted accounts \u{2022} press e to show");
    assert_eq!(screen.rows[3].style.fg, Some(Paint::Warning));
    let details: Vec<String> = screen.details.iter().map(|l| texts(l)).collect();
    assert_eq!(
        details,
        vec![
            "Email: b@x  Plan:  PRO   Managed: no".to_string(),
            format!("Active: {}  Account ID: id-b", " ".repeat(8)),
            "5h Reset: 2h 0m  Week Reset: -".to_string(),
            "Token Exp: soon  Status: ready".to_string(),
        ]
    );
    assert!(screen.menu.is_none() && screen.popup.is_none());
    assert_eq!(
        texts(&screen.footer),
        "\u{2191}\u{2193} move  e exhausted  / search  p cycle plan  f clear filters  Enter menu  \
         s codex  a add  l re-login  d delete  r refresh  R refresh all  q quit"
    );
    app.handle_key(Key::Esc);
    app.accounts[1].expires_at = None;
    app.handle_key(Key::Enter);
    app.auth_popup =
        Some(AuthLinkPopup { mode: AuthFlowMode::Add, url: "http://l".to_string() });
    app.add_in_progress = true;
    let screen = draw(&app, "soon", at(0, 0));
    let menu = screen.menu.expect("a menu");
    assert_eq!(texts(&menu[0]), "\u{25b6} Apply to Codex");
    assert_eq!(texts(&menu[4]), "  Delete Account");
    assert_eq!(menu[4][0].style.fg, Some(Paint::Warning));
    let popup = screen.popup.expect("a popup");
    assert_eq!(texts(&popup[0]), "Open this login URL in any browser.");
    assert_eq!(texts(&popup[3]), "http://l");
    assert!(popup[3][0].style.underlined && popup[2].is_empty());
    assert!(texts(&screen.title[0]).ends_with("  login in progress..."));
    assert!(texts(&screen.details[3]).starts_with("Token Exp: -  "));
    let none = App::new(vec![]).0;
    let screen = draw(&none, "", at(0, 0));
    assert_eq!(texts(&screen.details[0]), "No account selected");
    assert!(texts(&screen.title[1]).contains("Search: none"));
}

#[test]
fn only_rows_in_view_are_drawn() {
    let mut app = plans();
    app.set_height(5);
    press(&mut app, "jj");
    let screen = draw(&app, "", at(0, 0));
    assert_eq!(screen.rows.len(), 2);
    assert_eq!(texts(&screen.rows[1].account), "a  PLUS ");
    assert_eq!(screen.rows[1].marker, "\u{25b6}");
    app.accounts[1].quota = QuotaState::Error(format!("{}\u{e4}x", "x".repeat(19)));
    app.set_height(20);
    assert!(!can_draw(&app));
    app.accounts[1].quota = QuotaState::Idle;
    app.selected = 0;
    app.accounts[3].account_id = "12345\u{e4}78901234".to_string();
    assert!(!can_draw(&app));
}

#[test]
fn rectangles_are_centered() {
    let area = Area { x: 0, y: 0, width: 100, height: 40 };
    assert_eq!(centered_rect(34, 14, area), Area { x: 33, y: 13, width: 34, height: 14 });
    let small = Area { x: 1, y: 2, width: 10, height: 4 };
    assert_eq!(centered_rect(72, 10, small), Area { x: 2, y: 2, width: 24, height: 3 });
    let wide = Area { x: 0, y: 0, width: 2000, height: 1 };
    assert_eq!(centered_rect(72, 10, wide), Area { x: 672, y: 0, width: 655, height: 3 });
    let last = Area { x: 65502, y: 65522, width: 100, height: 40 };
    assert!(can_center_rect(34, 14, last));
    assert_eq!(centered_rect(34, 14, last), Area { x: 65535, y: 65535, width: 34, height: 14 });
    assert!(!can_center_rect(34, 14, Area { x: 65503, ..last }));
    assert!(!can_center_rect(34, 14, Area { y: 65523, ..last }));
}
