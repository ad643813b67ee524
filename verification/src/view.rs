//! What is shown of accounts and of the program.
use vstd::prelude::*;
use vstd::string::*;

use crate::app::{ActionMenuItem, App, AuthLinkPopup};
use crate::identity::{can_shorten, short_account_id};
use crate::listing::ListItem;
use crate::model::{AccountRecord, QuotaState, QuotaWindow};
use crate::percent::QuotaLevel;
use crate::text::{
    can_truncate, decimal_text, push_decimal, push_repeated, same_text, to_lowercase, trim,
    truncate,
};
use crate::theme::{badge, raw, strong, tinted, Paint, Span, Style};
use crate::timestamp::Timestamp;

#[allow(unused_imports)]
use crate::app::{AppView, AuthFlowMode, PopupView};
#[allow(unused_imports)]
use crate::listing::ItemView;
#[allow(unused_imports)]
use crate::model::{AccountView, QuotaView, WindowView};
#[allow(unused_imports)]
use crate::theme::{bold, bold_on, fg, plain, span, span_views, SpanView};

verus! {

/// The whole seconds from `now` to `reset`. A leap second at the end is not counted where its time of
/// day lies before that of `now`.
pub open spec fn seconds_until(reset: (int, int), now: (int, int)) -> int {
    reset.0 - now.0 + (reset.1 - now.1) / 1_000_000_000 - if reset.1 >= 1_000_000_000 && reset.0
        % 86400 < now.0 % 86400 {
        1int
    } else {
        0
    }
}

/// How long it is until a window is reset: in days and hours, in hours and minutes, or in minutes.
pub open spec fn reset_text(reset: Option<(int, int)>, now: (int, int)) -> Seq<char> {
    match reset {
        Some(reset) => if crate::timestamp::no_later(reset, now) {
            "now"@
        } else {
            let s = seconds_until(reset, now);
            if s / 86400 >= 1 {
                crate::text::decimal((s / 86400) as nat) + "d "@ + crate::text::decimal(
                    (s % 86400 / 3600) as nat,
                ) + "h"@
            } else if s / 3600 > 0 {
                crate::text::decimal((s / 3600) as nat) + "h "@ + crate::text::decimal(
                    (s % 3600 / 60) as nat,
                ) + "m"@
            } else {
                crate::text::decimal((s % 3600 / 60) as nat) + "m"@
            }
        },
        None => "-"@,
    }
}

fn second_of_day(secs: i64) -> (r: i64)
    ensures
        r == secs as int % 86400,
{
    if secs >= 0 {
        secs % 86400
    } else {
        86399 - (-1 - secs) % 86400
    }
}

/// How long it is until a window is reset; `now` is not within a leap second.
pub fn format_reset(reset_at: Option<Timestamp>, now: Timestamp) -> (r: String)
    requires
        now@.1 < 1_000_000_000,
    ensures
        r@ == reset_text(crate::timestamp::moment(reset_at), now@),
{
    match reset_at {
        Some(reset) => {
            if reset.no_later_than(&now) {
                return "now".to_string();
            }
            let more: i64 = reset.nanos() as i64 - now.nanos() as i64;
            let carry: i64 = if more < 0 {
                -1
            } else if more >= 1_000_000_000 {
                1
            } else {
                0
            };
            let leap: i64 = if reset.nanos() >= 1_000_000_000 && second_of_day(reset.secs())
                < second_of_day(now.secs()) {
                1
            } else {
                0
            };
            let seconds: i64 = reset.secs() - now.secs() + carry - leap;
            assert(seconds == seconds_until(reset@, now@));
            assert(seconds >= 0);
            let mut text = String::new();
            let days: i64 = seconds / 86400;
            if days >= 1 {
                push_decimal(&mut text, days as u64);
                text.append("d ");
                push_decimal(&mut text, (seconds % 86400 / 3600) as u64);
                text.append("h");
                return text;
            }
            let hours: i64 = seconds / 3600;
            let minutes: i64 = seconds % 3600 / 60;
            if hours > 0 {
                push_decimal(&mut text, hours as u64);
                text.append("h ");
            }
            push_decimal(&mut text, minutes as u64);
            text.append("m");
            text
        },
        None => "-".to_string(),
    }
}

/// A dot in the middle of eight columns where the account is active, and eight spaces otherwise.
pub open spec fn active_text(a: AccountView) -> Seq<char> {
    if a.codex_active {
        crate::text::repeated(' ', 3) + "\u{25cf}"@ + crate::text::repeated(' ', 4)
    } else {
        crate::text::repeated(' ', 8)
    }
}

pub fn active_badges(account: &AccountRecord) -> (r: String)
    ensures
        r@ == active_text(account@),
{
    let mut r = String::new();
    if account.codex_active {
        push_repeated(&mut r, ' ', 3);
        r.append("\u{25cf}");
        push_repeated(&mut r, ' ', 4);
    } else {
        push_repeated(&mut r, ' ', 8);
    }
    assert(r@ =~= active_text(account@));
    r
}

/// The badge of a plan.
pub open spec fn plan_badge(plan: Seq<char>) -> SpanView {
    let name = crate::text::lowercase(crate::text::trimmed(plan));
    if name == "plus"@ {
        span(" PLUS "@, bold_on(Paint::Black, Paint::Warning))
    } else if name == "pro"@ {
        span(" PRO "@, bold_on(Paint::Black, Paint::Pink))
    } else if name == "team"@ {
        span(" TEAM "@, bold_on(Paint::Black, Paint::Cyan))
    } else if name == "business"@ {
        span(" BIZ "@, bold_on(Paint::Black, Paint::Violet))
    } else if name == "free"@ {
        span(" FREE "@, bold_on(Paint::Black, Paint::Muted))
    } else {
        span(" UNK "@, bold_on(Paint::Black, Paint::Border))
    }
}

pub fn plan_badge_span(plan: &str) -> (r: Span)
    ensures
        r@ == plan_badge(plan@),
{
    let name = to_lowercase(trim(plan));
    if same_text(name.as_str(), "plus") {
        badge(" PLUS ", Paint::Black, Paint::Warning)
    } else if same_text(name.as_str(), "pro") {
        badge(" PRO ", Paint::Black, Paint::Pink)
    } else if same_text(name.as_str(), "team") {
        badge(" TEAM ", Paint::Black, Paint::Cyan)
    } else if same_text(name.as_str(), "business") {
        badge(" BIZ ", Paint::Black, Paint::Violet)
    } else if same_text(name.as_str(), "free") {
        badge(" FREE ", Paint::Black, Paint::Muted)
    } else {
        badge(" UNK ", Paint::Black, Paint::Border)
    }
}

/// The name of an account and the badge of its plan.
pub open spec fn account_spans(a: AccountView) -> Seq<SpanView> {
    seq![
        span(a.display_name(), bold(Paint::Text)),
        span(" "@, plain()),
        plan_badge(a.plan_type()),
    ]
}

pub fn account_cell(account: &AccountRecord) -> (r: Vec<Span>)
    ensures
        span_views(r@) == account_spans(account@),
{
    let r = vec![
        strong(account.display_name().as_str(), Paint::Text),
        raw(" "),
        plan_badge_span(account.plan_type()),
    ];
    assert(span_views(r@) =~= account_spans(account@));
    r
}

/// The colour of what is left.
pub open spec fn level_paint(level: QuotaLevel) -> Paint {
    match level {
        QuotaLevel::Critical => Paint::Danger,
        QuotaLevel::Low => Paint::Warning,
        QuotaLevel::Medium => Paint::Violet,
        QuotaLevel::High => Paint::Green,
    }
}

pub fn quota_style(level: QuotaLevel) -> (r: Paint)
    ensures
        r == level_paint(level),
{
    match level {
        QuotaLevel::Critical => Paint::Danger,
        QuotaLevel::Low => Paint::Warning,
        QuotaLevel::Medium => Paint::Violet,
        QuotaLevel::High => Paint::Green,
    }
}

/// A window: a bar, a percentage, and when it is reset.
pub open spec fn window_spans(w: WindowView, now: (int, int)) -> Seq<SpanView> {
    let paint = level_paint(crate::percent::level(w.left_percent));
    seq![
        span(crate::percent::cells_text(w.left_percent), fg(paint)),
        span(" "@, plain()),
        span(crate::percent::percent_text(w.left_percent), bold(paint)),
        span(" "@, plain()),
        span(reset_text(w.reset_at, now), fg(Paint::Muted)),
    ]
}

fn window_cell(window: &QuotaWindow, now: Timestamp) -> (r: Vec<Span>)
    requires
        now@.1 < 1_000_000_000,
    ensures
        span_views(r@) == window_spans(window@, now@),
{
    let paint = quota_style(window.left_percent.quota_level());
    let r = vec![
        tinted(window.left_percent.mini_bar().as_str(), paint),
        raw(" "),
        strong(window.left_percent.percent_text().as_str(), paint),
        raw(" "),
        tinted(format_reset(window.reset_at, now).as_str(), Paint::Muted),
    ];
    assert(span_views(r@) =~= window_spans(window@, now@));
    r
}

/// An error can be cut to the width of its column.
pub open spec fn error_fits(state: QuotaView) -> bool {
    state matches QuotaView::Error(error) ==> crate::text::truncates(error, 20)
}

/// What is known of a window.
pub open spec fn quota_spans(state: QuotaView, window_sec: int, now: (int, int)) -> Seq<SpanView> {
    match state {
        QuotaView::Idle => seq![span("queued"@, fg(Paint::Muted))],
        QuotaView::Loading => seq![span("loading"@, fg(Paint::Cyan))],
        QuotaView::Error(error) => seq![
            span(crate::text::truncated(error, 20), fg(Paint::Danger)),
        ],
        QuotaView::Ready(data) => match data.window_by_seconds(window_sec) {
            Some(window) => window_spans(window, now),
            None => seq![span("n/a"@, fg(Paint::Muted))],
        },
    }
}

pub fn quota_cell(state: &QuotaState, window_sec: i64, now: Timestamp) -> (r: Vec<Span>)
    requires
        error_fits(state@),
        now@.1 < 1_000_000_000,
    ensures
        span_views(r@) == quota_spans(state@, window_sec as int, now@),
{
    let r = match state {
        QuotaState::Idle => vec![tinted("queued", Paint::Muted)],
        QuotaState::Loading => vec![tinted("loading", Paint::Cyan)],
        QuotaState::Error(error) => {
            vec![tinted(truncate(error.as_str(), 20).as_str(), Paint::Danger)]
        },
        QuotaState::Ready(data) => match data.window_by_seconds(window_sec) {
            Some(window) => window_cell(window, now),
            None => vec![tinted("n/a", Paint::Muted)],
        },
    };
    assert(span_views(r@) =~= quota_spans(state@, window_sec as int, now@));
    r
}

/// When a window is reset, or why that is not known.
pub open spec fn quota_reset(state: QuotaView, window_sec: int, now: (int, int)) -> Seq<char> {
    match state {
        QuotaView::Ready(data) => match data.window_by_seconds(window_sec) {
            Some(window) => reset_text(window.reset_at, now),
            None => "-"@,
        },
        QuotaView::Loading => "loading"@,
        QuotaView::Error(_) => "error"@,
        QuotaView::Idle => "queued"@,
    }
}

pub fn quota_reset_text(state: &QuotaState, window_sec: i64, now: Timestamp) -> (r: String)
    requires
        now@.1 < 1_000_000_000,
    ensures
        r@ == quota_reset(state@, window_sec as int, now@),
{
    match state {
        QuotaState::Ready(data) => match data.window_by_seconds(window_sec) {
            Some(window) => format_reset(window.reset_at, now),
            None => "-".to_string(),
        },
        QuotaState::Loading => "loading".to_string(),
        QuotaState::Error(_) => "error".to_string(),
        QuotaState::Idle => "queued".to_string(),
    }
}

/// How it stands with an account.
pub open spec fn status_word(a: AccountView) -> Seq<char> {
    match a.quota {
        QuotaView::Loading => "loading"@,
        QuotaView::Error(_) => "error"@,
        QuotaView::Idle => "queued"@,
        QuotaView::Ready(_) => if a.is_exhausted() {
            "exhausted"@
        } else {
            "ready"@
        },
    }
}

pub open spec fn status_paint(a: AccountView) -> Paint {
    match a.quota {
        QuotaView::Loading => Paint::Cyan,
        QuotaView::Error(_) => Paint::Danger,
        QuotaView::Idle => Paint::Muted,
        QuotaView::Ready(_) => if a.is_exhausted() {
            Paint::Warning
        } else {
            Paint::Green
        },
    }
}

pub fn account_status_text(account: &AccountRecord) -> (r: &'static str)
    ensures
        r@ == status_word(account@),
{
    match &account.quota {
        QuotaState::Loading => "loading",
        QuotaState::Error(_) => "error",
        QuotaState::Idle => "queued",
        QuotaState::Ready(_) => if account.is_exhausted() {
            "exhausted"
        } else {
            "ready"
        },
    }
}

pub fn status_style(account: &AccountRecord) -> (r: Paint)
    ensures
        r == status_paint(account@),
{
    match &account.quota {
        QuotaState::Loading => Paint::Cyan,
        QuotaState::Error(_) => Paint::Danger,
        QuotaState::Idle => Paint::Muted,
        QuotaState::Ready(_) => if account.is_exhausted() {
            Paint::Warning
        } else {
            Paint::Green
        },
    }
}

/// A row of the list: five cells, and the style of the whole.
#[derive(Debug)]
pub struct ListRow {
    pub marker: &'static str,
    pub active: String,
    pub account: Vec<Span>,
    pub five_hour: Vec<Span>,
    pub weekly: Vec<Span>,
    pub style: Style,
}

#[verifier::ext_equal]
pub struct RowView {
    pub marker: Seq<char>,
    pub active: Seq<char>,
    pub account: Seq<SpanView>,
    pub five_hour: Seq<SpanView>,
    pub weekly: Seq<SpanView>,
    pub style: Style,
}

impl View for ListRow {
    type V = RowView;

    open spec fn view(&self) -> RowView {
        RowView {
            marker: self.marker@,
            active: self.active@,
            account: span_views(self.account@),
            five_hour: span_views(self.five_hour@),
            weekly: span_views(self.weekly@),
            style: self.style,
        }
    }
}

pub open spec fn row_views(rows: Seq<ListRow>) -> Seq<RowView> {
    rows.map_values(|r: ListRow| r@)
}

pub open spec fn marker(selected: bool) -> Seq<char> {
    if selected {
        "\u{25b6}"@
    } else {
        " "@
    }
}

/// The row of a line of the list.
pub open spec fn row_of(app: AppView, item: ItemView, line: int, now: (int, int)) -> RowView {
    let selected = line == app.selected;
    match item {
        ItemView::Account(i) => {
            let a = app.accounts[i];
            RowView {
                marker: marker(selected),
                active: active_text(a),
                account: account_spans(a),
                five_hour: quota_spans(a.quota, 18_000, now),
                weekly: quota_spans(a.quota, 604_800, now),
                style: if selected {
                    bold_on(Paint::Text, Paint::SelectionBg)
                } else {
                    plain()
                },
            }
        },
        ItemView::ExhaustedSummary(count) => RowView {
            marker: marker(selected),
            active: Seq::empty(),
            account: seq![
                span(
                    crate::text::decimal(count)
                        + " exhausted accounts \u{2022} press e to show"@,
                    plain(),
                ),
            ],
            five_hour: Seq::empty(),
            weekly: Seq::empty(),
            style: if selected {
                bold_on(Paint::Text, Paint::SelectionBg)
            } else {
                fg(Paint::Warning)
            },
        },
    }
}

/// An error in the row can be cut to the width of its column.
pub open spec fn row_fits(app: AppView, item: ItemView) -> bool {
    item matches ItemView::Account(i) ==> 0 <= i < app.accounts.len() && error_fits(
        app.accounts[i].quota,
    )
}

fn row_style(selected: bool, other: Style) -> (r: Style)
    ensures
        r == if selected {
            bold_on(Paint::Text, Paint::SelectionBg)
        } else {
            other
        },
{
    if selected {
        Style {
            fg: Some(Paint::Text),
            bg: Some(Paint::SelectionBg),
            bold: true,
            underlined: false,
        }
    } else {
        other
    }
}

/// The row of a line of the list.
pub fn render_row(app: &App, item: ListItem, line: usize, now: Timestamp) -> (r: ListRow)
    requires
        row_fits(app@, item@),
        now@.1 < 1_000_000_000,
    ensures
        r@ == row_of(app@, item@, line as int, now@),
{
    let selected: bool = line == app.selected;
    let marker: &'static str = if selected {
        "\u{25b6}"
    } else {
        " "
    };
    match item {
        ListItem::Account(index) => {
            let account = &app.accounts[index];
            assert(app@.accounts[index as int] == account@);
            ListRow {
                marker,
                active: active_badges(account),
                account: account_cell(account),
                five_hour: quota_cell(&account.quota, 18_000, now),
                weekly: quota_cell(&account.quota, 604_800, now),
                style: row_style(
                    selected,
                    Style { fg: None, bg: None, bold: false, underlined: false },
                ),
            }
        },
        ListItem::ExhaustedSummary(count) => {
            let text = decimal_text(count as u64).concat(
                " exhausted accounts \u{2022} press e to show",
            );
            let account = vec![raw(text.as_str())];
            let ghost shown = row_of(app@, item@, line as int, now@);
            assert(span_views(account@) =~= shown.account);
            let r = ListRow {
                marker,
                active: String::new(),
                account,
                five_hour: Vec::new(),
                weekly: Vec::new(),
                style: row_style(
                    selected,
                    Style {
                        fg: Some(Paint::Warning),
                        bg: None,
                        bold: false,
                        underlined: false,
                    },
                ),
            };
            assert(span_views(r.five_hour@) =~= Seq::empty());
            assert(span_views(r.weekly@) =~= Seq::empty());
            assert(r@ =~= shown);
            r
        },
    }
}

/// The first line that is in view.
pub open spec fn first_visible(app: AppView) -> int {
    let n = app.items().len() as int;
    if n == 0 {
        0
    } else if app.scroll < n - 1 {
        app.scroll
    } else {
        n - 1
    }
}

/// The line behind the last that is in view.
pub open spec fn end_visible(app: AppView) -> int {
    let n = app.items().len() as int;
    if first_visible(app) + app.viewport_rows < n {
        first_visible(app) + app.viewport_rows
    } else {
        n
    }
}

/// The rows that are in view.
pub open spec fn visible_rows(app: AppView, now: (int, int)) -> Seq<RowView> {
    Seq::new(
        (end_visible(app) - first_visible(app)) as nat,
        |k: int| row_of(app, app.items()[first_visible(app) + k], first_visible(app) + k, now),
    )
}

/// All rows in view can be shown, and the selected account has an id that can be shown.
pub open spec fn can_show(app: AppView) -> bool {
    &&& forall|k: int|
        first_visible(app) <= k < end_visible(app) ==> row_fits(app, #[trigger] app.items()[k])
    &&& app.selected_account() matches Some(i) ==> crate::identity::shortens(
        app.accounts[i].account_id,
    )
}

fn visible_bounds(app: &App, n: usize) -> (r: (usize, usize))
    requires
        n == app@.items().len(),
    ensures
        r.0 == first_visible(app@),
        r.1 == end_visible(app@),
        r.0 <= r.1 <= n,
{
    let first: usize = if n == 0 {
        0
    } else if app.scroll < n - 1 {
        app.scroll
    } else {
        n - 1
    };
    let end: usize = if app.viewport_rows < n - first {
        first + app.viewport_rows
    } else {
        n
    };
    (first, end)
}

/// Tells whether the screen can be drawn.
pub fn can_draw(app: &App) -> (r: bool)
    ensures
        r == can_show(app@),
{
    let items = app.list_items();
    let (first, end) = visible_bounds(app, items.len());
    for k in first..end
        invariant
            first == first_visible(app@),
            end == end_visible(app@),
            end <= items@.len(),
            crate::listing::item_views(items@) == app@.items(),
            crate::listing::items_in_bounds(items@, app.accounts@.len()),
            forall|j: int| first <= j < k ==> row_fits(app@, #[trigger] app@.items()[j]),
    {
        assert(app@.items()[k as int] == items@[k as int]@);
        if let ListItem::Account(index) = items[k] {
            assert(app@.accounts[index as int] == app.accounts@[index as int]@);
            if let QuotaState::Error(error) = &app.accounts[index].quota {
                if !can_truncate(error.as_str(), 20) {
                    assert(!row_fits(app@, app@.items()[k as int]));
                    return false;
                }
            }
        }
    }
    match app.selected_account_index() {
        Some(index) => {
            assert(app@.accounts[index as int] == app.accounts@[index as int]@);
            can_shorten(app.accounts[index].account_id.as_str())
        },
        None => true,
    }
}

/// The rows that are in view.
pub fn draw_rows(app: &App, now: Timestamp) -> (r: Vec<ListRow>)
    requires
        can_show(app@),
        now@.1 < 1_000_000_000,
    ensures
        row_views(r@) == visible_rows(app@, now@),
{
    let items = app.list_items();
    let (first, end) = visible_bounds(app, items.len());
    let ghost rows = visible_rows(app@, now@);
    let mut r: Vec<ListRow> = Vec::new();
    assert(row_views(r@) =~= rows.take(0));
    for k in first..end
        invariant
            can_show(app@),
            now@.1 < 1_000_000_000,
            first == first_visible(app@),
            end == end_visible(app@),
            first <= end <= items@.len(),
            crate::listing::item_views(items@) == app@.items(),
            rows == visible_rows(app@, now@),
            row_views(r@) == rows.take(k - first),
    {
        let ghost before = row_views(r@);
        assert(app@.items()[k as int] == items@[k as int]@);
        let row = render_row(app, items[k], k, now);
        let ghost shown = row@;
        assert(shown == rows[k - first]);
        r.push(row);
        assert(row_views(r@) =~= before.push(shown));
        assert(before.push(shown) =~= rows.take(k - first + 1));
    }
    assert(rows.take(end - first) =~= rows);
    r
}

/// The label of a detail.
pub open spec fn label(text: Seq<char>) -> SpanView {
    span(text, bold(Paint::Muted))
}

pub fn label_span(text: &str) -> (r: Span)
    ensures
        r@ == label(text@),
{
    strong(text, Paint::Muted)
}

/// When the tokens expire: the given text, or a dash where that is not known.
pub open spec fn expiry_text(a: AccountView, expires: Seq<char>) -> Seq<char> {
    if a.expires_at is None {
        "-"@
    } else {
        expires
    }
}

/// The details of an account.
pub open spec fn detail_lines(a: AccountView, expires: Seq<char>, now: (int, int)) -> Seq<
    Seq<SpanView>,
> {
    seq![
        seq![
            label("Email"@),
            span(": "@, plain()),
            span(a.email, fg(Paint::Text)),
            span("  "@, plain()),
            label("Plan"@),
            span(": "@, plain()),
            plan_badge(a.plan_type()),
            span("  "@, plain()),
            label("Managed"@),
            span(": "@, plain()),
            if a.managed {
                span("yes"@, fg(Paint::Green))
            } else {
                span("no"@, fg(Paint::Muted))
            },
        ],
        seq![
            label("Active"@),
            span(": "@, plain()),
            span(active_text(a), fg(Paint::Green)),
            span("  "@, plain()),
            label("Account ID"@),
            span(": "@, plain()),
            span(crate::identity::shortened(a.account_id), fg(Paint::Cyan)),
        ],
        seq![
            label("5h Reset"@),
            span(": "@, plain()),
            span(quota_reset(a.quota, 18_000, now), fg(Paint::Text)),
            span("  "@, plain()),
            label("Week Reset"@),
            span(": "@, plain()),
            span(quota_reset(a.quota, 604_800, now), fg(Paint::Text)),
        ],
        seq![
            label("Token Exp"@),
            span(": "@, plain()),
            span(expiry_text(a, expires), fg(Paint::Text)),
            span("  "@, plain()),
            label("Status"@),
            span(": "@, plain()),
            span(status_word(a), fg(status_paint(a))),
        ],
    ]
}

fn account_line(account: &AccountRecord) -> (r: Vec<Span>)
    ensures
        span_views(r@) == detail_lines(account@, Seq::empty(), (0, 0))[0],
{
    let managed = if account.managed {
        tinted("yes", Paint::Green)
    } else {
        tinted("no", Paint::Muted)
    };
    let r = vec![
        label_span("Email"),
        raw(": "),
        tinted(account.email.as_str(), Paint::Text),
        raw("  "),
        label_span("Plan"),
        raw(": "),
        plan_badge_span(account.plan_type()),
        raw("  "),
        label_span("Managed"),
        raw(": "),
        managed,
    ];
    assert(span_views(r@) =~= detail_lines(account@, Seq::empty(), (0, 0))[0]);
    r
}

fn identity_line(account: &AccountRecord) -> (r: Vec<Span>)
    requires
        crate::identity::shortens(account@.account_id),
    ensures
        span_views(r@) == detail_lines(account@, Seq::empty(), (0, 0))[1],
{
    let r = vec![
        label_span("Active"),
        raw(": "),
        tinted(active_badges(account).as_str(), Paint::Green),
        raw("  "),
        label_span("Account ID"),
        raw(": "),
        tinted(short_account_id(account.account_id.as_str()).as_str(), Paint::Cyan),
    ];
    assert(span_views(r@) =~= detail_lines(account@, Seq::empty(), (0, 0))[1]);
    r
}

fn reset_line(account: &AccountRecord, now: Timestamp) -> (r: Vec<Span>)
    requires
        now@.1 < 1_000_000_000,
    ensures
        span_views(r@) == detail_lines(account@, Seq::empty(), now@)[2],
{
    let r = vec![
        label_span("5h Reset"),
        raw(": "),
        tinted(quota_reset_text(&account.quota, 18_000, now).as_str(), Paint::Text),
        raw("  "),
        label_span("Week Reset"),
        raw(": "),
        tinted(quota_reset_text(&account.quota, 604_800, now).as_str(), Paint::Text),
    ];
    assert(span_views(r@) =~= detail_lines(account@, Seq::empty(), now@)[2]);
    r
}

fn state_line(account: &AccountRecord, expires: &str) -> (r: Vec<Span>)
    ensures
        span_views(r@) == detail_lines(account@, expires@, (0, 0))[3],
{
    let expiry = match account.expires_at {
        Some(_) => expires,
        None => "-",
    };
    let r = vec![
        label_span("Token Exp"),
        raw(": "),
        tinted(expiry, Paint::Text),
        raw("  "),
        label_span("Status"),
        raw(": "),
        tinted(account_status_text(account), status_style(account)),
    ];
    assert(span_views(r@) =~= detail_lines(account@, expires@, (0, 0))[3]);
    r
}

/// The details of the selected account, or that there is none.
pub open spec fn selected_details(app: AppView, expires: Seq<char>, now: (int, int)) -> Seq<
    Seq<SpanView>,
> {
    match app.selected_account() {
        Some(i) => detail_lines(app.accounts[i], expires, now),
        None => seq![seq![span("No account selected"@, fg(Paint::Muted))]],
    }
}

/// The details of the selected account. `expires` says when its tokens expire, in words.
pub fn draw_details(app: &App, expires: &str, now: Timestamp) -> (r: Vec<Vec<Span>>)
    requires
        can_show(app@),
        now@.1 < 1_000_000_000,
    ensures
        crate::theme::line_views(r@) == selected_details(app@, expires@, now@),
{
    match app.selected_account_index() {
        Some(index) => {
            let account = &app.accounts[index];
            assert(app@.accounts[index as int] == account@);
            let r = vec![
                account_line(account),
                identity_line(account),
                reset_line(account, now),
                state_line(account, expires),
            ];
            assert(crate::theme::line_views(r@) =~= detail_lines(account@, expires@, now@));
            r
        },
        None => {
            let line = vec![tinted("No account selected", Paint::Muted)];
            let ghost shown = seq![span("No account selected"@, fg(Paint::Muted))];
            assert(span_views(line@) =~= shown);
            let r = vec![line];
            assert(crate::theme::line_views(r@) =~= seq![shown]);
            r
        },
    }
}

/// The two lines at the top.
pub open spec fn title(app: AppView) -> Seq<Seq<SpanView>> {
    seq![
        seq![
            span(app.status, fg(Paint::Muted)),
            span("  "@, plain()),
            span(
                if app.add_in_progress {
                    "login in progress..."@
                } else {
                    ""@
                },
                fg(Paint::Cyan),
            ),
        ],
        seq![
            span("Filter"@, fg(Paint::Muted)),
            span(": "@, plain()),
            span(app.plan_filter.text(), fg(Paint::Pink)),
            span(" (p cycle)"@, fg(Paint::Muted)),
            span("  "@, plain()),
            span("Search"@, fg(Paint::Muted)),
            span(": "@, plain()),
            span(
                if app.search_input.len() > 0 {
                    app.search_input
                } else if app.search_mode {
                    "_"@
                } else {
                    "none"@
                },
                fg(
                    if app.search_mode {
                        Paint::Cyan
                    } else {
                        Paint::Green
                    },
                ),
            ),
            span(" (/ edit, f clear)"@, fg(Paint::Muted)),
        ],
    ]
}

/// The two lines at the top.
pub fn draw_title(app: &App) -> (r: Vec<Vec<Span>>)
    ensures
        crate::theme::line_views(r@) == title(app@),
{
    let progress = if app.add_in_progress {
        "login in progress..."
    } else {
        ""
    };
    let search = if !app.search_input.as_str().is_empty() {
        app.search_input.as_str()
    } else if app.search_mode {
        "_"
    } else {
        "none"
    };
    let search_paint = if app.search_mode {
        Paint::Cyan
    } else {
        Paint::Green
    };
    let status = vec![
        tinted(app.status.as_str(), Paint::Muted),
        raw("  "),
        tinted(progress, Paint::Cyan),
    ];
    let filters = vec![
        tinted("Filter", Paint::Muted),
        raw(": "),
        tinted(app.plan_filter.label(), Paint::Pink),
        tinted(" (p cycle)", Paint::Muted),
        raw("  "),
        tinted("Search", Paint::Muted),
        raw(": "),
        tinted(search, search_paint),
        tinted(" (/ edit, f clear)", Paint::Muted),
    ];
    assert(span_views(status@) =~= title(app@)[0]);
    assert(span_views(filters@) =~= title(app@)[1]);
    let r = vec![status, filters];
    assert(crate::theme::line_views(r@) =~= title(app@));
    r
}

/// The keys that are named at the bottom, and what they do.
pub open spec fn key_hints() -> Seq<(Seq<char>, Seq<char>)> {
    seq![
        ("\u{2191}\u{2193}"@, " move  "@),
        ("e"@, " exhausted  "@),
        ("/"@, " search  "@),
        ("p"@, " cycle plan  "@),
        ("f"@, " clear filters  "@),
        ("Enter"@, " menu  "@),
        ("s"@, " codex  "@),
        ("a"@, " add  "@),
        ("l"@, " re-login  "@),
        ("d"@, " delete  "@),
        ("r"@, " refresh  "@),
        ("R"@, " refresh all  "@),
        ("q"@, " quit"@),
    ]
}

/// The line at the bottom.
pub open spec fn footer_spans(hints: Seq<(Seq<char>, Seq<char>)>) -> Seq<SpanView>
    decreases hints.len(),
{
    if hints.len() == 0 {
        Seq::empty()
    } else {
        footer_spans(hints.drop_last()).push(span(hints.last().0, bold(Paint::KeyHint))).push(
            span(hints.last().1, plain()),
        )
    }
}

/// The line at the bottom.
pub fn draw_footer() -> (r: Vec<Span>)
    ensures
        span_views(r@) == footer_spans(key_hints()),
{
    let hints = [
        ("\u{2191}\u{2193}", " move  "),
        ("e", " exhausted  "),
        ("/", " search  "),
        ("p", " cycle plan  "),
        ("f", " clear filters  "),
        ("Enter", " menu  "),
        ("s", " codex  "),
        ("a", " add  "),
        ("l", " re-login  "),
        ("d", " delete  "),
        ("r", " refresh  "),
        ("R", " refresh all  "),
        ("q", " quit"),
    ];
    let ghost all = hints@.map_values(|h: (&str, &str)| (h.0@, h.1@));
    assert(all =~= key_hints());
    let mut r: Vec<Span> = Vec::new();
    assert(all.take(0) =~= Seq::empty());
    assert(span_views(r@) =~= Seq::empty());
    for i in 0..hints.len()
        invariant
            all == hints@.map_values(|h: (&str, &str)| (h.0@, h.1@)),
            span_views(r@) == footer_spans(all.take(i as int)),
    {
        let ghost before = span_views(r@);
        assert(all.take(i + 1).drop_last() == all.take(i as int));
        assert(all.take(i + 1).last() == (hints@[i as int].0@, hints@[i as int].1@));
        r.push(strong(hints[i].0, Paint::KeyHint));
        r.push(raw(hints[i].1));
        assert(span_views(r@) =~= footer_spans(all.take(i + 1)));
    }
    assert(all.take(all.len() as int) == all);
    r
}

/// A line of the menu.
pub open spec fn menu_line(item: ActionMenuItem, selected: bool) -> Seq<SpanView> {
    seq![
        span(
            marker(selected) + " "@ + item.text(),
            if selected {
                bold_on(Paint::Text, Paint::SelectionBg)
            } else if item == ActionMenuItem::Delete {
                fg(Paint::Warning)
            } else {
                fg(Paint::Text)
            },
        ),
    ]
}

/// The lines of the menu.
pub open spec fn menu_lines(app: AppView) -> Seq<Seq<SpanView>> {
    crate::app::menu_items().map(
        |i: int, item: ActionMenuItem| menu_line(item, i == app.action_menu_cursor),
    )
}

fn draw_menu_line(item: ActionMenuItem, selected: bool) -> (r: Vec<Span>)
    ensures
        span_views(r@) == menu_line(item, selected),
{
    let mark = if selected {
        "\u{25b6}"
    } else {
        " "
    };
    let text = mark.to_string().concat(" ").concat(item.label());
    let span = if selected {
        badge(text.as_str(), Paint::Text, Paint::SelectionBg)
    } else if item == ActionMenuItem::Delete {
        tinted(text.as_str(), Paint::Warning)
    } else {
        tinted(text.as_str(), Paint::Text)
    };
    let r = vec![span];
    assert(span_views(r@) =~= menu_line(item, selected));
    r
}

/// The lines of the menu.
pub fn draw_action_menu(app: &App) -> (r: Vec<Vec<Span>>)
    ensures
        crate::theme::line_views(r@) == menu_lines(app@),
{
    let items = ActionMenuItem::all();
    let ghost lines = menu_lines(app@);
    let mut r: Vec<Vec<Span>> = Vec::new();
    assert(crate::theme::line_views(r@) =~= lines.take(0));
    for i in 0..items.len()
        invariant
            items@ == crate::app::menu_items(),
            lines == menu_lines(app@),
            crate::theme::line_views(r@) == lines.take(i as int),
    {
        let ghost before = crate::theme::line_views(r@);
        let line = draw_menu_line(items[i], i == app.action_menu_cursor);
        let ghost shown = span_views(line@);
        assert(shown == lines[i as int]);
        r.push(line);
        assert(crate::theme::line_views(r@) =~= before.push(shown));
        assert(before.push(shown) =~= lines.take(i + 1));
    }
    assert(lines.take(lines.len() as int) == lines);
    r
}

/// The lines that show the link of a login.
pub open spec fn popup_lines(popup: PopupView) -> Seq<Seq<SpanView>> {
    seq![
        seq![span("Open this "@ + popup.mode.word() + " URL in any browser."@, fg(Paint::Text))],
        seq![
            span(
                "The app is waiting for the localhost callback on port 1455."@,
                fg(Paint::Muted),
            ),
        ],
        Seq::empty(),
        seq![
            span(
                popup.url,
                Style { fg: Some(Paint::Cyan), bg: None, bold: false, underlined: true },
            ),
        ],
        Seq::empty(),
        seq![
            span(
                "Esc or Enter hides this popup while login keeps running."@,
                fg(Paint::Muted),
            ),
        ],
    ]
}

/// The lines that show the link of a login.
pub fn draw_auth_popup(popup: &AuthLinkPopup) -> (r: Vec<Vec<Span>>)
    ensures
        crate::theme::line_views(r@) == popup_lines(
            (PopupView { mode: popup.mode, url: popup.url@ }),
        ),
{
    let ghost lines = popup_lines(PopupView { mode: popup.mode, url: popup.url@ });
    let opening = "Open this ".to_string().concat(popup.mode.verb()).concat(
        " URL in any browser.",
    );
    let first = vec![tinted(opening.as_str(), Paint::Text)];
    let second = vec![
        tinted("The app is waiting for the localhost callback on port 1455.", Paint::Muted),
    ];
    let link = vec![
        Span {
            text: popup.url.clone(),
            style: Style { fg: Some(Paint::Cyan), bg: None, bold: false, underlined: true },
        },
    ];
    let last = vec![
        tinted("Esc or Enter hides this popup while login keeps running.", Paint::Muted),
    ];
    assert(span_views(first@) =~= lines[0]);
    assert(span_views(second@) =~= lines[1]);
    assert(span_views(link@) =~= lines[3]);
    assert(span_views(last@) =~= lines[5]);
    let r: Vec<Vec<Span>> = vec![first, second, Vec::new(), link, Vec::new(), last];
    assert(span_views(r@[2]@) =~= lines[2]);
    assert(span_views(r@[4]@) =~= lines[4]);
    assert(crate::theme::line_views(r@) =~= lines);
    r
}

/// A rectangle of the screen.
#[derive(Clone, Copy, Debug, PartialEq, Eq, Structural)]
pub struct Area {
    pub x: u16,
    pub y: u16,
    pub width: u16,
    pub height: u16,
}

/// The width of a rectangle that takes a part of another, before it is widened.
pub open spec fn popup_width(percent_x: int, width: int) -> int {
    let product = if width * percent_x > 65535 {
        65535
    } else {
        width * percent_x
    };
    product / 100
}

/// The height of a rectangle that leaves two rows of another free, but has three at least.
pub open spec fn popup_height(height: int, outer: int) -> int {
    let room = if outer < 2 {
        0
    } else {
        outer - 2
    };
    let wanted = if height < room {
        height
    } else {
        room
    };
    if wanted < 3 {
        3
    } else {
        wanted
    }
}

/// Where a part of length `inner` begins that lies in the middle of `outer`.
pub open spec fn margin(outer: int, inner: int) -> int {
    if outer <= inner {
        0
    } else {
        (outer - inner) / 2
    }
}

/// The rectangle in the middle does not begin beyond what can be counted.
pub open spec fn can_center(percent_x: int, height: int, area: Area) -> bool {
    &&& area.x + margin(area.width as int, popup_width(percent_x, area.width as int)) <= u16::MAX
    &&& area.y + margin(area.height as int, popup_height(height, area.height as int)) <= u16::MAX
}

/// The width and the height of a rectangle in the middle of another, before it is widened.
fn popup_size(percent_x: u16, height: u16, area: Area) -> (r: (u16, u16))
    ensures
        r.0 == popup_width(percent_x as int, area.width as int),
        r.1 == popup_height(height as int, area.height as int),
{
    assert(0 <= area.width * percent_x <= 65535 * 65535) by (nonlinear_arith)
        requires
            0 <= area.width <= 65535,
            0 <= percent_x <= 65535,
    ;
    let product: u32 = area.width as u32 * percent_x as u32;
    let width: u16 = if product > 65535 {
        655
    } else {
        (product / 100) as u16
    };
    let room: u16 = if area.height < 2 {
        0
    } else {
        area.height - 2
    };
    let wanted: u16 = if height < room {
        height
    } else {
        room
    };
    let tall: u16 = if wanted < 3 {
        3
    } else {
        wanted
    };
    (width, tall)
}

fn margin_of(outer: u16, inner: u16) -> (r: u16)
    ensures
        r == margin(outer as int, inner as int),
{
    if outer <= inner {
        0
    } else {
        (outer - inner) / 2
    }
}

/// The rectangle in the middle does not begin beyond what can be counted.
pub fn can_center_rect(percent_x: u16, height: u16, area: Area) -> (r: bool)
    ensures
        r == can_center(percent_x as int, height as int, area),
{
    let (width, tall) = popup_size(percent_x, height, area);
    area.x <= u16::MAX - margin_of(area.width, width) && area.y <= u16::MAX - margin_of(
        area.height,
        tall,
    )
}

/// A rectangle in the middle of another.
pub fn centered_rect(percent_x: u16, height: u16, area: Area) -> (r: Area)
    requires
        can_center(percent_x as int, height as int, area),
    ensures
        ({
            let width = popup_width(percent_x as int, area.width as int);
            let tall = popup_height(height as int, area.height as int);
            &&& r.x == area.x + margin(area.width as int, width)
            &&& r.y == area.y + margin(area.height as int, tall)
            &&& r.width == if width < 24 {
                24
            } else {
                width
            }
            &&& r.height == tall
        }),
{
    let (width, tall) = popup_size(percent_x, height, area);
    Area {
        x: area.x + margin_of(area.width, width),
        y: area.y + margin_of(area.height, tall),
        width: if width < 24 {
            24
        } else {
            width
        },
        height: tall,
    }
}

/// Everything that is shown.
#[derive(Debug)]
pub struct Screen {
    pub title: Vec<Vec<Span>>,
    pub rows: Vec<ListRow>,
    pub details: Vec<Vec<Span>>,
    pub menu: Option<Vec<Vec<Span>>>,
    pub popup: Option<Vec<Vec<Span>>>,
    pub footer: Vec<Span>,
}

#[verifier::ext_equal]
pub struct ScreenView {
    pub title: Seq<Seq<SpanView>>,
    pub rows: Seq<RowView>,
    pub details: Seq<Seq<SpanView>>,
    pub menu: Option<Seq<Seq<SpanView>>>,
    pub popup: Option<Seq<Seq<SpanView>>>,
    pub footer: Seq<SpanView>,
}

/// The views of lines that may be missing.
pub open spec fn maybe_lines(lines: Option<Vec<Vec<Span>>>) -> Option<Seq<Seq<SpanView>>> {
    match lines {
        Some(lines) => Some(crate::theme::line_views(lines@)),
        None => None,
    }
}

impl View for Screen {
    type V = ScreenView;

    open spec fn view(&self) -> ScreenView {
        ScreenView {
            title: crate::theme::line_views(self.title@),
            rows: row_views(self.rows@),
            details: crate::theme::line_views(self.details@),
            menu: maybe_lines(self.menu),
            popup: maybe_lines(self.popup),
            footer: span_views(self.footer@),
        }
    }
}

/// Everything that is shown in a state.
pub open spec fn screen_of(app: AppView, expires: Seq<char>, now: (int, int)) -> ScreenView {
    ScreenView {
        title: title(app),
        rows: visible_rows(app, now),
        details: selected_details(app, expires, now),
        menu: if app.action_menu_open {
            Some(menu_lines(app))
        } else {
            None
        },
        popup: match app.auth_popup {
            Some(popup) => Some(popup_lines(popup)),
            None => None,
        },
        footer: footer_spans(key_hints()),
    }
}

/// Everything that is shown. `expires` says when the tokens of the selected account expire, in words.
pub fn draw(app: &App, expires: &str, now: Timestamp) -> (r: Screen)
    requires
        can_show(app@),
        now@.1 < 1_000_000_000,
    ensures
        r@ == screen_of(app@, expires@, now@),
{
    let menu = if app.action_menu_open {
        Some(draw_action_menu(app))
    } else {
        None
    };
    let popup = match &app.auth_popup {
        Some(popup) => Some(draw_auth_popup(popup)),
        None => None,
    };
    Screen {
        title: draw_title(app),
        rows: draw_rows(app, now),
        details: draw_details(app, expires, now),
        menu,
        popup,
        footer: draw_footer(),
    }
}

} // verus!
