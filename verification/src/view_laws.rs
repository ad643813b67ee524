//! What the screen tells, whatever the state of the program.
use vstd::prelude::*;

#[allow(unused_imports)]
use crate::app::{AppView, PopupView};
#[allow(unused_imports)]
use crate::listing::ItemView;
#[allow(unused_imports)]
use crate::model::{AccountView, QuotaView, UsageView, WindowView};
#[allow(unused_imports)]
use crate::percent::{percent, QuotaLevel};
#[allow(unused_imports)]
use crate::text::{decimal, pad_start};
#[allow(unused_imports)]
use crate::theme::{Paint, SpanView};
#[allow(unused_imports)]
use crate::view::{quota_spans, reset_text, row_of, screen_of, RowView};

verus! {

/// The text of a line: that of its spans, one after the other.
pub open spec fn line_text(spans: Seq<SpanView>) -> Seq<char>
    decreases spans.len(),
{
    if spans.len() == 0 {
        Seq::empty()
    } else {
        line_text(spans.drop_last()) + spans.last().text
    }
}

/// A number in three columns, with a percent sign.
pub open spec fn number_text(k: nat) -> Seq<char> {
    pad_start(decimal(k), 3) + "%"@
}

/// The cell of a window that the service reported tells what is left of it: where from `k` to `k + 1`
/// percent are used, the number is that of the rest of the hundred, rounded. A window of which nothing
/// is used shows 100%, and one that is used up shows 0% and an empty bar.
pub proof fn lemma_cell_shows_what_is_left(
    usage: UsageView,
    snapshot: crate::api::WindowSnapshot,
    now: (int, int),
    k: nat,
)
    requires
        k < 100,
        crate::model::first_window(usage.windows, snapshot.limit_window_seconds as int) == Some(
            crate::api::mapped_window(snapshot),
        ),
    ensures
        ({
            let used = crate::percent::clamped(snapshot.used_percent@);
            let cell = quota_spans(
                QuotaView::Ready(usage),
                snapshot.limit_window_seconds as int,
                now,
            );
            &&& cell.len() == 5
            &&& used == percent(k) ==> cell[2].text == number_text((100 - k) as nat)
            &&& used == percent(100) ==> cell[2].text == number_text(0)
            &&& percent(k) <= used <= percent(k + 1) ==> cell[2].text == number_text(
                (100 - k) as nat,
            ) || cell[2].text == number_text((99 - k) as nat)
            &&& used == percent(100) ==> cell[0].text == crate::text::repeated('\u{2591}', 8)
            &&& used == 0 ==> cell[0].text == crate::text::repeated('\u{2588}', 8)
        }),
{
    let used = crate::percent::clamped(snapshot.used_percent@);
    let left = crate::percent::left_of(used);
    let rest = (99 - k) as nat;
    let u = crate::binary64::unit();
    vstd::arithmetic::power2::lemma_pow2_pos(1074);
    crate::percent::lemma_clamped_range(snapshot.used_percent@);
    crate::percent::lemma_left_is_the_rest(used, k);
    crate::percent::lemma_left_is_the_rest(used, k + 1);
    crate::percent::lemma_left_is_the_rest(used, 100);
    crate::percent::lemma_left_is_the_rest(used, 0);
    crate::percent::lemma_whole_percent_shown((100 - k) as nat);
    crate::percent::lemma_whole_percent_shown(rest);
    crate::percent::lemma_whole_percent_shown(0);
    assert((rest + 1) * u == rest * u + u) by (nonlinear_arith);
    assert(0 * u == 0) by (nonlinear_arith);
    if percent(k) <= used <= percent(k + 1) && left < percent(rest + 1) {
        crate::percent::lemma_nearest_percent_shown(left, rest);
    }
    crate::percent::lemma_filled_cells(0, 0, 0);
    crate::percent::lemma_filled_cells(0, 0, 8);
    assert(crate::percent::cells_text(0) =~= crate::text::repeated('\u{2591}', 8));
    assert(crate::percent::cells_text(percent(100)) =~= crate::text::repeated('\u{2588}', 8));
}

/// The bar and the number of a cell speak of the same percentage: a window with more left never shows a
/// shorter bar, and every eighth that is left fills a cell.
pub proof fn lemma_bar_shows_what_is_left(
    usage: UsageView,
    window_sec: int,
    w: WindowView,
    now: (int, int),
    m: nat,
    i: int,
)
    requires
        crate::model::first_window(usage.windows, window_sec) == Some(w),
        m <= 8,
        0 <= i < 8,
    ensures
        ({
            let bar = quota_spans(QuotaView::Ready(usage), window_sec, now)[0].text;
            &&& bar.len() == 8
            &&& w.left_percent >= crate::percent::eighths(m) && i < m ==> bar[i] == '\u{2588}'
            &&& w.left_percent <= crate::percent::eighths(m) && i >= m ==> bar[i] == '\u{2591}'
        }),
{
    crate::percent::lemma_cells(w.left_percent, i);
    if w.left_percent >= crate::percent::eighths(m) {
        crate::percent::lemma_filled_cells(crate::percent::eighths(m), w.left_percent, m);
    } else {
        crate::percent::lemma_filled_cells(w.left_percent, crate::percent::eighths(m), m);
    }
    crate::percent::lemma_filled_cells(w.left_percent, w.left_percent, m);
}

/// A window with at most ten percent left is shown as a danger, one with more than sixty-five as good.
pub proof fn lemma_cell_colour(usage: UsageView, window_sec: int, w: WindowView, now: (int, int))
    requires
        crate::model::first_window(usage.windows, window_sec) == Some(w),
    ensures
        ({
            let cell = quota_spans(QuotaView::Ready(usage), window_sec, now);
            &&& cell[0].style.fg == cell[2].style.fg
            &&& cell[0].style.fg == Some(Paint::Danger) <==> w.left_percent <= percent(10)
            &&& cell[0].style.fg == Some(Paint::Green) <==> w.left_percent > percent(65)
            &&& cell[0].style.fg == Some(Paint::Warning) <==> percent(10) < w.left_percent
                <= percent(35)
        }),
{
    crate::percent::lemma_level(w.left_percent, w.left_percent);
}

/// The cell of a window ends with the time that is left until its own reset.
pub proof fn lemma_cell_shows_reset(usage: UsageView, window_sec: int, w: WindowView, now: (int, int))
    requires
        crate::model::first_window(usage.windows, window_sec) == Some(w),
    ensures
        quota_spans(QuotaView::Ready(usage), window_sec, now).last().text == reset_text(
            w.reset_at,
            now,
        ),
        crate::view::quota_reset(QuotaView::Ready(usage), window_sec, now) == reset_text(
            w.reset_at,
            now,
        ),
{
}

/// A cell without a window says why.
pub proof fn lemma_cell_without_window(state: QuotaView, window_sec: int, now: (int, int))
    ensures
        state is Idle ==> line_text(quota_spans(state, window_sec, now)) == "queued"@,
        state is Loading ==> line_text(quota_spans(state, window_sec, now)) == "loading"@,
        state is Ready && crate::model::first_window(state->Ready_0.windows, window_sec) is None
            ==> line_text(quota_spans(state, window_sec, now)) == "n/a"@,
        state matches QuotaView::Error(error) ==> line_text(quota_spans(state, window_sec, now))
            == crate::text::truncated(error, 20),
{
    let cell = quota_spans(state, window_sec, now);
    if !(state is Ready) || crate::model::first_window(
        state->Ready_0.windows,
        window_sec,
    ) is None {
        reveal_with_fuel(line_text, 2);
        assert(cell.drop_last() =~= Seq::empty());
        assert(line_text(cell) =~= cell[0].text);
    }
}

/// The nanoseconds of a point in time.
pub open spec fn nanos_of(t: (int, int)) -> int {
    t.0 * 1_000_000_000 + t.1
}

/// The text for so many minutes, hours and minutes, or days and hours.
pub open spec fn is_span_text(text: Seq<char>, seconds: int) -> bool {
    ||| exists|m: nat|
        text == #[trigger] decimal(m) + "m"@ && m < 60 && m * 60 <= seconds < m * 60 + 60
    ||| exists|h: nat, m: nat|
        text == #[trigger] decimal(h) + "h "@ + #[trigger] decimal(m) + "m"@ && 1 <= h < 24 && m
            < 60 && h * 3600 + m * 60 <= seconds < h * 3600 + m * 60 + 60
    ||| exists|d: nat, h: nat|
        text == #[trigger] decimal(d) + "d "@ + #[trigger] decimal(h) + "h"@ && 1 <= d && h < 24
            && d * 86400 + h * 3600 <= seconds < d * 86400 + h * 3600 + 3600
}

/// The time until a reset is told in whole minutes, or in whole hours from a day on, rounded down.
/// A reset that is not ahead is told as such.
pub proof fn lemma_reset_text(reset: (int, int), now: (int, int))
    requires
        crate::timestamp::in_range(reset.0, reset.1),
        crate::timestamp::in_range(now.0, now.1),
        reset.1 < 1_000_000_000,
        now.1 < 1_000_000_000,
    ensures
        nanos_of(reset) <= nanos_of(now) ==> reset_text(Some(reset), now) == "now"@,
        nanos_of(reset) > nanos_of(now) ==> is_span_text(
            reset_text(Some(reset), now),
            (nanos_of(reset) - nanos_of(now)) / 1_000_000_000,
        ),
        reset_text(None, now) == "-"@,
{
    if nanos_of(reset) > nanos_of(now) {
        let s = (nanos_of(reset) - nanos_of(now)) / 1_000_000_000;
        assert(s == crate::view::seconds_until(reset, now));
        assert(s >= 0);
        let d = (s / 86400) as nat;
        let h = (s % 86400 / 3600) as nat;
        let m = (s % 3600 / 60) as nat;
        let text = reset_text(Some(reset), now);
        if s >= 86400 {
            assert(text == decimal(d) + "d "@ + decimal(h) + "h"@);
            assert(d * 86400 + h * 3600 <= s < d * 86400 + h * 3600 + 3600);
        } else if s >= 3600 {
            assert(h == s / 3600);
            assert(text == decimal(h) + "h "@ + decimal(m) + "m"@);
            assert(h * 3600 + m * 60 <= s < h * 3600 + m * 60 + 60);
        } else {
            assert(text == decimal(m) + "m"@);
            assert(m * 60 <= s < m * 60 + 60);
        }
    }
}

/// The row of an account names it, marks it where it is the active one, and shows its own quota: for
/// five hours in one column and for the week in the other.
pub proof fn lemma_row_of_account(app: AppView, i: int, line: int, now: (int, int))
    ensures
        ({
            let row = row_of(app, ItemView::Account(i), line, now);
            let a = app.accounts[i];
            &&& row.account[0].text == a.display_name()
            &&& row.account[2] == crate::view::plan_badge(a.plan_type())
            &&& row.active.contains('\u{25cf}') <==> a.codex_active
            &&& row.active.len() == 8
            &&& row.five_hour == quota_spans(a.quota, 5 * 60 * 60int, now)
            &&& row.weekly == quota_spans(a.quota, 7 * 24 * 60 * 60int, now)
            &&& row.marker == "\u{25b6}"@ <==> line == app.selected
            &&& row.style.bg == Some(Paint::SelectionBg) <==> line == app.selected
        }),
{
    reveal_strlit("\u{25cf}");
    reveal_strlit("\u{25b6}");
    reveal_strlit(" ");
    assert("\u{25b6}"@[0] != " "@[0]);
    let row = row_of(app, ItemView::Account(i), line, now);
    if app.accounts[i].codex_active {
        assert(row.active[3] == '\u{25cf}');
        assert(row.active.contains('\u{25cf}'));
    }
}

/// The line of hidden accounts tells how many they are.
pub proof fn lemma_row_of_summary(app: AppView, count: nat, line: int, now: (int, int))
    ensures
        ({
            let row = row_of(app, ItemView::ExhaustedSummary(count), line, now);
            &&& row.account.len() == 1
            &&& crate::text::begins_with(row.account[0].text, decimal(count))
            &&& row.five_hour.len() == 0
            &&& row.weekly.len() == 0
            &&& row.marker == "\u{25b6}"@ <==> line == app.selected
        }),
{
    reveal_strlit("\u{25b6}");
    reveal_strlit(" ");
    assert("\u{25b6}"@[0] != " "@[0]);
    let text = row_of(app, ItemView::ExhaustedSummary(count), line, now).account[0].text;
    assert(text.take(decimal(count).len() as int) =~= decimal(count));
}

/// The rows on the screen are lines of the list that follow each other, as many as there is room for;
/// one of them is marked where the selected line is among them, and no other.
pub proof fn lemma_rows(app: AppView, expires: Seq<char>, now: (int, int), k: int)
    requires
        app.scroll >= 0,
        app.viewport_rows >= 0,
        0 <= k < screen_of(app, expires, now).rows.len(),
    ensures
        ({
            let first = crate::view::first_visible(app);
            &&& 0 <= first + k < app.items().len()
            &&& screen_of(app, expires, now).rows[k] == row_of(
                app,
                app.items()[first + k],
                first + k,
                now,
            )
            &&& screen_of(app, expires, now).rows.len() <= app.viewport_rows
            &&& app.scroll < app.items().len() ==> first == app.scroll
            &&& first + screen_of(app, expires, now).rows.len() < app.items().len() ==> screen_of(
                app,
                expires,
                now,
            ).rows.len() == app.viewport_rows
            &&& screen_of(app, expires, now).rows[k].marker == "\u{25b6}"@ <==> first + k
                == app.selected
        }),
{
    let first = crate::view::first_visible(app);
    match app.items()[first + k] {
        ItemView::Account(i) => lemma_row_of_account(app, i, first + k, now),
        ItemView::ExhaustedSummary(n) => lemma_row_of_summary(app, n, first + k, now),
    }
}

/// A label and what stands behind it.
pub open spec fn tells(line: Seq<SpanView>, at: int, label: Seq<char>, value: Seq<char>) -> bool {
    0 <= at && at + 2 < line.len() && line[at].text == label && line[at + 1].text == ": "@
        && line[at + 2].text == value
}

/// The details are those of the account on the selected line: each label stands before what it names.
pub proof fn lemma_details(app: AppView, expires: Seq<char>, now: (int, int), i: int)
    requires
        0 <= app.selected < app.items().len(),
        app.items()[app.selected] == ItemView::Account(i),
    ensures
        ({
            let lines = screen_of(app, expires, now).details;
            let a = app.accounts[i];
            &&& lines.len() == 4
            &&& tells(lines[0], 0, "Email"@, a.email)
            &&& tells(lines[0], 4, "Plan"@, crate::view::plan_badge(a.plan_type()).text)
            &&& a.managed ==> tells(lines[0], 8, "Managed"@, "yes"@)
            &&& !a.managed ==> tells(lines[0], 8, "Managed"@, "no"@)
            &&& tells(lines[1], 0, "Active"@, crate::view::active_text(a))
            &&& tells(lines[1], 4, "Account ID"@, crate::identity::shortened(a.account_id))
            &&& tells(
                lines[2],
                0,
                "5h Reset"@,
                crate::view::quota_reset(a.quota, 5 * 60 * 60int, now),
            )
            &&& tells(
                lines[2],
                4,
                "Week Reset"@,
                crate::view::quota_reset(a.quota, 7 * 24 * 60 * 60int, now),
            )
            &&& a.expires_at is Some ==> tells(lines[3], 0, "Token Exp"@, expires)
            &&& a.expires_at is None ==> tells(lines[3], 0, "Token Exp"@, "-"@)
            &&& a.quota is Ready && a.is_exhausted() ==> tells(
                lines[3],
                4,
                "Status"@,
                "exhausted"@,
            )
            &&& a.quota is Ready && !a.is_exhausted() ==> tells(lines[3], 4, "Status"@, "ready"@)
            &&& a.quota is Loading ==> tells(lines[3], 4, "Status"@, "loading"@)
            &&& a.quota is Idle ==> tells(lines[3], 4, "Status"@, "queued"@)
            &&& a.quota is Error ==> tells(lines[3], 4, "Status"@, "error"@)
        }),
{
}

/// The time until the reset of a window that is not known is told by why it is not.
pub proof fn lemma_reset_without_window(state: QuotaView, window_sec: int, now: (int, int))
    ensures
        state is Idle ==> crate::view::quota_reset(state, window_sec, now) == "queued"@,
        state is Loading ==> crate::view::quota_reset(state, window_sec, now) == "loading"@,
        state is Error ==> crate::view::quota_reset(state, window_sec, now) == "error"@,
        state is Ready && crate::model::first_window(state->Ready_0.windows, window_sec) is None
            ==> crate::view::quota_reset(state, window_sec, now) == "-"@,
{
}

/// Where no account is on the selected line, no account is described.
pub proof fn lemma_no_details(app: AppView, expires: Seq<char>, now: (int, int))
    requires
        app.selected >= app.items().len() || !(app.items()[app.selected] is Account),
    ensures
        screen_of(app, expires, now).details.len() == 1,
        line_text(screen_of(app, expires, now).details[0]) == "No account selected"@,
{
    let line = screen_of(app, expires, now).details[0];
    reveal_with_fuel(line_text, 2);
    assert(line.drop_last() =~= Seq::empty());
    assert(line_text(line) =~= line[0].text);
}

/// The top of the screen tells what was last done, whether a login is under way, which plans are
/// listed, and what is searched for.
pub proof fn lemma_title(app: AppView, expires: Seq<char>, now: (int, int))
    ensures
        ({
            let lines = screen_of(app, expires, now).title;
            &&& lines[0][0].text == app.status
            &&& app.add_in_progress ==> lines[0][2].text == "login in progress..."@
            &&& !app.add_in_progress ==> lines[0][2].text == ""@
            &&& tells(lines[1], 0, "Filter"@, app.plan_filter.text())
            &&& app.search_input.len() > 0 ==> tells(lines[1], 5, "Search"@, app.search_input)
            &&& app.search_input.len() == 0 && !app.search_mode ==> tells(
                lines[1],
                5,
                "Search"@,
                "none"@,
            )
        }),
{
}

/// The menu is on the screen exactly while it is open, and the link of a login exactly while there is
/// one; the link is shown whole.
pub proof fn lemma_popups(app: AppView, expires: Seq<char>, now: (int, int))
    ensures
        screen_of(app, expires, now).menu is Some <==> app.action_menu_open,
        screen_of(app, expires, now).popup is Some <==> app.auth_popup is Some,
        app.auth_popup matches Some(popup) ==> screen_of(app, expires, now).popup->0[3]
            == seq![screen_of(app, expires, now).popup->0[3][0]]
            && screen_of(app, expires, now).popup->0[3][0].text == popup.url,
        app.auth_popup matches Some(popup) ==> crate::text::holds(
            screen_of(app, expires, now).popup->0[0][0].text,
            popup.mode.word(),
        ),
{
    match app.auth_popup {
        Some(popup) => {
            let line = screen_of(app, expires, now).popup->0[3];
            assert(line =~= seq![line[0]]);
            let text = screen_of(app, expires, now).popup->0[0][0].text;
            let n = "Open this "@.len() as int;
            assert(text.subrange(n, n + popup.mode.word().len()) =~= popup.mode.word());
        },
        None => {},
    }
}

/// The badge of a plan bears its name.
pub proof fn lemma_plan_badge(plan: Seq<char>)
    ensures
        ({
            let name = crate::text::lowercase(crate::text::trimmed(plan));
            let badge = crate::view::plan_badge(plan).text;
            &&& name == "plus"@ ==> badge == " PLUS "@
            &&& name == "pro"@ ==> badge == " PRO "@
            &&& name == "team"@ ==> badge == " TEAM "@
            &&& name == "business"@ ==> badge == " BIZ "@
            &&& name == "free"@ ==> badge == " FREE "@
            &&& name == "unknown"@ ==> badge == " UNK "@
        }),
{
    reveal_strlit("plus");
    reveal_strlit("pro");
    reveal_strlit("team");
    reveal_strlit("business");
    reveal_strlit("free");
    reveal_strlit("unknown");
    assert("plus"@[1] == 'l' && "pro"@[1] == 'r' && "team"@[1] == 'e');
    assert("plus"@.len() == 4 && "pro"@.len() == 3 && "team"@.len() == 4);
    assert("business"@.len() == 8 && "free"@.len() == 4 && "unknown"@.len() == 7);
    assert("free"@[1] == 'r' && "plus"@[0] == 'p' && "team"@[0] == 't');
}

/// A popup lies in the middle of the screen: the space on both sides of it, and above and below it,
/// differs by one at most, where the screen is large enough for it.
pub proof fn lemma_centered(percent_x: int, height: int, width: int, tall: int)
    requires
        0 <= percent_x <= 100,
        0 <= width,
        width * percent_x <= 65535,
        3 <= height,
        5 <= tall,
    ensures
        ({
            let w = crate::view::popup_width(percent_x, width);
            let h = crate::view::popup_height(height, tall);
            let left = crate::view::margin(width, w);
            let top = crate::view::margin(tall, h);
            &&& w * 100 <= width * percent_x < (w + 1) * 100
            &&& 0 <= width - w - left - left <= 1
            &&& 0 <= tall - h - top - top <= 1
            &&& h <= height && h <= tall - 2
            &&& height <= tall - 2 ==> h == height
        }),
{
    assert(width * percent_x <= width * 100) by (nonlinear_arith)
        requires
            percent_x <= 100,
            0 <= width,
    ;
    assert(0 <= width * percent_x) by (nonlinear_arith)
        requires
            0 <= percent_x,
            0 <= width,
    ;
}

proof fn lemma_footer_spans(hints: Seq<(Seq<char>, Seq<char>)>, i: int)
    requires
        0 <= i < hints.len(),
    ensures
        crate::view::footer_spans(hints).len() == 2 * hints.len(),
        crate::view::footer_spans(hints)[2 * i].text == hints[i].0,
        crate::view::footer_spans(hints)[2 * i + 1].text == hints[i].1,
    decreases hints.len(),
{
    reveal_with_fuel(crate::view::footer_spans, 2);
    let front = hints.drop_last();
    if i < front.len() {
        lemma_footer_spans(front, i);
        assert(front[i] == hints[i]);
    } else if front.len() > 0 {
        lemma_footer_spans(front, 0);
    }
}

/// The bottom of the screen names keys, each with what it does.
pub proof fn lemma_footer(app: AppView, expires: Seq<char>, now: (int, int))
    ensures
        ({
            let f = screen_of(app, expires, now).footer;
            &&& f[2].text == "e"@ && f[3].text == " exhausted  "@
            &&& f[4].text == "/"@ && f[5].text == " search  "@
            &&& f[6].text == "p"@ && f[7].text == " cycle plan  "@
            &&& f[8].text == "f"@ && f[9].text == " clear filters  "@
            &&& f[12].text == "s"@ && f[13].text == " codex  "@
            &&& f[14].text == "a"@ && f[15].text == " add  "@
            &&& f[16].text == "l"@ && f[17].text == " re-login  "@
            &&& f[18].text == "d"@ && f[19].text == " delete  "@
            &&& f[20].text == "r"@ && f[21].text == " refresh  "@
            &&& f[22].text == "R"@ && f[23].text == " refresh all  "@
            &&& f[24].text == "q"@ && f[25].text == " quit"@
        }),
{
    let hints = crate::view::key_hints();
    lemma_footer_spans(hints, 1);
    lemma_footer_spans(hints, 2);
    lemma_footer_spans(hints, 3);
    lemma_footer_spans(hints, 4);
    lemma_footer_spans(hints, 6);
    lemma_footer_spans(hints, 7);
    lemma_footer_spans(hints, 8);
    lemma_footer_spans(hints, 9);
    lemma_footer_spans(hints, 10);
    lemma_footer_spans(hints, 11);
    lemma_footer_spans(hints, 12);
}

/// The status of an account has the colour of what it tells.
pub proof fn lemma_status_colour(a: AccountView)
    ensures
        a.quota is Error <==> crate::view::status_paint(a) == Paint::Danger,
        a.quota is Loading <==> crate::view::status_paint(a) == Paint::Cyan,
        a.quota is Ready && a.is_exhausted() <==> crate::view::status_paint(a) == Paint::Warning,
        a.quota is Ready && !a.is_exhausted() <==> crate::view::status_paint(a) == Paint::Green,
{
}

} // verus!
