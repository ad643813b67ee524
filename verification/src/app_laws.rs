//! What holds of the program in every state.
use vstd::prelude::*;

#[allow(unused_imports)]
use crate::app::{AppView, AuthFlowMode, EffectView, Key, WorkerView};
#[allow(unused_imports)]
use crate::listing::{ItemView, PlanFilter};
#[allow(unused_imports)]
use crate::model::{AccountView, QuotaView};

verus! {

/// The numbers in a state are those of lines.
pub open spec fn is_state(app: AppView) -> bool {
    app.selected >= 0 && app.scroll >= 0
}

/// A selected line that exists is brought into view, and stays selected.
pub proof fn lemma_made_visible(app: AppView)
    requires
        is_state(app),
        app.selected < app.items().len(),
    ensures
        app.with_visible_selection().selection_visible(),
        app.with_visible_selection().selected == app.selected,
        app.with_visible_selection().items() == app.items(),
        is_state(app.with_visible_selection()),
{
}

/// A selected line that exists is among those that are drawn.
pub proof fn lemma_selected_is_drawn(app: AppView)
    requires
        is_state(app),
        app.selected < app.items().len(),
        app.viewport_rows >= 1,
    ensures
        ({
            let now = app.with_visible_selection();
            crate::view::first_visible(now) <= now.selected < crate::view::end_visible(now)
        }),
{
    lemma_made_visible(app);
}

/// After the selection was checked, the selected line exists and is in view, or there is no line.
pub proof fn lemma_made_valid(app: AppView)
    requires
        is_state(app),
    ensures
        app.with_valid_selection().selection_valid(),
        app.with_valid_selection().items() == app.items(),
        app.items().len() > 0 ==> app.with_valid_selection().selection_visible(),
        is_state(app.with_valid_selection()),
{
    let n = app.items().len() as int;
    if n > 0 {
        if app.selected >= n {
            lemma_made_visible(AppView { selected: n - 1, ..app });
        } else {
            lemma_made_visible(app);
        }
    }
}

/// Moving selects a line that exists, and brings it into view.
pub proof fn lemma_moved(app: AppView, delta: int)
    requires
        is_state(app),
    ensures
        app.moved(delta).selection_valid(),
        app.items().len() > 0 ==> app.moved(delta).selection_visible(),
        is_state(app.moved(delta)),
{
    let n = app.items().len() as int;
    let next = app.selected + delta;
    if n > 0 {
        let chosen = if next < 0 {
            0
        } else if next > n - 1 {
            n - 1
        } else {
            next
        };
        lemma_made_visible(AppView { selected: chosen, ..app });
    }
}

/// Showing or hiding exhausted accounts leaves a line selected that exists, and turns their display
/// round where there are any.
pub proof fn lemma_toggled(app: AppView)
    requires
        is_state(app),
        app.selection_valid(),
    ensures
        app.toggled().selection_valid(),
        app.exhausted_count() > 0 ==> app.toggled().show_exhausted == !app.show_exhausted,
        app.exhausted_count() == 0 ==> app.toggled() == app,
        is_state(app.toggled()),
{
    if app.exhausted_count() > 0 {
        let flipped = app.flipped();
        let n = flipped.items().len() as int;
        lemma_made_valid(AppView { show_exhausted: !app.show_exhausted, ..app });
        crate::listing::lemma_list_len(
            flipped.accounts,
            flipped.search_input,
            flipped.plan_filter,
            flipped.show_exhausted,
        );
        let line = flipped.line_after_flip(app.summary_selected());
        assert(0 <= line < n);
        lemma_made_visible(AppView { selected: line, ..flipped });
    }
}

/// The exhausted accounts are listed from the line on which their summary was.
pub proof fn lemma_summary_opens(app: AppView)
    requires
        is_state(app),
        app.summary_selected(),
    ensures
        app.entered().show_exhausted,
        app.entered().selected == app.available_count(),
        app.entered().selected_account() is Some,
{
    crate::listing::lemma_listed(
        app.accounts,
        app.search_input,
        app.plan_filter,
        app.show_exhausted,
    );
    crate::listing::lemma_list_len(
        app.accounts,
        app.search_input,
        app.plan_filter,
        app.show_exhausted,
    );
    assert(app.exhausted_count() > 0);
    let flipped = app.flipped();
    lemma_made_valid(AppView { show_exhausted: !app.show_exhausted, ..app });
    crate::listing::lemma_list_len(
        flipped.accounts,
        flipped.search_input,
        flipped.plan_filter,
        flipped.show_exhausted,
    );
    let line = flipped.line_after_flip(true);
    lemma_made_visible(AppView { selected: line, ..flipped });
    let now = app.entered();
    assert(now == app.toggled());
    crate::listing::lemma_listed(
        now.accounts,
        now.search_input,
        now.plan_filter,
        now.show_exhausted,
    );
    assert(now.items()[now.selected] is Account);
}

/// The filter lets accounts pass whose plan is not known.
pub open spec fn admits_unknown(filter: PlanFilter) -> bool {
    filter == PlanFilter::All || filter == PlanFilter::Unknown
}

proof fn lemma_loading_is_admitted(filter: PlanFilter, a: AccountView)
    requires
        admits_unknown(filter),
    ensures
        filter.admits(crate::app::loading(a)),
{
    reveal_strlit("Unknown");
    reveal_strlit("unknown");
    assert(crate::text::ascii_lowercase("Unknown"@) =~= crate::text::ascii_lowercase("unknown"@));
}

/// Asking for quota does not shorten the list as long as unknown plans are listed.
proof fn lemma_asking_keeps_lines(app: AppView, accounts: Seq<AccountView>)
    requires
        admits_unknown(app.plan_filter),
        accounts.len() == app.accounts.len(),
        forall|i: int|
            0 <= i < accounts.len() ==> #[trigger] accounts[i] == app.accounts[i] || accounts[i]
                == crate::app::loading(app.accounts[i]),
    ensures
        app.items().len() <= (AppView { accounts, ..app }).items().len(),
{
    assert forall|i: int|
        0 <= i < accounts.len() && crate::listing::passes(
            #[trigger] app.accounts[i],
            app.search_input,
            app.plan_filter,
        ) implies crate::listing::passes(accounts[i], app.search_input, app.plan_filter) by {
        assert(accounts[i] == app.accounts[i] || accounts[i] == crate::app::loading(
            app.accounts[i],
        ));
        lemma_loading_is_admitted(app.plan_filter, app.accounts[i]);
    }
    assert forall|i: int| 0 <= i < accounts.len() && !(#[trigger] app.accounts[i]).is_exhausted() implies
        !accounts[i].is_exhausted() by {
        assert(accounts[i] == app.accounts[i] || accounts[i] == crate::app::loading(
            app.accounts[i],
        ));
    }
    crate::listing::lemma_list_grows(
        app.accounts,
        accounts,
        app.search_input,
        app.plan_filter,
        app.show_exhausted,
    );
}

/// The selected account exists.
pub proof fn lemma_selected_exists(app: AppView)
    ensures
        app.selected_account() matches Some(i) ==> 0 <= i < app.accounts.len(),
{
    match app.selected_account() {
        Some(i) => {
            crate::listing::lemma_listed(
                app.accounts,
                app.search_input,
                app.plan_filter,
                app.show_exhausted,
            );
            assert(app.items()[app.selected] == ItemView::Account(i));
            assert(app.items().contains(ItemView::Account(i)));
        },
        None => {},
    }
}

proof fn lemma_refreshed(app: AppView)
    requires
        is_state(app),
        app.selection_valid(),
        admits_unknown(app.plan_filter),
    ensures
        app.refreshed().selection_valid(),
        is_state(app.refreshed()),
{
    lemma_selected_exists(app);
    lemma_asking_keeps_lines(app, app.refreshed().accounts);
}

/// The key asks for quota: then accounts lose their plans until it is known again.
pub open spec fn starts_fetch(app: AppView, key: Key) -> bool {
    exists|e: EffectView| #[trigger] app.key_effects(key).contains(e) && e is Fetch
}

/// A key leaves a line selected that exists. While only accounts of a known plan are listed, this does
/// not hold of keys that ask for quota: the plan of an account is not known while its quota is being
/// learnt.
pub proof fn lemma_key_keeps_selection(app: AppView, key: Key)
    requires
        is_state(app),
        app.selection_valid(),
        admits_unknown(app.plan_filter) || app.selected == 0 || !starts_fetch(app, key),
    ensures
        app.after_key(key).selection_valid(),
        is_state(app.after_key(key)),
{
    let now = app.after_key(key);
    if app.auth_popup is Some {
    } else if app.action_menu_open {
        if key == Key::Enter {
            let closed = app.menu_closed();
            let action = crate::app::menu_items()[app.action_menu_cursor];
            if action == crate::app::ActionMenuItem::Refresh {
                if admits_unknown(app.plan_filter) {
                    lemma_refreshed(closed);
                } else if app.selected > 0 {
                    lemma_no_fetch(app, key, closed);
                }
            }
        }
    } else if app.search_mode {
        let typed = match key {
            Key::Esc => AppView { search_mode: false, ..app },
            Key::Enter => (AppView { search_mode: false, ..app }).at_top(),
            Key::Backspace => (AppView {
                search_input: if app.search_input.len() == 0 {
                    app.search_input
                } else {
                    app.search_input.drop_last()
                },
                ..app
            }).at_top(),
            Key::Char(c) => (AppView { search_input: app.search_input.push(c), ..app }).at_top(),
            _ => app,
        };
        lemma_made_valid(typed);
    } else if crate::app::is_up(key) {
        lemma_moved(app, -1);
    } else if crate::app::is_down(key) {
        lemma_moved(app, 1);
    } else if key == Key::Char('e') || key == Key::Enter {
        lemma_toggled(app);
    } else if key == Key::Char('r') {
        if admits_unknown(app.plan_filter) {
            lemma_refreshed(app);
        } else if app.selected > 0 {
            lemma_no_fetch(app, key, app);
        }
    } else if key == Key::Char('R') {
        if admits_unknown(app.plan_filter) {
            lemma_asking_keeps_lines(app, crate::app::asked(app.accounts, false));
        } else if app.selected > 0 {
            lemma_no_fetches(app, key);
        }
    }
}

/// Where refreshing the selected account asks for nothing, it changes nothing.
proof fn lemma_no_fetch(app: AppView, key: Key, from: AppView)
    requires
        !starts_fetch(app, key),
        app.key_effects(key) == from.refresh_effects(),
    ensures
        from.refreshed() == from,
{
    match from.selected_account() {
        Some(i) => {
            if !(from.accounts[i].quota is Loading) {
                let e = EffectView::Fetch(crate::app::loading(from.accounts[i]));
                assert(app.key_effects(key)[0] == e);
                assert(app.key_effects(key).contains(e));
            }
        },
        None => {},
    }
}

/// Where refreshing all accounts asks for nothing, it changes nothing.
proof fn lemma_no_fetches(app: AppView, key: Key)
    requires
        !starts_fetch(app, key),
        app.key_effects(key) == crate::app::fetches(app.accounts, false),
    ensures
        crate::app::asked(app.accounts, false) == app.accounts,
{
    let wanted = crate::app::is_asked(false);
    assert forall|i: int| 0 <= i < app.accounts.len() implies !wanted(
        #[trigger] app.accounts[i],
    ) by {
        if wanted(app.accounts[i]) {
            let kept = app.accounts.filter(wanted);
            assert(app.accounts.contains(app.accounts[i]));
            crate::order::lemma_filter_contains(app.accounts, wanted, app.accounts[i]);
            let p = choose|p: int| 0 <= p < kept.len() && kept[p] == app.accounts[i];
            let e = EffectView::Fetch(crate::app::loading(app.accounts[i]));
            assert(app.key_effects(key)[p] == e);
            assert(app.key_effects(key).contains(e));
        }
    }
    assert(crate::app::asked(app.accounts, false) =~= app.accounts);
}

/// A reply leaves a line selected that exists, whatever was selected before.
pub proof fn lemma_worker_keeps_selection(app: AppView, event: WorkerView)
    requires
        is_state(app),
        event is LoggedIn ==> app.selection_valid(),
    ensures
        app.after_worker(event).selection_valid(),
        is_state(app.after_worker(event)),
{
    match event {
        WorkerView::QuotaLoaded(news) => {
            lemma_made_valid(
                AppView { status: "quota refreshed"@, ..app.with_account_replaced(news) },
            );
        },
        WorkerView::QuotaFailed { key, error } => {
            lemma_made_valid(AppView { status: error, ..app.with_quota_error(key, error) });
        },
        WorkerView::LoggedIn { account, mode } => {},
        WorkerView::LoginFailed { error } => {
            lemma_made_valid(AppView { status: error, ..app.login_over() });
        },
    }
}

/// Accounts that were loaded anew leave a line selected that exists.
pub proof fn lemma_reload_keeps_selection(app: AppView, accounts: Seq<AccountView>)
    requires
        is_state(app),
    ensures
        app.reloaded(accounts).selection_valid(),
        is_state(app.reloaded(accounts)),
{
    let fresh = AppView { accounts, ..app };
    let chosen = match app.selected_key() {
        Some(key) => fresh.with_key_selected(key),
        None => fresh,
    };
    match app.selected_key() {
        Some(key) => {
            let line = crate::app::line_of_key(fresh.items(), fresh.accounts, key) as int;
            if line < fresh.items().len() {
                lemma_made_visible(AppView { selected: line, ..fresh });
            }
        },
        None => {},
    }
    lemma_made_valid(AppView { accounts: crate::app::asked(accounts, true), ..chosen });
}

/// The program starts with a line selected that exists, and with exhausted accounts hidden.
pub proof fn lemma_starts_valid(accounts: Seq<AccountView>)
    ensures
        crate::app::initial(accounts).with_valid_selection().selection_valid(),
        !crate::app::initial(accounts).with_valid_selection().show_exhausted,
        crate::app::initial(accounts).with_valid_selection().well_formed(),
{
    lemma_made_valid(crate::app::initial(accounts));
}

/// No key changes an account but in its quota, nor their number and order.
pub proof fn lemma_keys_keep_accounts(app: AppView, key: Key)
    ensures
        app.after_key(key).accounts.len() == app.accounts.len(),
        forall|i: int|
            0 <= i < app.accounts.len() ==> #[trigger] app.after_key(key).accounts[i]
                == app.accounts[i] || app.after_key(key).accounts[i] == crate::app::loading(
                app.accounts[i],
            ),
{
    lemma_selected_exists(app);
    lemma_selected_exists(app.menu_closed());
}

/// While the quota of an account is being learnt, it is not asked for again.
pub proof fn lemma_asked_once(accounts: Seq<AccountView>, idle_only: bool)
    ensures
        crate::app::fetches(crate::app::asked(accounts, false), idle_only).len() == 0,
        crate::app::fetches(crate::app::asked(accounts, true), true).len() == 0,
{
    lemma_none_asked(crate::app::asked(accounts, false), idle_only);
    lemma_none_asked(crate::app::asked(accounts, true), true);
}

proof fn lemma_none_asked(accounts: Seq<AccountView>, idle_only: bool)
    requires
        forall|i: int|
            0 <= i < accounts.len() ==> !crate::app::is_asked(idle_only)(#[trigger] accounts[i]),
    ensures
        crate::app::fetches(accounts, idle_only).len() == 0,
{
    let wanted = crate::app::is_asked(idle_only);
    let kept = accounts.filter(wanted);
    if kept.len() > 0 {
        crate::order::lemma_filter_contains(accounts, wanted, kept[0]);
        assert(kept.contains(kept[0]));
        let i = choose|i: int| 0 <= i < accounts.len() && accounts[i] == kept[0];
        assert(!wanted(accounts[i]));
    }
}

/// After the filters were cleared, every account passes.
pub proof fn lemma_cleared_lists_all(app: AppView, a: AccountView)
    requires
        app.auth_popup is None,
        !app.action_menu_open,
        !app.search_mode,
    ensures
        ({
            let now = app.after_key(Key::Char('f'));
            crate::listing::passes(a, now.search_input, now.plan_filter)
        }),
{
    assert(crate::text::trimmed(Seq::empty()) =~= Seq::empty());
    crate::text::lemma_lowercase_empty(crate::text::trimmed(Seq::empty()));
}

/// The account that was applied is the only active one.
pub proof fn lemma_one_active(app: AppView, index: int)
    ensures
        app.with_active(index).accounts.len() == app.accounts.len(),
        forall|i: int|
            0 <= i < app.accounts.len() ==> (#[trigger] app.with_active(index).accounts[i]).codex_active
                == (i == index),
{
}

/// While the link of a login is shown, keys ask for no work and change no account.
pub proof fn lemma_popup_holds_keys(app: AppView, key: Key)
    requires
        app.auth_popup is Some,
    ensures
        app.key_effects(key).len() == 0,
        app.after_key(key) == (AppView { auth_popup: app.after_key(key).auth_popup, ..app }),
{
}

/// A second login is not started while one is under way.
pub proof fn lemma_one_login_at_a_time(app: AppView, key: Key, mode: AuthFlowMode)
    requires
        app.add_in_progress,
    ensures
        !app.key_effects(key).contains(EffectView::StartLogin(mode)),
{
    let effects = app.key_effects(key);
    let e = EffectView::StartLogin(mode);
    if effects.contains(e) {
        let p = choose|p: int| 0 <= p < effects.len() && effects[p] == e;
        assert(effects[p] is StartLogin);
    }
}

} // verus!
