//! What keys and replies are for, whatever the state of the program.
use vstd::prelude::*;

#[allow(unused_imports)]
use crate::app::{
    asked, fetches, ActionMenuItem, AppView, AuthFlowMode, EffectView, Key, PopupView, WorkerView,
};
#[allow(unused_imports)]
use crate::listing::{ItemView, PlanFilter};
#[allow(unused_imports)]
use crate::model::{AccountView, QuotaView};

verus! {

/// Keys go to the list: no link is shown, no menu is open, and no search is typed.
pub open spec fn on_list(app: AppView) -> bool {
    app.auth_popup is None && !app.action_menu_open && !app.search_mode
}

/// The account on the selected line.
pub open spec fn is_selected(app: AppView, i: int) -> bool {
    0 <= app.selected < app.items().len() && app.items()[app.selected] == ItemView::Account(i)
}

/// The account, with its quota being learnt.
pub open spec fn being_learnt(a: AccountView) -> AccountView {
    AccountView { quota: QuotaView::Loading, ..a }
}

/// Whatever a key asks to be done with an account is done with the right one: an account is applied or
/// deleted only from the selected line, whole and as it stands there, and quota is learnt of accounts
/// that there are.
pub proof fn lemma_effects_on_selection(app: AppView, key: Key, p: int)
    requires
        0 <= p < app.key_effects(key).len(),
    ensures
        app.key_effects(key)[p] matches EffectView::ApplyToCodex { index, account, restart } ==> 0
            <= index < app.accounts.len() && is_selected(app, index) && account
            == app.accounts[index],
        app.key_effects(key)[p] matches EffectView::Delete(account) ==> exists|i: int|
            0 <= i < app.accounts.len() && #[trigger] is_selected(app, i) && account
                == app.accounts[i],
        app.key_effects(key)[p] matches EffectView::Fetch(account) ==> exists|i: int|
            0 <= i < app.accounts.len() && account == being_learnt(#[trigger] app.accounts[i])
                && !(app.accounts[i].quota is Loading),
        !(app.key_effects(key)[p] is Store),
{
    let closed = app.menu_closed();
    assert(closed.items() == app.items());
    crate::app_laws::lemma_selected_exists(app);
    crate::app_laws::lemma_selected_exists(closed);
    match app.selected_account() {
        Some(i) => {
            assert(is_selected(app, i));
            assert(being_learnt(app.accounts[i]) == crate::app::loading(app.accounts[i]));
        },
        None => {},
    }
    if on_list(app) && key == Key::Char('R') {
        let kept = app.accounts.filter(crate::app::is_asked(false));
        assert(kept.contains(kept[p]));
        crate::order::lemma_filter_contains(
            app.accounts,
            crate::app::is_asked(false),
            kept[p],
        );
        let i = choose|i: int| 0 <= i < app.accounts.len() && app.accounts[i] == kept[p];
        assert(app.accounts[i] == kept[p]);
    }
}

/// The keys of the list act on the account of the selected line.
pub proof fn lemma_list_keys(app: AppView, i: int)
    requires
        on_list(app),
        is_selected(app, i),
    ensures
        app.key_effects(Key::Char('s')) == seq![
            EffectView::ApplyToCodex { index: i, account: app.accounts[i], restart: false },
        ],
        app.key_effects(Key::Char('d')) == seq![EffectView::Delete(app.accounts[i])],
        !(app.accounts[i].quota is Loading) ==> app.key_effects(Key::Char('r')) == seq![
            EffectView::Fetch(being_learnt(app.accounts[i])),
        ],
        app.accounts[i].quota is Loading ==> app.key_effects(Key::Char('r')).len() == 0
            && app.after_key(Key::Char('r')) == app,
        !app.add_in_progress ==> app.key_effects(Key::Char('l')) == seq![
            EffectView::StartLogin(AuthFlowMode::Relogin),
        ],
        app.after_key(Key::Enter).action_menu_open && app.after_key(Key::Enter).action_menu_cursor
            == 0,
        app.after_key(Key::Enter).selected == app.selected,
        !(app.accounts[i].quota is Loading) && 0 <= i < app.accounts.len() ==> app.after_key(
            Key::Char('r'),
        ).accounts == app.accounts.update(i, being_learnt(app.accounts[i])),
{
}

/// Without an account on the selected line there is none to act on.
pub proof fn lemma_no_account_no_work(app: AppView)
    requires
        on_list(app),
        app.selected_account() is None,
    ensures
        app.key_effects(Key::Char('s')).len() == 0,
        app.key_effects(Key::Char('d')).len() == 0,
        app.key_effects(Key::Char('r')).len() == 0,
        app.key_effects(Key::Char('l')).len() == 0,
        !app.after_key(Key::Enter).action_menu_open,
        app.selected_account() is None <==> !(exists|i: int| #[trigger] is_selected(app, i)),
{
    if exists|i: int| #[trigger] is_selected(app, i) {
        let i = choose|i: int| #[trigger] is_selected(app, i);
        assert(app.selected_account() == Some(i));
    }
}

/// A new account can always be logged in, unless a login is under way.
pub proof fn lemma_add_key(app: AppView)
    requires
        on_list(app),
    ensures
        !app.add_in_progress ==> app.key_effects(Key::Char('a')) == seq![
            EffectView::StartLogin(AuthFlowMode::Add),
        ],
        app.add_in_progress ==> app.key_effects(Key::Char('a')).len() == 0,
{
}

/// Refreshing all asks for the quota of every account that is not being learnt already, and for
/// nothing else.
pub proof fn lemma_refresh_all(app: AppView, i: int)
    requires
        on_list(app),
        0 <= i < app.accounts.len(),
    ensures
        !(app.accounts[i].quota is Loading) ==> app.key_effects(Key::Char('R')).contains(
            EffectView::Fetch(being_learnt(app.accounts[i])),
        ),
        app.after_key(Key::Char('R')).accounts.len() == app.accounts.len(),
        app.after_key(Key::Char('R')).accounts[i] == being_learnt(app.accounts[i]),
        app.key_effects(Key::Char('R')).len() <= app.accounts.len(),
{
    let wanted = crate::app::is_asked(false);
    let kept = app.accounts.filter(wanted);
    app.accounts.lemma_filter_len(wanted);
    if !(app.accounts[i].quota is Loading) {
        assert(app.accounts.contains(app.accounts[i]));
        crate::order::lemma_filter_contains(app.accounts, wanted, app.accounts[i]);
        let p = choose|p: int| 0 <= p < kept.len() && kept[p] == app.accounts[i];
        assert(app.key_effects(Key::Char('R'))[p] == EffectView::Fetch(
            being_learnt(app.accounts[i]),
        ));
    }
}

/// Accounts of which no quota is known are asked for it, once each, and no others are.
pub proof fn lemma_missing_quota_is_asked(accounts: Seq<AccountView>, i: int)
    requires
        0 <= i < accounts.len(),
    ensures
        asked(accounts, true).len() == accounts.len(),
        accounts[i].quota is Idle ==> asked(accounts, true)[i] == being_learnt(accounts[i])
            && fetches(accounts, true).contains(EffectView::Fetch(being_learnt(accounts[i]))),
        !(accounts[i].quota is Idle) ==> asked(accounts, true)[i] == accounts[i],
        (forall|k: int| 0 <= k < accounts.len() ==> !((#[trigger] accounts[k]).quota is Idle))
            ==> fetches(accounts, true).len() == 0,
        fetches(accounts, true).len() <= accounts.len(),
{
    let wanted = crate::app::is_asked(true);
    let kept = accounts.filter(wanted);
    accounts.lemma_filter_len(wanted);
    if accounts[i].quota is Idle {
        assert(accounts.contains(accounts[i]));
        crate::order::lemma_filter_contains(accounts, wanted, accounts[i]);
        let p = choose|p: int| 0 <= p < kept.len() && kept[p] == accounts[i];
        assert(fetches(accounts, true)[p] == EffectView::Fetch(being_learnt(accounts[i])));
    }
    if forall|k: int| 0 <= k < accounts.len() ==> !((#[trigger] accounts[k]).quota is Idle) {
        if kept.len() > 0 {
            assert(kept.contains(kept[0]));
            crate::order::lemma_filter_contains(accounts, wanted, kept[0]);
            let k = choose|k: int| 0 <= k < accounts.len() && accounts[k] == kept[0];
            assert(!(accounts[k].quota is Idle));
        }
    }
}

/// Each line of the menu says what it does: the texts of the lines, and what Enter asks for on each.
pub proof fn lemma_menu(app: AppView, i: int)
    requires
        app.auth_popup is None,
        app.action_menu_open,
        is_selected(app, i),
    ensures
        ({
            let lines = crate::view::menu_lines(app);
            let c = app.action_menu_cursor;
            let effects = app.key_effects(Key::Enter);
            let mark = |k: int|
                if c == k {
                    "\u{25b6}"@ + " "@
                } else {
                    " "@ + " "@
                };
            &&& lines.len() == 6
            &&& lines[0][0].text == mark(0) + "Apply to Codex"@
            &&& c == 0 ==> effects == seq![
                EffectView::ApplyToCodex { index: i, account: app.accounts[i], restart: false },
            ]
            &&& lines[1][0].text == mark(1) + "Apply and restart Codex"@
            &&& c == 1 ==> effects == seq![
                EffectView::ApplyToCodex { index: i, account: app.accounts[i], restart: true },
            ]
            &&& lines[2][0].text == mark(2) + "Re-login account"@
            &&& c == 2 && !app.add_in_progress ==> effects == seq![
                EffectView::StartLogin(AuthFlowMode::Relogin),
            ]
            &&& lines[3][0].text == mark(3) + "Refresh Quota"@
            &&& c == 3 && !(app.accounts[i].quota is Loading) ==> effects == seq![
                EffectView::Fetch(being_learnt(app.accounts[i])),
            ]
            &&& lines[4][0].text == mark(4) + "Delete Account"@
            &&& c == 4 ==> effects == seq![EffectView::Delete(app.accounts[i])]
            &&& lines[5][0].text == mark(5) + "Cancel"@
            &&& c == 5 ==> effects.len() == 0
            &&& !app.after_key(Key::Enter).action_menu_open
        }),
{
    assert(app.menu_closed().items() == app.items());
}

/// In the menu, up and down move the cursor by one line and stop at the ends; Esc closes it, and no key
/// but Enter asks for anything.
pub proof fn lemma_menu_keys(app: AppView, key: Key)
    requires
        app.auth_popup is None,
        app.action_menu_open,
        0 <= app.action_menu_cursor < 6,
    ensures
        key != Key::Enter ==> app.key_effects(key).len() == 0 && app.after_key(key).accounts
            == app.accounts,
        app.after_key(Key::Down).action_menu_cursor == if app.action_menu_cursor < 5 {
            app.action_menu_cursor + 1
        } else {
            5
        },
        app.after_key(Key::Up).action_menu_cursor == if app.action_menu_cursor > 0 {
            app.action_menu_cursor - 1
        } else {
            0
        },
        app.after_key(Key::Char('j')) == app.after_key(Key::Down),
        app.after_key(Key::Char('k')) == app.after_key(Key::Up),
        !app.after_key(Key::Esc).action_menu_open,
        app.after_key(key).selected == app.selected,
        0 <= app.after_key(key).action_menu_cursor < 6,
{
}

/// On the list, up and down select the line before and behind, and stop at the ends; nothing but the
/// selection and the part in view changes.
pub proof fn lemma_moving(app: AppView)
    requires
        on_list(app),
        0 <= app.selected < app.items().len(),
    ensures
        app.after_key(Key::Down).selected == if app.selected + 1 < app.items().len() {
            app.selected + 1
        } else {
            app.selected
        },
        app.after_key(Key::Up).selected == if app.selected > 0 {
            app.selected - 1
        } else {
            app.selected
        },
        app.after_key(Key::Char('j')) == app.after_key(Key::Down),
        app.after_key(Key::Char('k')) == app.after_key(Key::Up),
        app.after_key(Key::Down) == (AppView {
            selected: app.after_key(Key::Down).selected,
            scroll: app.after_key(Key::Down).scroll,
            ..app
        }),
        app.after_key(Key::Up) == (AppView {
            selected: app.after_key(Key::Up).selected,
            scroll: app.after_key(Key::Up).scroll,
            ..app
        }),
        app.key_effects(Key::Down).len() == 0,
        app.key_effects(Key::Up).len() == 0,
{
}

/// Scrolling brings the selected line into view and does no more: a list whose selected line is in view
/// stays where it is, unless it would leave rows empty that could be filled.
pub proof fn lemma_scrolls_no_more(app: AppView)
    requires
        app.scroll >= 0,
        0 <= app.selected < app.items().len(),
        app.viewport_rows >= 1,
    ensures
        ({
            let n = app.items().len() as int;
            let now = app.with_visible_selection();
            &&& now == (AppView { scroll: now.scroll, ..app })
            &&& app.scroll <= app.selected < app.scroll + app.viewport_rows && app.scroll
                + app.viewport_rows <= n ==> now.scroll == app.scroll
            &&& app.viewport_rows >= n ==> now.scroll == 0
            &&& app.viewport_rows < n ==> now.scroll + app.viewport_rows <= n
            &&& now.scroll <= app.selected < now.scroll + app.viewport_rows
        }),
{
}

/// Typing a search adds to the query and shows what it finds from the top; keys of the list have no
/// other meaning meanwhile. The key back takes away what was typed last.
pub proof fn lemma_search_typing(app: AppView, c: char)
    requires
        app.auth_popup is None,
        !app.action_menu_open,
        app.search_mode,
    ensures
        app.after_key(Key::Char(c)).search_input == app.search_input.push(c),
        app.after_key(Key::Char(c)).search_mode,
        app.after_key(Key::Char(c)).selected == 0,
        app.after_key(Key::Char(c)).should_quit == app.should_quit,
        app.after_key(Key::Char(c)).after_key(Key::Backspace).search_input == app.search_input,
        app.search_input.len() == 0 ==> app.after_key(Key::Backspace).search_input
            == app.search_input,
        !app.after_key(Key::Enter).search_mode,
        app.after_key(Key::Enter).search_input == app.search_input,
        !app.after_key(Key::Esc).search_mode,
        app.after_key(Key::Esc).search_input == app.search_input,
        app.key_effects(Key::Char(c)).len() == 0,
        app.key_effects(Key::Enter).len() == 0,
        app.after_key(Key::Char(c)).plan_filter == app.plan_filter,
        app.after_key(Key::Char(c)).accounts == app.accounts,
{
    assert(app.search_input.push(c).drop_last() =~= app.search_input);
}

/// On the list, the key for a search begins it with the query that there was, the key for the plan sets
/// the next filter, and the key to clear takes both away; the list is then shown from the top.
pub proof fn lemma_filter_keys(app: AppView)
    requires
        on_list(app),
    ensures
        app.after_key(Key::Char('/')).search_mode,
        app.after_key(Key::Char('/')).search_input == app.search_input,
        app.after_key(Key::Char('/')).plan_filter == app.plan_filter,
        app.after_key(Key::Char('p')).plan_filter == app.plan_filter.following(),
        app.after_key(Key::Char('p')).search_input == app.search_input,
        app.after_key(Key::Char('p')).selected == 0,
        app.after_key(Key::Char('f')).plan_filter == PlanFilter::All,
        app.after_key(Key::Char('f')).search_input.len() == 0,
        app.after_key(Key::Char('f')).selected == 0,
        app.after_key(Key::Char('p')).accounts == app.accounts,
        app.after_key(Key::Char('f')).accounts == app.accounts,
{
}

/// The program ends on one key only, and only where keys go to the list.
pub proof fn lemma_quit(app: AppView, key: Key)
    requires
        !app.should_quit,
    ensures
        app.after_key(key).should_quit <==> on_list(app) && key == Key::Char('q'),
{
}

/// The key for exhausted accounts shows them where they were hidden, and hides them where they were
/// shown, where there are any. Accounts, filters and the search stay.
pub proof fn lemma_exhausted_key(app: AppView)
    requires
        on_list(app),
    ensures
        app.exhausted_count() > 0 ==> app.after_key(Key::Char('e')).show_exhausted
            != app.show_exhausted,
        app.exhausted_count() == 0 ==> app.after_key(Key::Char('e')).show_exhausted
            == app.show_exhausted,
        app.after_key(Key::Char('e')).accounts == app.accounts,
        app.after_key(Key::Char('e')).search_input == app.search_input,
        app.after_key(Key::Char('e')).plan_filter == app.plan_filter,
        app.key_effects(Key::Char('e')).len() == 0,
{
}

/// Esc and Enter hide the link of a login; other keys leave it.
pub proof fn lemma_popup_keys(app: AppView, key: Key)
    requires
        app.auth_popup is Some,
    ensures
        app.after_key(key).auth_popup is None <==> key == Key::Esc || key == Key::Enter,
        app.after_key(key).auth_popup is Some ==> app.after_key(key).auth_popup == app.auth_popup,
        app.after_key(key).add_in_progress == app.add_in_progress,
{
}

proof fn lemma_index_of_key(accounts: Seq<AccountView>, key: Seq<char>, i: int)
    requires
        0 <= i < accounts.len(),
        accounts[i].key() == key,
        forall|k: int| 0 <= k < i ==> (#[trigger] accounts[k]).key() != key,
    ensures
        crate::app::index_of_key(accounts, key) == i,
    decreases accounts.len(),
{
    if i > 0 {
        let rest = accounts.drop_first();
        assert(accounts[0].key() != key);
        assert forall|k: int| 0 <= k < i - 1 implies (#[trigger] rest[k]).key() != key by {
            assert(rest[k] == accounts[k + 1]);
        }
        lemma_index_of_key(rest, key, i - 1);
    }
}

proof fn lemma_no_index_of_key(accounts: Seq<AccountView>, key: Seq<char>)
    requires
        forall|k: int| 0 <= k < accounts.len() ==> (#[trigger] accounts[k]).key() != key,
    ensures
        crate::app::index_of_key(accounts, key) == accounts.len(),
    decreases accounts.len(),
{
    if accounts.len() > 0 {
        let rest = accounts.drop_first();
        assert(accounts[0].key() != key);
        assert forall|k: int| 0 <= k < rest.len() implies (#[trigger] rest[k]).key() != key by {
            assert(rest[k] == accounts[k + 1]);
        }
        lemma_no_index_of_key(rest, key);
    }
}

/// What was learnt of an account is taken over by the one with its key, and by no other; whether that
/// is managed and active stays.
pub proof fn lemma_quota_loaded(app: AppView, news: AccountView, i: int, k: int)
    requires
        0 <= i < app.accounts.len(),
        app.accounts[i].key() == news.key(),
        forall|j: int| 0 <= j < i ==> (#[trigger] app.accounts[j]).key() != news.key(),
        0 <= k < app.accounts.len(),
        k != i,
    ensures
        ({
            let now = app.after_worker(WorkerView::QuotaLoaded(news));
            &&& now.accounts.len() == app.accounts.len()
            &&& now.accounts[i].quota == news.quota
            &&& now.accounts[i].access_token == news.access_token
            &&& now.accounts[i].refresh_token == news.refresh_token
            &&& now.accounts[i].account_id == news.account_id
            &&& now.accounts[i].expires_at == news.expires_at
            &&& now.accounts[i].client_id == news.client_id
            &&& now.accounts[i].label == news.label
            &&& now.accounts[i].email == news.email
            &&& now.accounts[i].managed == app.accounts[i].managed
            &&& now.accounts[i].codex_active == app.accounts[i].codex_active
            &&& now.accounts[k] == app.accounts[k]
            &&& app.worker_effects(WorkerView::QuotaLoaded(news)).len() == 0
        }),
{
    lemma_index_of_key(app.accounts, news.key(), i);
}

/// News of an account that there is not change no account.
pub proof fn lemma_unknown_news(app: AppView, news: AccountView, error: Seq<char>)
    requires
        forall|k: int| 0 <= k < app.accounts.len() ==> (#[trigger] app.accounts[k]).key() != news.key(),
    ensures
        app.after_worker(WorkerView::QuotaLoaded(news)).accounts == app.accounts,
        app.after_worker(
            WorkerView::QuotaFailed { key: news.key(), error },
        ).accounts == app.accounts,
{
    lemma_no_index_of_key(app.accounts, news.key());
}

/// An error in learning a quota is noted with the account that has the key, and with no other, and it
/// is told.
pub proof fn lemma_quota_failed(app: AppView, key: Seq<char>, error: Seq<char>, i: int, k: int)
    requires
        0 <= i < app.accounts.len(),
        app.accounts[i].key() == key,
        forall|j: int| 0 <= j < i ==> (#[trigger] app.accounts[j]).key() != key,
        0 <= k < app.accounts.len(),
        k != i,
    ensures
        ({
            let now = app.after_worker(WorkerView::QuotaFailed { key, error });
            &&& now.accounts[i] == (AccountView { quota: QuotaView::Error(error), ..app.accounts[i] })
            &&& now.accounts[k] == app.accounts[k]
            &&& now.status == error
            &&& app.worker_effects(WorkerView::QuotaFailed { key, error }).len() == 0
        }),
{
    lemma_index_of_key(app.accounts, key, i);
}

/// A login that is over leaves no link and lets another be started. The account that logged in is
/// stored as it came; an error is told.
pub proof fn lemma_login_over(
    app: AppView,
    account: AccountView,
    mode: AuthFlowMode,
    error: Seq<char>,
)
    ensures
        app.worker_effects(WorkerView::LoggedIn { account, mode }) == seq![
            EffectView::Store { account, mode },
        ],
        !app.after_worker(WorkerView::LoggedIn { account, mode }).add_in_progress,
        app.after_worker(WorkerView::LoggedIn { account, mode }).auth_popup is None,
        !app.after_worker(WorkerView::LoginFailed { error }).add_in_progress,
        app.after_worker(WorkerView::LoginFailed { error }).auth_popup is None,
        app.after_worker(WorkerView::LoginFailed { error }).status == error,
        app.worker_effects(WorkerView::LoginFailed { error }).len() == 0,
        app.after_worker(WorkerView::LoginFailed { error }).accounts == app.accounts,
        app.after_worker(WorkerView::LoggedIn { account, mode }).accounts == app.accounts,
{
}

/// A login that was started is under way, and its link is shown.
pub proof fn lemma_login_started(app: AppView, mode: AuthFlowMode, url: Seq<char>)
    ensures
        app.logging_in(mode, url).add_in_progress,
        app.logging_in(mode, url).auth_popup == Some(PopupView { mode, url }),
        app.logging_in(mode, url).accounts == app.accounts,
        app.logging_in(mode, url).selected == app.selected,
{
}

proof fn lemma_line_of_key(
    items: Seq<ItemView>,
    accounts: Seq<AccountView>,
    key: Seq<char>,
    p: int,
    i: int,
)
    requires
        0 <= p < items.len(),
        items[p] == ItemView::Account(i),
        accounts[i].key() == key,
    ensures
        ({
            let line = crate::app::line_of_key(items, accounts, key) as int;
            0 <= line <= p && (items[line] matches ItemView::Account(j) && accounts[j].key() == key)
        }),
    decreases items.len(),
{
    if !(items[0] matches ItemView::Account(j) && accounts[j].key() == key) {
        let rest = items.drop_first();
        assert(rest[p - 1] == items[p]);
        lemma_line_of_key(rest, accounts, key, p - 1, i);
        let line = crate::app::line_of_key(rest, accounts, key) as int;
        assert(items[line + 1] == rest[line]);
    }
}

/// An account that is to be selected by its key is selected where it is listed.
pub proof fn lemma_selected_by_key(app: AppView, key: Seq<char>, p: int, i: int)
    requires
        0 <= p < app.items().len(),
        app.items()[p] == ItemView::Account(i),
        app.accounts[i].key() == key,
    ensures
        ({
            let now = app.with_key_selected(key);
            &&& 0 <= now.selected <= p
            &&& now.items()[now.selected] matches ItemView::Account(j)
            &&& now.accounts[now.items()[now.selected]->Account_0].key() == key
            &&& now.accounts == app.accounts
        }),
{
    lemma_line_of_key(app.items(), app.accounts, key, p, i);
    let now = app.with_key_selected(key);
    assert(now.items() == app.items());
}

/// After the accounts were loaded anew they are those that were loaded; the quota of each of which it is
/// not known is being learnt.
pub proof fn lemma_reloaded_accounts(app: AppView, accounts: Seq<AccountView>, i: int)
    requires
        0 <= i < accounts.len(),
    ensures
        app.reloaded(accounts).accounts.len() == accounts.len(),
        accounts[i].quota is Idle ==> app.reloaded(accounts).accounts[i] == being_learnt(accounts[i]),
        !(accounts[i].quota is Idle) ==> app.reloaded(accounts).accounts[i] == accounts[i],
        app.reloaded(accounts).search_input == app.search_input,
        app.reloaded(accounts).plan_filter == app.plan_filter,
        app.reloaded(accounts).show_exhausted == app.show_exhausted,
        crate::app::reload_effects(Some(accounts)) == fetches(accounts, true),
{
}

/// What is told after an account was deleted or logged in names it; the accounts are then those that
/// were loaded.
pub proof fn lemma_told(
    app: AppView,
    account: AccountView,
    accounts: Seq<AccountView>,
    mode: AuthFlowMode,
)
    ensures
        app.deleted(account, Some(accounts)).status == "deleted "@ + account.display_name(),
        app.deleted(account, Some(accounts)).accounts == app.reloaded(accounts).accounts,
        app.deleted(account, None).accounts == app.accounts,
        app.stored(account, AuthFlowMode::Add, Some(accounts)).status == "added "@
            + account.display_name(),
        app.stored(account, AuthFlowMode::Relogin, Some(accounts)).status == "re-logged "@
            + account.display_name(),
        app.stored(account, mode, Some(accounts)).accounts == app.reloaded(accounts).accounts,
        app.stored(account, mode, None).accounts == app.accounts,
{
}

/// The account that was applied is marked and no other, and nothing else of any account changes.
pub proof fn lemma_applied_is_marked(app: AppView, index: int, i: int)
    requires
        0 <= i < app.accounts.len(),
    ensures
        app.with_active(index).accounts[i] == (AccountView {
            codex_active: i == index,
            ..app.accounts[i]
        }),
        app.with_active(index) == (AppView { accounts: app.with_active(index).accounts, ..app }),
{
}

/// The list has as many rows as the view is high, less three for its frame and its head, and one at
/// least.
pub proof fn lemma_height(app: AppView, height: int)
    ensures
        height > 3 ==> app.with_height(height).viewport_rows == height - 3,
        height <= 3 ==> app.with_height(height).viewport_rows == 1,
        app.with_height(height).selected == app.selected,
        app.with_height(height).accounts == app.accounts,
{
}

/// The program starts on the first line, with all plans listed, nothing searched for, exhausted accounts
/// hidden, and nothing open.
pub proof fn lemma_start(accounts: Seq<AccountView>)
    ensures
        ({
            let app = crate::app::initial(accounts);
            &&& app.accounts == accounts
            &&& app.selected == 0
            &&& on_list(app)
            &&& !app.show_exhausted
            &&& !app.should_quit
            &&& !app.add_in_progress
            &&& app.plan_filter == PlanFilter::All
            &&& app.search_input.len() == 0
        }),
{
}

/// Hiding the exhausted accounts leaves an account that stays listed selected; instead of a hidden one
/// the line that stands for them is selected.
pub proof fn lemma_hiding_exhausted(app: AppView)
    requires
        on_list(app),
        app.show_exhausted,
        app.exhausted_count() > 0,
        0 <= app.selected < app.items().len(),
        app.scroll >= 0,
    ensures
        ({
            let now = app.after_key(Key::Char('e'));
            &&& app.selected < app.available_count() ==> now.selected == app.selected
                && now.items()[now.selected] == app.items()[app.selected]
            &&& app.selected >= app.available_count() ==> now.items()[now.selected] is ExhaustedSummary
        }),
{
    let hidden = AppView { show_exhausted: false, ..app };
    reveal(crate::listing::items_of);
    crate::listing::lemma_list_len(
        app.accounts,
        app.search_input,
        app.plan_filter,
        app.show_exhausted,
    );
    crate::listing::lemma_list_len(app.accounts, app.search_input, app.plan_filter, false);
    let n = hidden.items().len() as int;
    assert(n == app.available_count() + 1);
    assert(hidden.items()[n - 1] is ExhaustedSummary);
    let flipped = app.flipped();
    assert(flipped.items() == hidden.items());
    let now = app.after_key(Key::Char('e'));
    assert(now.items() == hidden.items());
}

/// Showing the exhausted accounts from a line with an account leaves that selected.
pub proof fn lemma_showing_exhausted(app: AppView)
    requires
        on_list(app),
        !app.show_exhausted,
        app.exhausted_count() > 0,
        0 <= app.selected < app.items().len(),
        app.items()[app.selected] is Account,
        app.scroll >= 0,
    ensures
        app.after_key(Key::Char('e')).selected == app.selected,
        app.after_key(Key::Char('e')).items()[app.selected] == app.items()[app.selected],
{
    crate::listing_laws::lemma_same_lines_before_hidden(
        app.accounts,
        app.search_input,
        app.plan_filter,
        app.selected,
    );
    let shown = AppView { show_exhausted: true, ..app };
    let flipped = app.flipped();
    assert(flipped.items() == shown.items());
    assert(!app.summary_selected());
    let now = app.after_key(Key::Char('e'));
    assert(now.items() == shown.items());
}

/// After the accounts were loaded anew, the account that was selected is selected on the line that it
/// has among them, as long as the list has that line.
pub proof fn lemma_reload_keeps_account(app: AppView, accounts: Seq<AccountView>, i: int, p: int, j: int)
    requires
        app.scroll >= 0,
        is_selected(app, i),
        0 <= p < (AppView { accounts, ..app }).items().len(),
        (AppView { accounts, ..app }).items()[p] == ItemView::Account(j),
        accounts[j].key() == app.accounts[i].key(),
    ensures
        ({
            let fresh = AppView { accounts, ..app };
            let line = fresh.with_key_selected(app.accounts[i].key()).selected;
            let now = app.reloaded(accounts);
            &&& 0 <= line <= p
            &&& fresh.items()[line] matches ItemView::Account(k) && accounts[k].key()
                == app.accounts[i].key()
            &&& line < now.items().len() ==> now.selected == line
        }),
{
    let fresh = AppView { accounts, ..app };
    lemma_selected_by_key(fresh, app.accounts[i].key(), p, j);
    assert(app.selected_key() == Some(app.accounts[i].key()));
    let chosen = fresh.with_key_selected(app.accounts[i].key());
    let learnt = AppView { accounts: asked(accounts, true), ..chosen };
    assert(app.reloaded(accounts) == learnt.with_valid_selection());
    assert(app.reloaded(accounts).items() == learnt.items());
}

/// An account that was stored after its login is selected where it is listed.
pub proof fn lemma_stored_is_selected(
    app: AppView,
    account: AccountView,
    mode: AuthFlowMode,
    accounts: Seq<AccountView>,
    p: int,
    j: int,
)
    requires
        0 <= p < app.reloaded(accounts).items().len(),
        app.reloaded(accounts).items()[p] == ItemView::Account(j),
        app.reloaded(accounts).accounts[j].key() == account.key(),
    ensures
        ({
            let now = app.stored(account, mode, Some(accounts));
            &&& 0 <= now.selected < now.items().len()
            &&& now.items()[now.selected] matches ItemView::Account(k) && now.accounts[k].key()
                == account.key()
        }),
{
    let loaded = app.reloaded(accounts);
    lemma_selected_by_key(loaded, account.key(), p, j);
    let chosen = loaded.with_key_selected(account.key());
    assert(chosen.items() == loaded.items());
    let now = app.stored(account, mode, Some(accounts));
    assert(now.items() == loaded.items());
}

/// A selected line that the list has stays selected; where the list has become shorter, its last line
/// is.
pub proof fn lemma_nearest_line_selected(app: AppView)
    requires
        app.selected >= 0,
    ensures
        app.selected < app.items().len() ==> app.with_valid_selection().selected == app.selected,
        app.selected >= app.items().len() > 0 ==> app.with_valid_selection().selected
            == app.items().len() - 1,
        app.items().len() == 0 ==> app.with_valid_selection().selected == 0
            && app.with_valid_selection().scroll == 0,
        app.with_valid_selection() == (AppView {
            selected: app.with_valid_selection().selected,
            scroll: app.with_valid_selection().scroll,
            ..app
        }),
{
}

/// What is told after a key or a reply.
pub proof fn lemma_statuses(app: AppView, news: AccountView, mode: AuthFlowMode, url: Seq<char>)
    requires
        on_list(app),
    ensures
        app.after_key(Key::Char('p')).status == "plan filter: "@ + app.after_key(
            Key::Char('p'),
        ).plan_filter.text(),
        app.after_key(Key::Char('f')).status == "cleared filters"@,
        app.after_key(Key::Char('/')).status == "search accounts by email/label"@,
        app.after_worker(WorkerView::QuotaLoaded(news)).status == "quota refreshed"@,
        app.logging_in(mode, url).status == "open the "@ + mode.word()
            + " link and complete login..."@,
        AuthFlowMode::Add.word() == "login"@,
        AuthFlowMode::Relogin.word() == "re-login"@,
{
}

/// A key that has no meaning changes nothing and asks for nothing.
pub proof fn lemma_other_keys(app: AppView, c: char)
    requires
        on_list(app),
        c != 'q' && c != 'e' && c != '/' && c != 'p' && c != 'f' && c != 'r' && c != 'R' && c != 'j'
            && c != 'k',
    ensures
        app.after_key(Key::Char(c)) == app,
        c != 's' && c != 'l' && c != 'd' && c != 'a' ==> app.key_effects(Key::Char(c)).len() == 0,
        app.after_key(Key::Other) == app && app.key_effects(Key::Other).len() == 0,
        app.after_key(Key::Esc) == app && app.key_effects(Key::Esc).len() == 0,
        app.after_key(Key::Backspace) == app && app.key_effects(Key::Backspace).len() == 0,
        app.key_effects(Key::Enter).len() == 0,
{
}

} // verus!
