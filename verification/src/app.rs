//! The state of the interactive program, and what keys and replies do to it.
use vstd::prelude::*;
use vstd::string::*;

use crate::listing::{exhausted_indices, list_items, non_exhausted_indices, ListItem, PlanFilter};
use crate::model::{AccountRecord, QuotaState};
use crate::text::{chars_of, text_between};

#[allow(unused_imports)]
use crate::listing::ItemView;
#[allow(unused_imports)]
use crate::model::{AccountView, QuotaView};

verus! {

/// Why a login was started.
#[derive(Clone, Copy, Debug, PartialEq, Eq, Structural)]
pub enum AuthFlowMode {
    Add,
    Relogin,
}

impl AuthFlowMode {
    pub open spec fn word(self) -> Seq<char> {
        match self {
            AuthFlowMode::Add => "login"@,
            AuthFlowMode::Relogin => "re-login"@,
        }
    }

    pub fn verb(self) -> (r: &'static str)
        ensures
            r@ == self.word(),
    {
        match self {
            AuthFlowMode::Add => "login",
            AuthFlowMode::Relogin => "re-login",
        }
    }
}

/// What can be done with the selected account.
#[derive(Clone, Copy, Debug, PartialEq, Eq, Structural)]
pub enum ActionMenuItem {
    ApplyCodex,
    ApplyRestartCodex,
    Relogin,
    Refresh,
    Delete,
    Cancel,
}

/// The lines of the action menu.
pub open spec fn menu_items() -> Seq<ActionMenuItem> {
    seq![
        ActionMenuItem::ApplyCodex,
        ActionMenuItem::ApplyRestartCodex,
        ActionMenuItem::Relogin,
        ActionMenuItem::Refresh,
        ActionMenuItem::Delete,
        ActionMenuItem::Cancel,
    ]
}

impl ActionMenuItem {
    pub open spec fn text(self) -> Seq<char> {
        match self {
            ActionMenuItem::ApplyCodex => "Apply to Codex"@,
            ActionMenuItem::ApplyRestartCodex => "Apply and restart Codex"@,
            ActionMenuItem::Relogin => "Re-login account"@,
            ActionMenuItem::Refresh => "Refresh Quota"@,
            ActionMenuItem::Delete => "Delete Account"@,
            ActionMenuItem::Cancel => "Cancel"@,
        }
    }

    pub fn all() -> (r: [ActionMenuItem; 6])
        ensures
            r@ == menu_items(),
    {
        [
            ActionMenuItem::ApplyCodex,
            ActionMenuItem::ApplyRestartCodex,
            ActionMenuItem::Relogin,
            ActionMenuItem::Refresh,
            ActionMenuItem::Delete,
            ActionMenuItem::Cancel,
        ]
    }

    pub fn label(self) -> (r: &'static str)
        ensures
            r@ == self.text(),
    {
        match self {
            ActionMenuItem::ApplyCodex => "Apply to Codex",
            ActionMenuItem::ApplyRestartCodex => "Apply and restart Codex",
            ActionMenuItem::Relogin => "Re-login account",
            ActionMenuItem::Refresh => "Refresh Quota",
            ActionMenuItem::Delete => "Delete Account",
            ActionMenuItem::Cancel => "Cancel",
        }
    }
}

/// A key that was pressed.
#[derive(Clone, Copy, Debug, PartialEq, Eq, Structural)]
pub enum Key {
    Up,
    Down,
    Enter,
    Esc,
    Backspace,
    Char(char),
    Other,
}

/// The link of a login that is under way.
#[derive(Debug)]
pub struct AuthLinkPopup {
    pub mode: AuthFlowMode,
    pub url: String,
}

#[verifier::ext_equal]
pub struct PopupView {
    pub mode: AuthFlowMode,
    pub url: Seq<char>,
}

/// Work that has to be done outside.
#[derive(Debug)]
pub enum Effect {
    /// Learn the quota of an account.
    Fetch(AccountRecord),
    /// Write the tokens of the account at an index into the authentication file.
    ApplyToCodex { index: usize, account: AccountRecord, restart: bool },
    /// Delete an account.
    Delete(AccountRecord),
    /// Start a login.
    StartLogin(AuthFlowMode),
    /// Store the account that logged in.
    Store { account: AccountRecord, mode: AuthFlowMode },
}

#[verifier::ext_equal]
pub enum EffectView {
    Fetch(AccountView),
    ApplyToCodex { index: int, account: AccountView, restart: bool },
    Delete(AccountView),
    StartLogin(AuthFlowMode),
    Store { account: AccountView, mode: AuthFlowMode },
}

impl View for Effect {
    type V = EffectView;

    open spec fn view(&self) -> EffectView {
        match *self {
            Effect::Fetch(account) => EffectView::Fetch(account@),
            Effect::ApplyToCodex { index, account, restart } => EffectView::ApplyToCodex {
                index: index as int,
                account: account@,
                restart,
            },
            Effect::Delete(account) => EffectView::Delete(account@),
            Effect::StartLogin(mode) => EffectView::StartLogin(mode),
            Effect::Store { account, mode } => EffectView::Store { account: account@, mode },
        }
    }
}

pub open spec fn effect_views(effects: Seq<Effect>) -> Seq<EffectView> {
    effects.map_values(|e: Effect| e@)
}

/// A reply to work that was done outside.
#[derive(Debug)]
pub enum WorkerEvent {
    QuotaLoaded(AccountRecord),
    QuotaFailed { key: String, error: String },
    AuthFinished { result: Result<AccountRecord, String>, mode: AuthFlowMode },
}

#[verifier::ext_equal]
pub enum WorkerView {
    QuotaLoaded(AccountView),
    QuotaFailed { key: Seq<char>, error: Seq<char> },
    LoggedIn { account: AccountView, mode: AuthFlowMode },
    LoginFailed { error: Seq<char> },
}

impl View for WorkerEvent {
    type V = WorkerView;

    open spec fn view(&self) -> WorkerView {
        match *self {
            WorkerEvent::QuotaLoaded(account) => WorkerView::QuotaLoaded(account@),
            WorkerEvent::QuotaFailed { key, error } => WorkerView::QuotaFailed {
                key: key@,
                error: error@,
            },
            WorkerEvent::AuthFinished { result, mode } => match result {
                Ok(account) => WorkerView::LoggedIn { account: account@, mode },
                Err(error) => WorkerView::LoginFailed { error: error@ },
            },
        }
    }
}

/// The state of the program.
#[derive(Debug)]
pub struct App {
    pub accounts: Vec<AccountRecord>,
    pub selected: usize,
    pub scroll: usize,
    pub show_exhausted: bool,
    pub status: String,
    pub viewport_rows: usize,
    pub should_quit: bool,
    pub add_in_progress: bool,
    pub search_mode: bool,
    pub search_input: String,
    pub plan_filter: PlanFilter,
    pub action_menu_open: bool,
    pub action_menu_cursor: usize,
    pub auth_popup: Option<AuthLinkPopup>,
}

#[verifier::ext_equal]
pub struct AppView {
    pub accounts: Seq<AccountView>,
    pub selected: int,
    pub scroll: int,
    pub show_exhausted: bool,
    pub status: Seq<char>,
    pub viewport_rows: int,
    pub should_quit: bool,
    pub add_in_progress: bool,
    pub search_mode: bool,
    pub search_input: Seq<char>,
    pub plan_filter: PlanFilter,
    pub action_menu_open: bool,
    pub action_menu_cursor: int,
    pub auth_popup: Option<PopupView>,
}

impl View for App {
    type V = AppView;

    open spec fn view(&self) -> AppView {
        AppView {
            accounts: crate::model::account_views(self.accounts@),
            selected: self.selected as int,
            scroll: self.scroll as int,
            show_exhausted: self.show_exhausted,
            status: self.status@,
            viewport_rows: self.viewport_rows as int,
            should_quit: self.should_quit,
            add_in_progress: self.add_in_progress,
            search_mode: self.search_mode,
            search_input: self.search_input@,
            plan_filter: self.plan_filter,
            action_menu_open: self.action_menu_open,
            action_menu_cursor: self.action_menu_cursor as int,
            auth_popup: match self.auth_popup {
                Some(popup) => Some(PopupView { mode: popup.mode, url: popup.url@ }),
                None => None,
            },
        }
    }
}

/// The greatest scroll at which the list still fills the view.
pub open spec fn max_scroll(len: int, capacity: int) -> int {
    if len <= capacity {
        0
    } else {
        len - capacity
    }
}

/// The least change of `scroll` that brings the selected line into view.
pub open spec fn scrolled(selected: int, scroll: int, capacity: int) -> int {
    if selected < scroll {
        selected
    } else if selected >= scroll + capacity {
        selected + 1 - capacity
    } else {
        scroll
    }
}

/// A quota that is being learnt.
pub open spec fn loading(a: AccountView) -> AccountView {
    AccountView { quota: QuotaView::Loading, ..a }
}

/// Quota is asked for: of accounts whose quota is not known yet, or of all; never twice at a time.
pub open spec fn is_asked(idle_only: bool) -> spec_fn(AccountView) -> bool {
    |a: AccountView|
        if idle_only {
            a.quota is Idle
        } else {
            !(a.quota is Loading)
        }
}

/// The accounts after quota was asked for.
pub open spec fn asked(accounts: Seq<AccountView>, idle_only: bool) -> Seq<AccountView> {
    accounts.map_values(
        |a: AccountView|
            if is_asked(idle_only)(a) {
                loading(a)
            } else {
                a
            },
    )
}

/// What is asked.
pub open spec fn fetches(accounts: Seq<AccountView>, idle_only: bool) -> Seq<EffectView> {
    accounts.filter(is_asked(idle_only)).map_values(|a: AccountView| EffectView::Fetch(loading(a)))
}

/// The index of the first account with a key, or the number of accounts where there is none.
pub open spec fn index_of_key(accounts: Seq<AccountView>, key: Seq<char>) -> nat
    decreases accounts.len(),
{
    if accounts.len() == 0 || accounts[0].key() == key {
        0
    } else {
        1 + index_of_key(accounts.drop_first(), key)
    }
}

/// The place of the first line of an account with a key, or the number of lines where there is none.
pub open spec fn line_of_key(
    items: Seq<ItemView>,
    accounts: Seq<AccountView>,
    key: Seq<char>,
) -> nat
    decreases items.len(),
{
    if items.len() == 0 || (items[0] matches ItemView::Account(i) && accounts[i].key() == key) {
        0
    } else {
        1 + line_of_key(items.drop_first(), accounts, key)
    }
}

/// An account with what was learnt of it: all but whether it is managed and active.
pub open spec fn updated(a: AccountView, news: AccountView) -> AccountView {
    AccountView { managed: a.managed, codex_active: a.codex_active, ..news }
}

impl AppView {
    pub open spec fn items(self) -> Seq<ItemView> {
        crate::listing::items_of(
            self.accounts,
            self.search_input,
            self.plan_filter,
            self.show_exhausted,
        )
    }

    /// How many lines are in view.
    pub open spec fn capacity(self) -> int {
        if self.viewport_rows < 1 {
            1
        } else {
            self.viewport_rows
        }
    }

    /// The menu has a line at its cursor.
    pub open spec fn well_formed(self) -> bool {
        0 <= self.action_menu_cursor < menu_items().len()
    }

    /// The selected line exists, or there is none and the first is selected.
    pub open spec fn selection_valid(self) -> bool {
        self.selected < self.items().len() || self.selected == 0
    }

    /// The selected line is in view.
    pub open spec fn selection_visible(self) -> bool {
        self.scroll <= self.selected < self.scroll + self.capacity()
    }

    pub open spec fn with_visible_selection(self) -> AppView {
        let n = self.items().len() as int;
        let scroll = scrolled(self.selected, self.scroll, self.capacity());
        let limit = max_scroll(n, self.capacity());
        AppView {
            scroll: if n == 0 {
                0
            } else if scroll < limit {
                scroll
            } else {
                limit
            },
            ..self
        }
    }

    pub open spec fn with_valid_selection(self) -> AppView {
        let n = self.items().len() as int;
        if n == 0 {
            AppView { selected: 0, scroll: 0, ..self }
        } else if self.selected >= n {
            (AppView { selected: n - 1, ..self }).with_visible_selection()
        } else {
            self.with_visible_selection()
        }
    }

    /// The first line is selected.
    pub open spec fn at_top(self) -> AppView {
        AppView { selected: 0, scroll: 0, ..self }
    }

    pub open spec fn moved(self, delta: int) -> AppView {
        let n = self.items().len() as int;
        let next = self.selected + delta;
        if n == 0 {
            self.at_top()
        } else {
            (AppView {
                selected: if next < 0 {
                    0
                } else if next > n - 1 {
                    n - 1
                } else {
                    next
                },
                ..self
            }).with_visible_selection()
        }
    }

    /// The index of the selected account, if the selected line is one.
    pub open spec fn selected_account(self) -> Option<int> {
        if 0 <= self.selected < self.items().len() {
            match self.items()[self.selected] {
                ItemView::Account(i) => Some(i),
                ItemView::ExhaustedSummary(_) => None,
            }
        } else {
            None
        }
    }

    /// The selected line tells how many accounts are exhausted.
    pub open spec fn summary_selected(self) -> bool {
        0 <= self.selected < self.items().len() && self.items()[self.selected] is ExhaustedSummary
    }

    pub open spec fn available_count(self) -> int {
        crate::listing::part_of(
            self.accounts,
            self.search_input,
            self.plan_filter,
            false,
        ).len() as int
    }

    pub open spec fn exhausted_count(self) -> int {
        crate::listing::part_of(
            self.accounts,
            self.search_input,
            self.plan_filter,
            true,
        ).len() as int
    }

    /// Exhausted accounts are shown where they were hidden, or hidden where they were shown.
    pub open spec fn flipped(self) -> AppView {
        (AppView { show_exhausted: !self.show_exhausted, ..self }).with_valid_selection()
    }

    /// The line that is selected after exhausted accounts were shown or hidden: the first of them
    /// where their summary was selected, and their summary where that is selected now.
    pub open spec fn line_after_flip(self, was_summary: bool) -> int {
        let n = self.items().len() as int;
        if self.show_exhausted && was_summary {
            if self.available_count() < n {
                self.available_count()
            } else if n == 0 {
                0
            } else {
                n - 1
            }
        } else if !self.show_exhausted && self.summary_selected() {
            self.available_count()
        } else {
            self.selected
        }
    }

    /// Exhausted accounts are shown or hidden, if there are any.
    pub open spec fn toggled(self) -> AppView {
        if self.exhausted_count() == 0 {
            self
        } else {
            let flipped = self.flipped();
            (AppView {
                selected: flipped.line_after_flip(self.summary_selected()),
                ..flipped
            }).with_visible_selection()
        }
    }

    pub open spec fn menu_closed(self) -> AppView {
        AppView { action_menu_open: false, action_menu_cursor: 0, ..self }
    }

    /// The menu is opened on an account; on the summary, exhausted accounts are shown.
    pub open spec fn entered(self) -> AppView {
        if self.summary_selected() {
            self.toggled()
        } else if self.selected_account() is Some {
            AppView {
                action_menu_open: true,
                action_menu_cursor: 0,
                status: "enter to choose action \u{2022} esc to close"@,
                ..self
            }
        } else {
            self
        }
    }

    /// Quota was asked for the selected account.
    pub open spec fn refreshed(self) -> AppView {
        match self.selected_account() {
            Some(i) => if self.accounts[i].quota is Loading {
                self
            } else {
                AppView { accounts: self.accounts.update(i, loading(self.accounts[i])), ..self }
            },
            None => self,
        }
    }

    pub open spec fn refresh_effects(self) -> Seq<EffectView> {
        match self.selected_account() {
            Some(i) => if self.accounts[i].quota is Loading {
                Seq::empty()
            } else {
                seq![EffectView::Fetch(loading(self.accounts[i]))]
            },
            None => Seq::empty(),
        }
    }

    pub open spec fn apply_effects(self, restart: bool) -> Seq<EffectView> {
        match self.selected_account() {
            Some(i) => seq![
                EffectView::ApplyToCodex { index: i, account: self.accounts[i], restart },
            ],
            None => Seq::empty(),
        }
    }

    pub open spec fn delete_effects(self) -> Seq<EffectView> {
        match self.selected_account() {
            Some(i) => seq![EffectView::Delete(self.accounts[i])],
            None => Seq::empty(),
        }
    }

    /// A login is started, unless one is under way. It takes a selected account to log in again.
    pub open spec fn login_effects(self, mode: AuthFlowMode) -> Seq<EffectView> {
        if self.add_in_progress || (mode == AuthFlowMode::Relogin && self.selected_account() is None) {
            Seq::empty()
        } else {
            seq![EffectView::StartLogin(mode)]
        }
    }

    /// What the line of the menu does to the state; the menu is closed already.
    pub open spec fn after_action(self, action: ActionMenuItem) -> AppView {
        match action {
            ActionMenuItem::Refresh => self.refreshed(),
            _ => self,
        }
    }

    pub open spec fn action_effects(self, action: ActionMenuItem) -> Seq<EffectView> {
        match action {
            ActionMenuItem::ApplyCodex => self.apply_effects(false),
            ActionMenuItem::ApplyRestartCodex => self.apply_effects(true),
            ActionMenuItem::Relogin => self.login_effects(AuthFlowMode::Relogin),
            ActionMenuItem::Refresh => self.refresh_effects(),
            ActionMenuItem::Delete => self.delete_effects(),
            ActionMenuItem::Cancel => Seq::empty(),
        }
    }

    /// A key while the link of a login is shown.
    pub open spec fn popup_key(self, key: Key) -> AppView {
        match key {
            Key::Esc => AppView { auth_popup: None, ..self },
            Key::Enter => AppView { auth_popup: None, ..self },
            _ => self,
        }
    }

    /// A key while the menu is open.
    pub open spec fn menu_key(self, key: Key) -> AppView {
        match key {
            Key::Esc => self.menu_closed(),
            Key::Enter => self.menu_closed().after_action(menu_items()[self.action_menu_cursor]),
            _ => if is_up(key) && self.action_menu_cursor > 0 {
                AppView { action_menu_cursor: self.action_menu_cursor - 1, ..self }
            } else if is_down(key) && self.action_menu_cursor < menu_items().len() - 1 {
                AppView { action_menu_cursor: self.action_menu_cursor + 1, ..self }
            } else {
                self
            },
        }
    }

    /// A key while a search is typed.
    pub open spec fn search_key(self, key: Key) -> AppView {
        let now = match key {
            Key::Esc => AppView { search_mode: false, ..self },
            Key::Enter => (AppView { search_mode: false, ..self }).at_top(),
            Key::Backspace => (AppView {
                search_input: if self.search_input.len() == 0 {
                    self.search_input
                } else {
                    self.search_input.drop_last()
                },
                ..self
            }).at_top(),
            Key::Char(c) => (AppView { search_input: self.search_input.push(c), ..self }).at_top(),
            _ => self,
        };
        now.with_valid_selection()
    }

    /// A key on the list.
    pub open spec fn list_key(self, key: Key) -> AppView {
        if is_up(key) {
            self.moved(-1)
        } else if is_down(key) {
            self.moved(1)
        } else {
            match key {
                Key::Enter => self.entered(),
                Key::Char('q') => AppView { should_quit: true, ..self },
                Key::Char('e') => self.toggled(),
                Key::Char('/') => AppView {
                    search_mode: true,
                    status: "search accounts by email/label"@,
                    ..self
                },
                Key::Char('p') => (AppView {
                    plan_filter: self.plan_filter.following(),
                    status: "plan filter: "@ + self.plan_filter.following().text(),
                    ..self
                }).at_top(),
                Key::Char('f') => (AppView {
                    plan_filter: PlanFilter::All,
                    search_input: Seq::empty(),
                    search_mode: false,
                    status: "cleared filters"@,
                    ..self
                }).at_top(),
                Key::Char('r') => self.refreshed(),
                Key::Char('R') => AppView { accounts: asked(self.accounts, false), ..self },
                _ => self,
            }
        }
    }

    /// The state after a key.
    pub open spec fn after_key(self, key: Key) -> AppView {
        if self.auth_popup is Some {
            self.popup_key(key)
        } else if self.action_menu_open {
            self.menu_key(key)
        } else if self.search_mode {
            self.search_key(key)
        } else {
            self.list_key(key)
        }
    }

    /// The work that a key asks for.
    pub open spec fn key_effects(self, key: Key) -> Seq<EffectView> {
        if self.auth_popup is Some {
            Seq::empty()
        } else if self.action_menu_open {
            if key == Key::Enter {
                self.menu_closed().action_effects(menu_items()[self.action_menu_cursor])
            } else {
                Seq::empty()
            }
        } else if self.search_mode {
            Seq::empty()
        } else {
            match key {
                Key::Char('r') => self.refresh_effects(),
                Key::Char('R') => fetches(self.accounts, false),
                Key::Char('s') => self.apply_effects(false),
                Key::Char('l') => self.login_effects(AuthFlowMode::Relogin),
                Key::Char('d') => self.delete_effects(),
                Key::Char('a') => self.login_effects(AuthFlowMode::Add),
                _ => Seq::empty(),
            }
        }
    }

    /// An account with a key is selected, where it is listed.
    pub open spec fn with_key_selected(self, key: Seq<char>) -> AppView {
        let line = line_of_key(self.items(), self.accounts, key) as int;
        if line < self.items().len() {
            (AppView { selected: line, ..self }).with_visible_selection()
        } else {
            self
        }
    }

    /// What was learnt of an account is taken over.
    pub open spec fn with_account_replaced(self, news: AccountView) -> AppView {
        let i = index_of_key(self.accounts, news.key()) as int;
        if i < self.accounts.len() {
            AppView { accounts: self.accounts.update(i, updated(self.accounts[i], news)), ..self }
        } else {
            self
        }
    }

    pub open spec fn with_quota_error(self, key: Seq<char>, error: Seq<char>) -> AppView {
        let i = index_of_key(self.accounts, key) as int;
        if i < self.accounts.len() {
            AppView {
                accounts: self.accounts.update(
                    i,
                    AccountView { quota: QuotaView::Error(error), ..self.accounts[i] },
                ),
                ..self
            }
        } else {
            self
        }
    }

    /// No login is under way.
    pub open spec fn login_over(self) -> AppView {
        AppView { add_in_progress: false, auth_popup: None, ..self }
    }

    /// The state after a reply.
    pub open spec fn after_worker(self, event: WorkerView) -> AppView {
        match event {
            WorkerView::QuotaLoaded(news) => (AppView {
                status: "quota refreshed"@,
                ..self.with_account_replaced(news)
            }).with_valid_selection(),
            WorkerView::QuotaFailed { key, error } => (AppView {
                status: error,
                ..self.with_quota_error(key, error)
            }).with_valid_selection(),
            WorkerView::LoggedIn { account, mode } => self.login_over(),
            WorkerView::LoginFailed { error } => (AppView {
                status: error,
                ..self.login_over()
            }).with_valid_selection(),
        }
    }

    pub open spec fn worker_effects(self, event: WorkerView) -> Seq<EffectView> {
        match event {
            WorkerView::LoggedIn { account, mode } => seq![EffectView::Store { account, mode }],
            _ => Seq::empty(),
        }
    }

    /// The key of the selected account.
    pub open spec fn selected_key(self) -> Option<Seq<char>> {
        match self.selected_account() {
            Some(i) => Some(self.accounts[i].key()),
            None => None,
        }
    }

    /// The accounts were loaded anew: the selected one stays selected where it is still listed, and
    /// quota is asked for those of which it is not known.
    pub open spec fn reloaded(self, accounts: Seq<AccountView>) -> AppView {
        let fresh = AppView { accounts, ..self };
        let chosen = match self.selected_key() {
            Some(key) => fresh.with_key_selected(key),
            None => fresh,
        };
        (AppView { accounts: asked(accounts, true), ..chosen }).with_valid_selection()
    }

    /// The accounts were loaded anew, or could not be.
    pub open spec fn maybe_reloaded(self, accounts: Option<Seq<AccountView>>) -> AppView {
        match accounts {
            Some(accounts) => self.reloaded(accounts),
            None => self,
        }
    }

    /// An account was deleted.
    pub open spec fn deleted(
        self,
        account: AccountView,
        accounts: Option<Seq<AccountView>>,
    ) -> AppView {
        (AppView { status: "deleted "@ + account.display_name(), ..self }).maybe_reloaded(accounts)
    }

    /// An account that logged in was stored: it is selected where it is listed.
    pub open spec fn stored(
        self,
        account: AccountView,
        mode: AuthFlowMode,
        accounts: Option<Seq<AccountView>>,
    ) -> AppView {
        (AppView {
            status: match mode {
                AuthFlowMode::Add => "added "@ + account.display_name(),
                AuthFlowMode::Relogin => "re-logged "@ + account.display_name(),
            },
            ..self.maybe_reloaded(accounts).with_key_selected(account.key())
        }).with_valid_selection()
    }

    /// A login is under way.
    pub open spec fn logging_in(self, mode: AuthFlowMode, url: Seq<char>) -> AppView {
        AppView {
            add_in_progress: true,
            status: "open the "@ + mode.word() + " link and complete login..."@,
            auth_popup: Some(PopupView { mode, url }),
            ..self
        }
    }

    /// The account at an index is the active one, and no other is.
    pub open spec fn with_active(self, index: int) -> AppView {
        AppView {
            accounts: Seq::new(
                self.accounts.len(),
                |i: int| AccountView { codex_active: i == index, ..self.accounts[i] },
            ),
            ..self
        }
    }

    /// The view has `height` rows, three of which do not show accounts.
    pub open spec fn with_height(self, height: int) -> AppView {
        (AppView {
            viewport_rows: if height <= 3 {
                1
            } else {
                height - 3
            },
            ..self
        }).with_visible_selection()
    }
}

/// What is asked after the accounts were loaded anew.
pub open spec fn reload_effects(accounts: Option<Seq<AccountView>>) -> Seq<EffectView> {
    match accounts {
        Some(accounts) => fetches(accounts, true),
        None => Seq::empty(),
    }
}

/// The views of accounts that may be missing.
pub open spec fn loaded_views(accounts: Option<Vec<AccountRecord>>) -> Option<Seq<AccountView>> {
    match accounts {
        Some(accounts) => Some(crate::model::account_views(accounts@)),
        None => None,
    }
}

/// Up, or the key that stands for it.
pub open spec fn is_up(key: Key) -> bool {
    key == Key::Up || key == Key::Char('k')
}

/// Down, or the key that stands for it.
pub open spec fn is_down(key: Key) -> bool {
    key == Key::Down || key == Key::Char('j')
}

/// The first state of the program with these accounts.
pub open spec fn initial(accounts: Seq<AccountView>) -> AppView {
    AppView {
        accounts,
        selected: 0,
        scroll: 0,
        show_exhausted: false,
        status: "Enter actions \u{2022} r refresh \u{2022} R refresh all \u{2022} / search \u{2022} p cycle plan filter \u{2022} f clear filters \u{2022} q quit"@,
        viewport_rows: 5,
        should_quit: false,
        add_in_progress: false,
        search_mode: false,
        search_input: Seq::empty(),
        plan_filter: PlanFilter::All,
        action_menu_open: false,
        action_menu_cursor: 0,
        auth_popup: None,
    }
}

impl App {
    /// The program starts with these accounts; quota is asked for those of which it is not known.
    pub fn new(accounts: Vec<AccountRecord>) -> (r: (App, Vec<Effect>))
        ensures
            r.0@ == (AppView {
                accounts: asked(crate::model::account_views(accounts@), true),
                ..initial(crate::model::account_views(accounts@)).with_valid_selection()
            }),
            effect_views(r.1@) == fetches(crate::model::account_views(accounts@), true),
            r.0@.well_formed(),
    {
        let mut app = App {
            accounts,
            selected: 0,
            scroll: 0,
            show_exhausted: false,
            status: "Enter actions \u{2022} r refresh \u{2022} R refresh all \u{2022} / search \u{2022} p cycle plan filter \u{2022} f clear filters \u{2022} q quit".to_string(),
            viewport_rows: 5,
            should_quit: false,
            add_in_progress: false,
            search_mode: false,
            search_input: String::new(),
            plan_filter: PlanFilter::All,
            action_menu_open: false,
            action_menu_cursor: 0,
            auth_popup: None,
        };
        assert(app@ =~= initial(crate::model::account_views(accounts@)));
        app.ensure_selection_valid();
        let mut effects: Vec<Effect> = Vec::new();
        assert(effect_views(effects@) =~= Seq::empty());
        app.fetch_missing(&mut effects);
        assert(effect_views(effects@) =~= fetches(crate::model::account_views(accounts@), true));
        (app, effects)
    }

    /// The lines of the list.
    pub fn list_items(&self) -> (r: Vec<ListItem>)
        ensures
            crate::listing::item_views(r@) == self@.items(),
            crate::listing::items_in_bounds(r@, self.accounts@.len()),
            r@.len() == self@.items().len(),
    {
        let r = list_items(
            &self.accounts,
            self.search_input.as_str(),
            self.plan_filter,
            self.show_exhausted,
        );
        assert(crate::listing::item_views(r@).len() == r@.len());
        r
    }

    /// The index of the selected account, if the selected line is one.
    pub fn selected_account_index(&self) -> (r: Option<usize>)
        ensures
            match r {
                Some(i) => self@.selected_account() == Some(i as int) && i < self.accounts@.len(),
                None => self@.selected_account() is None,
            },
    {
        let items = self.list_items();
        if self.selected >= items.len() {
            return None;
        }
        assert(self@.items()[self.selected as int] == items@[self.selected as int]@);
        match items[self.selected] {
            ListItem::Account(i) => Some(i),
            ListItem::ExhaustedSummary(_) => None,
        }
    }

    fn is_summary_selected(&self) -> (r: bool)
        ensures
            r == self@.summary_selected(),
    {
        let items = self.list_items();
        if self.selected >= items.len() {
            return false;
        }
        assert(self@.items()[self.selected as int] == items@[self.selected as int]@);
        match items[self.selected] {
            ListItem::Account(_) => false,
            ListItem::ExhaustedSummary(_) => true,
        }
    }

    /// Scrolls so that the selected line is in view.
    pub fn ensure_visible(&mut self)
        ensures
            final(self)@ == old(self)@.with_visible_selection(),
    {
        let n: usize = self.list_items().len();
        if n == 0 {
            self.scroll = 0;
            return;
        }
        let capacity: usize = if self.viewport_rows < 1 {
            1
        } else {
            self.viewport_rows
        };
        if self.selected < self.scroll {
            self.scroll = self.selected;
        } else if self.selected - self.scroll >= capacity {
            self.scroll = self.selected - (capacity - 1);
        }
        let limit: usize = if n <= capacity {
            0
        } else {
            n - capacity
        };
        if self.scroll > limit {
            self.scroll = limit;
        }
    }

    /// Selects the last line where the selected one does not exist.
    pub fn ensure_selection_valid(&mut self)
        ensures
            final(self)@ == old(self)@.with_valid_selection(),
    {
        let n: usize = self.list_items().len();
        if n == 0 {
            self.selected = 0;
            self.scroll = 0;
            return;
        }
        if self.selected >= n {
            self.selected = n - 1;
        }
        self.ensure_visible();
    }

    /// Selects the line `delta` lines further down.
    pub fn move_selection(&mut self, delta: isize)
        ensures
            final(self)@ == old(self)@.moved(delta as int),
    {
        let n: usize = self.list_items().len();
        if n == 0 {
            self.selected = 0;
            self.scroll = 0;
            return;
        }
        let next: i128 = self.selected as i128 + delta as i128;
        self.selected = if next < 0 {
            0
        } else if next > (n - 1) as i128 {
            n - 1
        } else {
            next as usize
        };
        self.ensure_visible();
    }

    fn has_exhausted(&self) -> (r: bool)
        ensures
            r == (self@.exhausted_count() > 0),
    {
        let exhausted = exhausted_indices(
            &self.accounts,
            self.search_input.as_str(),
            self.plan_filter,
        );
        assert(crate::order::as_ints(exhausted@).len() == exhausted@.len());
        exhausted.len() > 0
    }

    fn count_available(&self) -> (r: usize)
        ensures
            r == self@.available_count(),
    {
        let available = non_exhausted_indices(
            &self.accounts,
            self.search_input.as_str(),
            self.plan_filter,
        );
        assert(crate::order::as_ints(available@).len() == available@.len());
        available.len()
    }

    fn line_after_flip(&self, was_summary: bool) -> (r: usize)
        ensures
            r == self@.line_after_flip(was_summary),
    {
        if self.show_exhausted && was_summary {
            let n: usize = self.list_items().len();
            let available: usize = self.count_available();
            if available < n {
                available
            } else if n == 0 {
                0
            } else {
                n - 1
            }
        } else if !self.show_exhausted && self.is_summary_selected() {
            self.count_available()
        } else {
            self.selected
        }
    }

    /// Shows or hides exhausted accounts.
    pub fn toggle_exhausted(&mut self)
        ensures
            final(self)@ == old(self)@.toggled(),
    {
        if !self.has_exhausted() {
            return;
        }
        let was_summary: bool = self.is_summary_selected();
        self.show_exhausted = !self.show_exhausted;
        self.ensure_selection_valid();
        self.selected = self.line_after_flip(was_summary);
        self.ensure_visible();
    }

    fn close_action_menu(&mut self)
        ensures
            final(self)@ == old(self)@.menu_closed(),
    {
        self.action_menu_open = false;
        self.action_menu_cursor = 0;
    }

    fn open_action_menu_or_toggle_exhausted(&mut self)
        ensures
            final(self)@ == old(self)@.entered(),
    {
        if self.is_summary_selected() {
            self.toggle_exhausted();
        } else if self.selected_account_index().is_some() {
            self.action_menu_open = true;
            self.action_menu_cursor = 0;
            self.status = "enter to choose action \u{2022} esc to close".to_string();
        }
    }

    /// Asks for the quota of an account, unless that has been done.
    fn start_fetch(&mut self, index: usize, effects: &mut Vec<Effect>)
        requires
            index < old(self).accounts@.len(),
        ensures
            final(self)@ == (if old(self)@.accounts[index as int].quota is Loading {
                old(self)@
            } else {
                AppView {
                    accounts: old(self)@.accounts.update(
                        index as int,
                        loading(old(self)@.accounts[index as int]),
                    ),
                    ..old(self)@
                }
            }),
            effect_views(final(effects)@) == (if old(self)@.accounts[index as int].quota is Loading {
                effect_views(old(effects)@)
            } else {
                effect_views(old(effects)@).push(
                    EffectView::Fetch(loading(old(self)@.accounts[index as int])),
                )
            }),
    {
        let ghost before = self@;
        let ghost asked_before = effects@;
        let is_loading: bool = match &self.accounts[index].quota {
            QuotaState::Loading => true,
            _ => false,
        };
        if is_loading {
            return;
        }
        self.accounts[index].quota = QuotaState::Loading;
        let snapshot = self.accounts[index].clone();
        assert(snapshot@ =~= loading(before.accounts[index as int]));
        assert(self@.accounts =~= before.accounts.update(
            index as int,
            loading(before.accounts[index as int]),
        ));
        effects.push(Effect::Fetch(snapshot));
        assert(effect_views(effects@) =~= effect_views(asked_before).push(
            EffectView::Fetch(loading(before.accounts[index as int])),
        ));
    }

    fn fetch_accounts(&mut self, idle_only: bool, effects: &mut Vec<Effect>)
        ensures
            final(self)@ == (AppView { accounts: asked(old(self)@.accounts, idle_only), ..old(self)@ }),
            effect_views(final(effects)@) == effect_views(old(effects)@) + fetches(
                old(self)@.accounts,
                idle_only,
            ),
    {
        let ghost start = self@;
        let ghost first = effect_views(effects@);
        let n: usize = self.accounts.len();
        proof {
            reveal(Seq::filter);
            assert(start.accounts.take(0) =~= Seq::empty());
            assert(first + fetches(start.accounts.take(0), idle_only) =~= first);
        }
        for i in 0..n
            invariant
                n == self.accounts@.len() == start.accounts.len(),
                self@ == (AppView { accounts: self@.accounts, ..start }),
                forall|k: int|
                    0 <= k < i ==> #[trigger] self@.accounts[k] == asked(start.accounts, idle_only)[k],
                forall|k: int| i <= k < n ==> #[trigger] self@.accounts[k] == start.accounts[k],
                effect_views(effects@) == first + fetches(start.accounts.take(i as int), idle_only),
        {
            let ghost before = effect_views(effects@);
            let ghost a = start.accounts[i as int];
            let ghost earlier = fetches(start.accounts.take(i as int), idle_only);
            assert(self@.accounts[i as int] == self.accounts@[i as int]@);
            assert(self@.accounts[i as int] == a);
            proof {
                reveal(Seq::filter);
                assert(start.accounts.take(i + 1).drop_last() == start.accounts.take(i as int));
                assert(start.accounts.take(i + 1).last() == a);
                if is_asked(idle_only)(a) {
                    assert(fetches(start.accounts.take(i + 1), idle_only) =~= earlier.push(
                        EffectView::Fetch(loading(a)),
                    ));
                    assert(first + earlier.push(EffectView::Fetch(loading(a))) =~= before.push(
                        EffectView::Fetch(loading(a)),
                    ));
                }
            }
            let wanted: bool = match &self.accounts[i].quota {
                QuotaState::Idle => true,
                _ => !idle_only,
            };
            if wanted {
                self.start_fetch(i, effects);
            }
            assert(self@.accounts.len() == self.accounts@.len());
        }
        assert(start.accounts.take(n as int) == start.accounts);
        assert(self@.accounts =~= asked(start.accounts, idle_only));
    }

    /// Asks for the quota of all accounts of which it is not known.
    pub fn fetch_missing(&mut self, effects: &mut Vec<Effect>)
        ensures
            final(self)@ == (AppView { accounts: asked(old(self)@.accounts, true), ..old(self)@ }),
            effect_views(final(effects)@) == effect_views(old(effects)@) + fetches(
                old(self)@.accounts,
                true,
            ),
    {
        self.fetch_accounts(true, effects);
    }

    fn refresh_all(&mut self, effects: &mut Vec<Effect>)
        ensures
            final(self)@ == (AppView { accounts: asked(old(self)@.accounts, false), ..old(self)@ }),
            effect_views(final(effects)@) == effect_views(old(effects)@) + fetches(
                old(self)@.accounts,
                false,
            ),
    {
        self.fetch_accounts(false, effects);
    }

    fn refresh_selected(&mut self, effects: &mut Vec<Effect>)
        ensures
            final(self)@ == old(self)@.refreshed(),
            effect_views(final(effects)@) == effect_views(old(effects)@)
                + old(self)@.refresh_effects(),
    {
        let ghost before = effect_views(effects@);
        let ghost start = self@;
        if let Some(index) = self.selected_account_index() {
            self.start_fetch(index, effects);
        }
        assert(effect_views(effects@) =~= before + start.refresh_effects());
    }

    fn add_account(&self, effects: &mut Vec<Effect>)
        ensures
            effect_views(final(effects)@) == effect_views(old(effects)@) + self@.login_effects(
                AuthFlowMode::Add,
            ),
    {
        let ghost before = effect_views(effects@);
        if !self.add_in_progress {
            effects.push(Effect::StartLogin(AuthFlowMode::Add));
        }
        assert(effect_views(effects@) =~= before + self@.login_effects(AuthFlowMode::Add));
    }

    fn relogin_selected(&self, effects: &mut Vec<Effect>)
        ensures
            effect_views(final(effects)@) == effect_views(old(effects)@) + self@.login_effects(
                AuthFlowMode::Relogin,
            ),
    {
        let ghost before = effect_views(effects@);
        if !self.add_in_progress && self.selected_account_index().is_some() {
            effects.push(Effect::StartLogin(AuthFlowMode::Relogin));
        }
        assert(effect_views(effects@) =~= before + self@.login_effects(AuthFlowMode::Relogin));
    }

    fn delete_selected(&self, effects: &mut Vec<Effect>)
        ensures
            effect_views(final(effects)@) == effect_views(old(effects)@) + self@.delete_effects(),
    {
        let ghost before = effect_views(effects@);
        if let Some(index) = self.selected_account_index() {
            effects.push(Effect::Delete(self.accounts[index].clone()));
        }
        assert(effect_views(effects@) =~= before + self@.delete_effects());
    }

    fn apply_selected_to_codex(&self, restart: bool, effects: &mut Vec<Effect>)
        ensures
            effect_views(final(effects)@) == effect_views(old(effects)@) + self@.apply_effects(
                restart,
            ),
    {
        let ghost before = effect_views(effects@);
        if let Some(index) = self.selected_account_index() {
            let account = self.accounts[index].clone();
            effects.push(Effect::ApplyToCodex { index, account, restart });
        }
        assert(effect_views(effects@) =~= before + self@.apply_effects(restart));
    }

    fn execute_action_menu(&mut self, effects: &mut Vec<Effect>)
        requires
            old(self)@.well_formed(),
        ensures
            final(self)@ == old(self)@.menu_closed().after_action(
                menu_items()[old(self)@.action_menu_cursor],
            ),
            effect_views(final(effects)@) == effect_views(old(effects)@)
                + old(self)@.menu_closed().action_effects(menu_items()[old(self)@.action_menu_cursor]),
    {
        let ghost before = effect_views(effects@);
        let action = ActionMenuItem::all()[self.action_menu_cursor];
        self.close_action_menu();
        match action {
            ActionMenuItem::ApplyCodex => self.apply_selected_to_codex(false, effects),
            ActionMenuItem::ApplyRestartCodex => self.apply_selected_to_codex(true, effects),
            ActionMenuItem::Relogin => self.relogin_selected(effects),
            ActionMenuItem::Refresh => self.refresh_selected(effects),
            ActionMenuItem::Delete => self.delete_selected(effects),
            ActionMenuItem::Cancel => {
                assert(before + Seq::empty() =~= before);
            },
        }
    }

    fn handle_menu_key(&mut self, key: Key, effects: &mut Vec<Effect>)
        requires
            old(self)@.well_formed(),
            old(self)@.auth_popup is None,
            old(self)@.action_menu_open,
        ensures
            final(self)@ == old(self)@.menu_key(key),
            effect_views(final(effects)@) == effect_views(old(effects)@) + old(self)@.key_effects(
                key,
            ),
    {
        let ghost before = effect_views(effects@);
        assert(before + Seq::empty() =~= before);
        match key {
            Key::Esc => self.close_action_menu(),
            Key::Enter => self.execute_action_menu(effects),
            Key::Up | Key::Char('k') => {
                if self.action_menu_cursor > 0 {
                    self.action_menu_cursor = self.action_menu_cursor - 1;
                }
            },
            Key::Down | Key::Char('j') => {
                if self.action_menu_cursor < 5 {
                    self.action_menu_cursor = self.action_menu_cursor + 1;
                }
            },
            _ => {},
        }
    }

    fn handle_search_key(&mut self, key: Key)
        ensures
            final(self)@ == old(self)@.search_key(key),
    {
        match key {
            Key::Esc => {
                self.search_mode = false;
            },
            Key::Enter => {
                self.search_mode = false;
                self.selected = 0;
                self.scroll = 0;
            },
            Key::Backspace => {
                let chars = chars_of(self.search_input.as_str());
                if chars.len() > 0 {
                    let shorter = text_between(&chars, 0, chars.len() - 1);
                    assert(shorter@ =~= self.search_input@.drop_last());
                    self.search_input = shorter;
                }
                self.selected = 0;
                self.scroll = 0;
            },
            Key::Char(c) => {
                self.search_input.push(c);
                self.selected = 0;
                self.scroll = 0;
            },
            _ => {},
        }
        self.ensure_selection_valid();
    }

    fn handle_list_key(&mut self, key: Key, effects: &mut Vec<Effect>)
        requires
            old(self)@.auth_popup is None,
            !old(self)@.action_menu_open,
            !old(self)@.search_mode,
        ensures
            final(self)@ == old(self)@.list_key(key),
            effect_views(final(effects)@) == effect_views(old(effects)@) + old(self)@.key_effects(
                key,
            ),
    {
        let ghost before = effect_views(effects@);
        assert(before + Seq::empty() =~= before);
        match key {
            Key::Char('q') => {
                self.should_quit = true;
            },
            Key::Up | Key::Char('k') => self.move_selection(-1),
            Key::Down | Key::Char('j') => self.move_selection(1),
            Key::Char('e') => self.toggle_exhausted(),
            Key::Char('/') => {
                self.search_mode = true;
                self.status = "search accounts by email/label".to_string();
            },
            Key::Char('p') => {
                self.plan_filter = self.plan_filter.next();
                self.selected = 0;
                self.scroll = 0;
                self.status = "plan filter: ".to_string().concat(self.plan_filter.label());
            },
            Key::Char('f') => {
                self.plan_filter = PlanFilter::All;
                self.search_input = String::new();
                self.search_mode = false;
                self.selected = 0;
                self.scroll = 0;
                self.status = "cleared filters".to_string();
            },
            Key::Char('r') => self.refresh_selected(effects),
            Key::Char('R') => self.refresh_all(effects),
            Key::Enter => self.open_action_menu_or_toggle_exhausted(),
            Key::Char('s') => self.apply_selected_to_codex(false, effects),
            Key::Char('l') => self.relogin_selected(effects),
            Key::Char('d') => self.delete_selected(effects),
            Key::Char('a') => self.add_account(effects),
            _ => {},
        }
    }

    /// Takes a key. The work that it asks for is handed back.
    pub fn handle_key(&mut self, key: Key) -> (r: Vec<Effect>)
        requires
            old(self)@.well_formed(),
        ensures
            final(self)@ == old(self)@.after_key(key),
            effect_views(r@) == old(self)@.key_effects(key),
            final(self)@.well_formed(),
    {
        let ghost start = self@;
        let mut effects: Vec<Effect> = Vec::new();
        assert(effect_views(effects@) =~= Seq::empty());
        if self.auth_popup.is_some() {
            match key {
                Key::Esc | Key::Enter => {
                    self.auth_popup = None;
                },
                _ => {},
            }
        } else if self.action_menu_open {
            self.handle_menu_key(key, &mut effects);
        } else if self.search_mode {
            self.handle_search_key(key);
        } else {
            self.handle_list_key(key, &mut effects);
        }
        assert(effect_views(effects@) =~= start.key_effects(key));
        effects
    }

    fn find_key(&self, key: &String) -> (r: usize)
        ensures
            r == index_of_key(self@.accounts, key@),
            r <= self.accounts@.len(),
    {
        let ghost all = self@.accounts;
        assert(all.skip(0) == all);
        let mut i: usize = 0;
        while i < self.accounts.len()
            invariant
                i <= self.accounts@.len(),
                all == crate::model::account_views(self.accounts@),
                index_of_key(all, key@) == i + index_of_key(all.skip(i as int), key@),
            decreases self.accounts@.len() - i,
        {
            assert(all.skip(i as int)[0] == self.accounts@[i as int]@);
            if self.accounts[i].key() == *key {
                return i;
            }
            assert(all.skip(i as int).drop_first() == all.skip(i + 1));
            i = i + 1;
        }
        i
    }

    fn replace_account(&mut self, updated: AccountRecord)
        ensures
            final(self)@ == old(self)@.with_account_replaced(updated@),
    {
        let ghost start = self@;
        let ghost news = updated@;
        let i: usize = self.find_key(&updated.key());
        if i < self.accounts.len() {
            self.accounts[i].label = updated.label;
            self.accounts[i].email = updated.email;
            self.accounts[i].account_id = updated.account_id;
            self.accounts[i].access_token = updated.access_token;
            self.accounts[i].refresh_token = updated.refresh_token;
            self.accounts[i].expires_at = updated.expires_at;
            self.accounts[i].client_id = updated.client_id;
            self.accounts[i].quota = updated.quota;
            assert(self@.accounts =~= start.accounts.update(
                i as int,
                crate::app::updated(start.accounts[i as int], news),
            ));
        }
    }

    /// Selects the first line of an account with a key.
    pub fn select_account_key(&mut self, key: &String)
        ensures
            final(self)@ == old(self)@.with_key_selected(key@),
    {
        let ghost start = self@;
        let items = self.list_items();
        let ghost all = self@.items();
        assert(all.skip(0) == all);
        for i in 0..items.len()
            invariant
                start == old(self)@,
                self@ == start,
                all == start.items(),
                all == crate::listing::item_views(items@),
                crate::listing::items_in_bounds(items@, self.accounts@.len()),
                line_of_key(all, start.accounts, key@) == i + line_of_key(
                    all.skip(i as int),
                    start.accounts,
                    key@,
                ),
        {
            assert(all.skip(i as int)[0] == items@[i as int]@);
            if let ListItem::Account(index) = items[i] {
                assert(start.accounts[index as int] == self.accounts@[index as int]@);
                if self.accounts[index].key() == *key {
                    self.selected = i;
                    self.ensure_visible();
                    return;
                }
            }
            assert(all.skip(i as int).drop_first() == all.skip(i + 1));
        }
    }

    /// Takes a reply. The work that it asks for is handed back.
    pub fn handle_worker(&mut self, message: WorkerEvent) -> (r: Vec<Effect>)
        ensures
            final(self)@ == old(self)@.after_worker(message@),
            effect_views(r@) == old(self)@.worker_effects(message@),
    {
        let ghost start = self@;
        let ghost event = message@;
        let mut effects: Vec<Effect> = Vec::new();
        assert(effect_views(effects@) =~= Seq::empty());
        match message {
            WorkerEvent::QuotaLoaded(account) => {
                self.replace_account(account);
                self.status = "quota refreshed".to_string();
                self.ensure_selection_valid();
            },
            WorkerEvent::QuotaFailed { key, error } => {
                let i: usize = self.find_key(&key);
                if i < self.accounts.len() {
                    self.accounts[i].quota = QuotaState::Error(error.clone());
                    assert(self@.accounts =~= start.accounts.update(
                        i as int,
                        AccountView {
                            quota: QuotaView::Error(error@),
                            ..start.accounts[i as int]
                        },
                    ));
                }
                self.status = error;
                self.ensure_selection_valid();
            },
            WorkerEvent::AuthFinished { result, mode } => {
                self.add_in_progress = false;
                self.auth_popup = None;
                match result {
                    Ok(account) => {
                        effects.push(Effect::Store { account, mode });
                        assert(effect_views(effects@) =~= start.worker_effects(event));
                    },
                    Err(error) => {
                        self.status = error;
                        self.ensure_selection_valid();
                    },
                }
            },
        }
        effects
    }

    /// Takes accounts that were loaded anew.
    fn reload_accounts(&mut self, accounts: Vec<AccountRecord>, effects: &mut Vec<Effect>)
        ensures
            final(self)@ == old(self)@.reloaded(crate::model::account_views(accounts@)),
            effect_views(final(effects)@) == effect_views(old(effects)@) + fetches(
                crate::model::account_views(accounts@),
                true,
            ),
    {
        let ghost start = self@;
        let selected_key = match self.selected_account_index() {
            Some(index) => {
                assert(start.accounts[index as int] == self.accounts@[index as int]@);
                Some(self.accounts[index].key())
            },
            None => None,
        };
        self.accounts = accounts;
        if let Some(key) = selected_key {
            self.select_account_key(&key);
        }
        self.fetch_missing(effects);
        self.ensure_selection_valid();
    }

    fn maybe_reload(&mut self, accounts: Option<Vec<AccountRecord>>) -> (r: Vec<Effect>)
        ensures
            final(self)@ == old(self)@.maybe_reloaded(loaded_views(accounts)),
            effect_views(r@) == reload_effects(loaded_views(accounts)),
    {
        let mut effects: Vec<Effect> = Vec::new();
        assert(effect_views(effects@) =~= Seq::empty());
        if let Some(accounts) = accounts {
            self.reload_accounts(accounts, &mut effects);
            assert(effect_views(effects@) =~= fetches(
                crate::model::account_views(accounts@),
                true,
            ));
        }
        effects
    }

    /// An account was deleted; the accounts were loaded anew, or could not be.
    pub fn account_deleted(
        &mut self,
        account: &AccountRecord,
        accounts: Option<Vec<AccountRecord>>,
    ) -> (r: Vec<Effect>)
        ensures
            final(self)@ == old(self)@.deleted(account@, loaded_views(accounts)),
            effect_views(r@) == reload_effects(loaded_views(accounts)),
    {
        self.status = "deleted ".to_string().concat(account.display_name().as_str());
        self.maybe_reload(accounts)
    }

    /// An account that logged in was stored; the accounts were loaded anew, or could not be.
    pub fn login_stored(
        &mut self,
        account: &AccountRecord,
        mode: AuthFlowMode,
        accounts: Option<Vec<AccountRecord>>,
    ) -> (r: Vec<Effect>)
        ensures
            final(self)@ == old(self)@.stored(account@, mode, loaded_views(accounts)),
            effect_views(r@) == reload_effects(loaded_views(accounts)),
    {
        let effects = self.maybe_reload(accounts);
        self.select_account_key(&account.key());
        let done = match mode {
            AuthFlowMode::Add => "added ",
            AuthFlowMode::Relogin => "re-logged ",
        };
        self.status = done.to_string().concat(account.display_name().as_str());
        self.ensure_selection_valid();
        effects
    }

    /// A login is under way, with this link.
    pub fn login_started(&mut self, mode: AuthFlowMode, url: String)
        ensures
            final(self)@ == old(self)@.logging_in(mode, url@),
    {
        self.add_in_progress = true;
        self.status = "open the ".to_string().concat(mode.verb()).concat(
            " link and complete login...",
        );
        self.auth_popup = Some(AuthLinkPopup { mode, url });
    }

    /// A login could not be started.
    pub fn login_failed(&mut self, error: String)
        ensures
            final(self)@ == (AppView { status: error@, ..old(self)@ }),
    {
        self.status = error;
    }

    /// The account at an index was written into the authentication file.
    pub fn codex_applied(&mut self, index: usize)
        ensures
            final(self)@ == old(self)@.with_active(index as int),
    {
        let ghost start = self@;
        let n: usize = self.accounts.len();
        for i in 0..n
            invariant
                n == self.accounts@.len() == start.accounts.len(),
                self@ == (AppView { accounts: self@.accounts, ..start }),
                forall|k: int|
                    0 <= k < i ==> #[trigger] self@.accounts[k] == start.with_active(
                        index as int,
                    ).accounts[k],
                forall|k: int| i <= k < n ==> #[trigger] self@.accounts[k] == start.accounts[k],
        {
            let ghost before = self@;
            assert(before.accounts[i as int] == self.accounts@[i as int]@);
            self.accounts[i].codex_active = i == index;
            assert(self@.accounts =~= before.accounts.update(
                i as int,
                AccountView { codex_active: i == index, ..start.accounts[i as int] },
            ));
        }
        assert(self@.accounts =~= start.with_active(index as int).accounts);
    }

    /// Tells where the tokens of the active account were written to.
    pub fn codex_announced(&mut self, restarted: bool, path: &str)
        ensures
            final(self)@ == (AppView {
                status: if restarted {
                    "applied to Codex and restarted app: "@ + path@
                } else {
                    "applied to Codex: "@ + path@
                },
                ..old(self)@
            }),
    {
        let done = if restarted {
            "applied to Codex and restarted app: "
        } else {
            "applied to Codex: "
        };
        self.status = done.to_string().concat(path);
    }

    /// The list has this many rows on the screen.
    pub fn set_height(&mut self, height: u16)
        ensures
            final(self)@ == old(self)@.with_height(height as int),
    {
        self.viewport_rows = if height <= 3 {
            1
        } else {
            (height - 3) as usize
        };
        self.ensure_visible();
    }
}

} // verus!
