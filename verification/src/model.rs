//! Accounts and their quota.
use vstd::prelude::*;
use vstd::string::*;

use crate::order::Ranked;
use crate::percent::Percent;
use crate::text::{blank, chars_less, chars_of, to_lowercase, trim, trim_text};
use crate::timestamp::Timestamp;

verus! {

pub const FIVE_HOUR_WINDOW_SECONDS: i64 = 18_000;

pub const WEEK_WINDOW_SECONDS: i64 = 604_800;

const MIN_MONTH_WINDOW_SECONDS: i64 = 2_419_200;

const MAX_MONTH_WINDOW_SECONDS: i64 = 2_678_400;

/// A window of time over which use is limited.
#[derive(Clone, Copy, Debug)]
pub struct QuotaWindow {
    pub window_sec: i64,
    pub used_percent: Percent,
    pub left_percent: Percent,
    pub reset_at: Option<Timestamp>,
}

#[verifier::ext_equal]
pub struct WindowView {
    pub window_sec: int,
    pub used_percent: nat,
    pub left_percent: nat,
    pub reset_at: Option<(int, int)>,
}

impl View for QuotaWindow {
    type V = WindowView;

    open spec fn view(&self) -> WindowView {
        WindowView {
            window_sec: self.window_sec as int,
            used_percent: self.used_percent@,
            left_percent: self.left_percent@,
            reset_at: crate::timestamp::moment(self.reset_at),
        }
    }
}

/// The name of a window of `window_sec` seconds.
pub open spec fn window_label(window_sec: int) -> Seq<char> {
    if window_sec == 18_000 {
        "5h"@
    } else if window_sec == 604_800 {
        "Week"@
    } else if 28 * 24 * 60 * 60 <= window_sec <= 31 * 24 * 60 * 60 {
        "Month"@
    } else {
        "Period"@
    }
}

impl QuotaWindow {
    pub fn label(&self) -> (r: &'static str)
        ensures
            r@ == window_label(self@.window_sec),
    {
        if self.window_sec == FIVE_HOUR_WINDOW_SECONDS {
            "5h"
        } else if self.window_sec == WEEK_WINDOW_SECONDS {
            "Week"
        } else if MIN_MONTH_WINDOW_SECONDS <= self.window_sec && self.window_sec
            <= MAX_MONTH_WINDOW_SECONDS {
            "Month"
        } else {
            "Period"
        }
    }
}

/// What the service reports of an account's use.
#[derive(Debug)]
pub struct UsageData {
    pub plan_type: String,
    pub allowed: bool,
    pub limit_reached: bool,
    pub windows: Vec<QuotaWindow>,
}

#[verifier::ext_equal]
pub struct UsageView {
    pub plan_type: Seq<char>,
    pub allowed: bool,
    pub limit_reached: bool,
    pub windows: Seq<WindowView>,
}

pub open spec fn window_views(windows: Seq<QuotaWindow>) -> Seq<WindowView> {
    windows.map_values(|w: QuotaWindow| w@)
}

impl View for UsageData {
    type V = UsageView;

    open spec fn view(&self) -> UsageView {
        UsageView {
            plan_type: self.plan_type@,
            allowed: self.allowed,
            limit_reached: self.limit_reached,
            windows: window_views(self.windows@),
        }
    }
}

impl Default for UsageData {
    fn default() -> (r: Self)
        ensures
            r@ == (UsageView {
                plan_type: Seq::empty(),
                allowed: false,
                limit_reached: false,
                windows: Seq::empty(),
            }),
    {
        let r = UsageData {
            plan_type: String::new(),
            allowed: false,
            limit_reached: false,
            windows: Vec::new(),
        };
        assert(window_views(r.windows@) =~= Seq::empty());
        r
    }
}

impl Clone for UsageData {
    fn clone(&self) -> (r: Self)
        ensures
            r@ == self@,
    {
        let mut windows: Vec<QuotaWindow> = Vec::new();
        for i in 0..self.windows.len()
            invariant
                windows@ == self.windows@.take(i as int),
        {
            windows.push(self.windows[i]);
        }
        assert(windows@ =~= self.windows@);
        UsageData {
            plan_type: self.plan_type.clone(),
            allowed: self.allowed,
            limit_reached: self.limit_reached,
            windows,
        }
    }
}

/// The first of the windows that has `window_sec` seconds.
pub open spec fn first_window(windows: Seq<WindowView>, window_sec: int) -> Option<WindowView>
    decreases windows.len(),
{
    if windows.len() == 0 {
        None
    } else if windows[0].window_sec == window_sec {
        Some(windows[0])
    } else {
        first_window(windows.drop_first(), window_sec)
    }
}

/// The longest of the windows other than those of five hours; of equally long ones the last.
pub open spec fn longest_window(windows: Seq<WindowView>) -> Option<WindowView>
    decreases windows.len(),
{
    if windows.len() == 0 {
        None
    } else {
        let best = longest_window(windows.drop_last());
        let last = windows.last();
        if last.window_sec == FIVE_HOUR_WINDOW_SECONDS || (best matches Some(b) && b.window_sec
            > last.window_sec) {
            best
        } else {
            Some(last)
        }
    }
}

/// The view of a window that may be missing.
pub open spec fn window_view(w: Option<&QuotaWindow>) -> Option<WindowView> {
    match w {
        Some(w) => Some(w@),
        None => None,
    }
}

impl UsageView {
    pub open spec fn window_by_seconds(self, window_sec: int) -> Option<WindowView> {
        first_window(self.windows, window_sec)
    }

    pub open spec fn long_window(self) -> Option<WindowView> {
        longest_window(self.windows)
    }

    pub open spec fn long_window_label(self) -> Seq<char> {
        match self.long_window() {
            Some(w) => window_label(w.window_sec),
            None => "Period"@,
        }
    }
}

impl UsageData {
    /// The first window of `window_sec` seconds.
    pub fn window_by_seconds(&self, window_sec: i64) -> (r: Option<&QuotaWindow>)
        ensures
            window_view(r) == self@.window_by_seconds(window_sec as int),
    {
        let ghost all = self@.windows;
        assert(all.skip(0) == all);
        for i in 0..self.windows.len()
            invariant
                all == window_views(self.windows@),
                first_window(all, window_sec as int) == first_window(
                    all.skip(i as int),
                    window_sec as int,
                ),
        {
            if self.windows[i].window_sec == window_sec {
                return Some(&self.windows[i]);
            }
            assert(all.skip(i as int).drop_first() == all.skip(i + 1));
        }
        None
    }

    /// The longest window other than those of five hours; of equally long ones the last.
    pub fn long_window(&self) -> (r: Option<&QuotaWindow>)
        ensures
            window_view(r) == self@.long_window(),
    {
        let ghost all = self@.windows;
        let mut best: Option<&QuotaWindow> = None;
        for i in 0..self.windows.len()
            invariant
                all == window_views(self.windows@),
                window_view(best) == longest_window(all.take(i as int)),
        {
            let window = &self.windows[i];
            assert(all.take(i + 1).drop_last() == all.take(i as int));
            let longer: bool = match best {
                Some(b) => window.window_sec >= b.window_sec,
                None => true,
            };
            if window.window_sec != FIVE_HOUR_WINDOW_SECONDS && longer {
                best = Some(window);
            }
        }
        assert(all.take(all.len() as int) == all);
        best
    }

    pub fn long_window_label(&self) -> (r: &'static str)
        ensures
            r@ == self@.long_window_label(),
    {
        match self.long_window() {
            Some(window) => window.label(),
            None => "Period",
        }
    }
}

/// The long window is one of the windows, and no other than those of five hours is longer. There is
/// one as soon as there is a window that is not of five hours.
pub proof fn lemma_long_window(windows: Seq<WindowView>)
    ensures
        match longest_window(windows) {
            Some(w) => {
                &&& windows.contains(w)
                &&& w.window_sec != FIVE_HOUR_WINDOW_SECONDS
                &&& forall|i: int|
                    0 <= i < windows.len() && (#[trigger] windows[i]).window_sec
                        != FIVE_HOUR_WINDOW_SECONDS ==> windows[i].window_sec <= w.window_sec
            },
            None => forall|i: int|
                0 <= i < windows.len() ==> (#[trigger] windows[i]).window_sec
                    == FIVE_HOUR_WINDOW_SECONDS,
        },
    decreases windows.len(),
{
    if windows.len() > 0 {
        let front = windows.drop_last();
        lemma_long_window(front);
        assert(forall|i: int| 0 <= i < front.len() ==> front[i] == windows[i]);
        match longest_window(windows) {
            Some(w) => {
                if w == windows.last() {
                    assert(windows[windows.len() - 1] == w);
                } else {
                    let i = choose|i: int| 0 <= i < front.len() && front[i] == w;
                    assert(windows[i] == w);
                }
            },
            None => {},
        }
    }
}

/// What is known of an account's quota.
#[derive(Debug)]
pub enum QuotaState {
    Idle,
    Loading,
    Ready(UsageData),
    Error(String),
}

#[verifier::ext_equal]
pub enum QuotaView {
    Idle,
    Loading,
    Ready(UsageView),
    Error(Seq<char>),
}

impl View for QuotaState {
    type V = QuotaView;

    open spec fn view(&self) -> QuotaView {
        match *self {
            QuotaState::Idle => QuotaView::Idle,
            QuotaState::Loading => QuotaView::Loading,
            QuotaState::Ready(data) => QuotaView::Ready(data@),
            QuotaState::Error(error) => QuotaView::Error(error@),
        }
    }
}

impl Default for QuotaState {
    fn default() -> (r: Self)
        ensures
            r@ == QuotaView::Idle,
    {
        QuotaState::Idle
    }
}

impl Clone for QuotaState {
    fn clone(&self) -> (r: Self)
        ensures
            r@ == self@,
    {
        match self {
            QuotaState::Idle => QuotaState::Idle,
            QuotaState::Loading => QuotaState::Loading,
            QuotaState::Ready(data) => QuotaState::Ready(data.clone()),
            QuotaState::Error(error) => QuotaState::Error(error.clone()),
        }
    }
}

/// An account with its tokens.
#[derive(Debug)]
pub struct AccountRecord {
    pub label: String,
    pub email: String,
    pub account_id: String,
    pub access_token: String,
    pub refresh_token: String,
    pub expires_at: Option<Timestamp>,
    pub client_id: String,
    pub managed: bool,
    pub codex_active: bool,
    pub quota: QuotaState,
}

#[verifier::ext_equal]
pub struct AccountView {
    pub label: Seq<char>,
    pub email: Seq<char>,
    pub account_id: Seq<char>,
    pub access_token: Seq<char>,
    pub refresh_token: Seq<char>,
    pub expires_at: Option<(int, int)>,
    pub client_id: Seq<char>,
    pub managed: bool,
    pub codex_active: bool,
    pub quota: QuotaView,
}

impl View for AccountRecord {
    type V = AccountView;

    open spec fn view(&self) -> AccountView {
        AccountView {
            label: self.label@,
            email: self.email@,
            account_id: self.account_id@,
            access_token: self.access_token@,
            refresh_token: self.refresh_token@,
            expires_at: crate::timestamp::moment(self.expires_at),
            client_id: self.client_id@,
            managed: self.managed,
            codex_active: self.codex_active,
            quota: self.quota@,
        }
    }
}

pub open spec fn account_views(accounts: Seq<AccountRecord>) -> Seq<AccountView> {
    accounts.map_values(|a: AccountRecord| a@)
}

impl Default for AccountRecord {
    fn default() -> (r: Self)
        ensures
            r@ == (AccountView {
                label: Seq::empty(),
                email: Seq::empty(),
                account_id: Seq::empty(),
                access_token: Seq::empty(),
                refresh_token: Seq::empty(),
                expires_at: None,
                client_id: Seq::empty(),
                managed: false,
                codex_active: false,
                quota: QuotaView::Idle,
            }),
    {
        AccountRecord {
            label: String::new(),
            email: String::new(),
            account_id: String::new(),
            access_token: String::new(),
            refresh_token: String::new(),
            expires_at: None,
            client_id: String::new(),
            managed: false,
            codex_active: false,
            quota: QuotaState::Idle,
        }
    }
}

impl Clone for AccountRecord {
    fn clone(&self) -> (r: Self)
        ensures
            r@ == self@,
    {
        AccountRecord {
            label: self.label.clone(),
            email: self.email.clone(),
            account_id: self.account_id.clone(),
            access_token: self.access_token.clone(),
            refresh_token: self.refresh_token.clone(),
            expires_at: self.expires_at,
            client_id: self.client_id.clone(),
            managed: self.managed,
            codex_active: self.codex_active,
            quota: self.quota.clone(),
        }
    }
}

/// The order of two sort tuples: the first place in which they differ decides.
pub open spec fn tuple_less(
    a: (int, int, int, Seq<char>),
    b: (int, int, int, Seq<char>),
) -> bool {
    ||| a.0 < b.0
    ||| a.0 == b.0 && a.1 < b.1
    ||| a.0 == b.0 && a.1 == b.1 && a.2 < b.2
    ||| a.0 == b.0 && a.1 == b.1 && a.2 == b.2 && crate::text::lex_less(a.3, b.3)
}

/// Nothing is left in the window, if there is one.
pub open spec fn spent(window: Option<WindowView>) -> bool {
    window matches Some(w) && w.left_percent == 0
}

/// Hundredths of a percent that are left in the window, or -1 where there is none.
pub open spec fn left_score(window: Option<WindowView>) -> int {
    match window {
        Some(w) => crate::percent::hundredths(w.left_percent) as int,
        None => -1,
    }
}

impl AccountView {
    /// The account id, or the email in lower case where there is no id.
    pub open spec fn key(self) -> Seq<char> {
        if !crate::text::is_blank(self.account_id) {
            crate::text::trimmed(self.account_id)
        } else {
            crate::text::lowercase(crate::text::trimmed(self.email))
        }
    }

    /// The first of label, email and account id that is not blank.
    pub open spec fn display_name(self) -> Seq<char> {
        if !crate::text::is_blank(self.label) {
            crate::text::trimmed(self.label)
        } else if !crate::text::is_blank(self.email) {
            crate::text::trimmed(self.email)
        } else if !crate::text::is_blank(self.account_id) {
            crate::text::trimmed(self.account_id)
        } else {
            "unknown-account"@
        }
    }

    pub open spec fn plan_type(self) -> Seq<char> {
        match self.quota {
            QuotaView::Ready(data) => if crate::text::is_blank(data.plan_type) {
                "Unknown"@
            } else {
                crate::text::trimmed(data.plan_type)
            },
            _ => "Unknown"@,
        }
    }

    /// Nothing is left in the window of five hours or in the long window.
    pub open spec fn is_exhausted(self) -> bool {
        match self.quota {
            QuotaView::Ready(data) => spent(
                data.window_by_seconds(FIVE_HOUR_WINDOW_SECONDS as int),
            ) || spent(data.long_window()),
            _ => false,
        }
    }

    /// By what accounts are sorted: exhausted ones last, those without quota after those with it,
    /// then by what is left, most first, then by name.
    pub open spec fn sort_tuple(self) -> (int, int, int, Seq<char>) {
        let name = crate::text::lowercase(self.display_name());
        match self.quota {
            QuotaView::Ready(data) => (
                if self.is_exhausted() {
                    1
                } else {
                    0
                },
                0,
                -(left_score(data.window_by_seconds(FIVE_HOUR_WINDOW_SECONDS as int)) + left_score(
                    data.long_window(),
                )),
                name,
            ),
            QuotaView::Loading => (0, 1, i64::MAX as int / 4, name),
            _ => (0, 2, i64::MAX as int / 2, name),
        }
    }
}

impl AccountRecord {
    /// By what an account is told from others.
    pub fn key(&self) -> (r: String)
        ensures
            r@ == self@.key(),
    {
        if !blank(self.account_id.as_str()) {
            return trim_text(self.account_id.as_str());
        }
        to_lowercase(trim(self.email.as_str()))
    }

    pub fn display_name(&self) -> (r: String)
        ensures
            r@ == self@.display_name(),
    {
        let label = trim(self.label.as_str());
        if !label.is_empty() {
            return label.to_string();
        }
        let email = trim(self.email.as_str());
        if !email.is_empty() {
            return email.to_string();
        }
        if !blank(self.account_id.as_str()) {
            return trim_text(self.account_id.as_str());
        }
        "unknown-account".to_string()
    }

    pub fn plan_type(&self) -> (r: &str)
        ensures
            r@ == self@.plan_type(),
    {
        match &self.quota {
            QuotaState::Ready(data) => {
                let plan = trim(data.plan_type.as_str());
                if plan.is_empty() {
                    "Unknown"
                } else {
                    plan
                }
            },
            _ => "Unknown",
        }
    }

    pub fn is_exhausted(&self) -> (r: bool)
        ensures
            r == self@.is_exhausted(),
    {
        match &self.quota {
            QuotaState::Ready(data) => {
                let five_hour = match data.window_by_seconds(FIVE_HOUR_WINDOW_SECONDS) {
                    Some(w) => w.left_percent.is_spent(),
                    None => false,
                };
                let long_period = match data.long_window() {
                    Some(w) => w.left_percent.is_spent(),
                    None => false,
                };
                five_hour || long_period
            },
            _ => false,
        }
    }

    pub fn sort_tuple(&self) -> (r: (i32, i32, i64, String))
        ensures
            (r.0 as int, r.1 as int, r.2 as int, r.3@) == self@.sort_tuple(),
    {
        let name = to_lowercase(self.display_name().as_str());
        match &self.quota {
            QuotaState::Ready(data) => {
                let five_hour: i64 = match data.window_by_seconds(FIVE_HOUR_WINDOW_SECONDS) {
                    Some(w) => w.left_percent.hundredths(),
                    None => -1,
                };
                let long_period: i64 = match data.long_window() {
                    Some(w) => w.left_percent.hundredths(),
                    None => -1,
                };
                let exhausted_rank: i32 = if self.is_exhausted() {
                    1
                } else {
                    0
                };
                (exhausted_rank, 0, -(five_hour + long_period), name)
            },
            QuotaState::Loading => (0, 1, i64::MAX / 4, name),
            _ => (0, 2, i64::MAX / 2, name),
        }
    }
}

/// A sort tuple as a key.
pub struct TupleKey {
    rank: i32,
    tier: i32,
    weight: i64,
    name: Vec<char>,
}

impl View for TupleKey {
    type V = (int, int, int, Seq<char>);

    closed spec fn view(&self) -> (int, int, int, Seq<char>) {
        (self.rank as int, self.tier as int, self.weight as int, self.name@)
    }
}

impl TupleKey {
    pub fn new(tuple: (i32, i32, i64, String)) -> (r: Self)
        ensures
            r@ == (tuple.0 as int, tuple.1 as int, tuple.2 as int, tuple.3@),
    {
        TupleKey { rank: tuple.0, tier: tuple.1, weight: tuple.2, name: chars_of(tuple.3.as_str()) }
    }
}

/// Sort tuples are in a strict order.
pub proof fn lemma_tuple_asymmetric(
    a: (int, int, int, Seq<char>),
    b: (int, int, int, Seq<char>),
)
    requires
        tuple_less(a, b),
    ensures
        !tuple_less(b, a),
{
    if crate::text::lex_less(a.3, b.3) && crate::text::lex_less(b.3, a.3) {
        crate::text::lemma_lex_transitive(a.3, b.3, a.3);
        crate::text::lemma_lex_irreflexive(a.3);
    }
}

pub proof fn lemma_tuple_weak(
    a: (int, int, int, Seq<char>),
    b: (int, int, int, Seq<char>),
    c: (int, int, int, Seq<char>),
)
    requires
        tuple_less(a, b),
        !tuple_less(c, b),
    ensures
        tuple_less(a, c),
{
    crate::text::lemma_lex_total(b.3, c.3);
    if crate::text::lex_less(a.3, b.3) && crate::text::lex_less(b.3, c.3) {
        crate::text::lemma_lex_transitive(a.3, b.3, c.3);
    }
}

impl Ranked for TupleKey {
    open spec fn before(self, other: Self) -> bool {
        tuple_less(self@, other@)
    }

    proof fn lemma_asymmetric(a: Self, b: Self) {
        lemma_tuple_asymmetric(a@, b@);
    }

    proof fn lemma_weak(a: Self, b: Self, c: Self) {
        lemma_tuple_weak(a@, b@, c@);
    }

    fn is_before(&self, other: &Self) -> bool {
        if self.rank != other.rank {
            self.rank < other.rank
        } else if self.tier != other.tier {
            self.tier < other.tier
        } else if self.weight != other.weight {
            self.weight < other.weight
        } else {
            chars_less(&self.name, &other.name)
        }
    }
}

} // verus!
