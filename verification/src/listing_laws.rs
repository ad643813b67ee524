//! What holds of accounts and of the list, whatever they are.
use vstd::prelude::*;

#[allow(unused_imports)]
use crate::listing::{ItemView, PlanFilter};
#[allow(unused_imports)]
use crate::model::{AccountView, QuotaView, UsageView, WindowView};
#[allow(unused_imports)]
use crate::text::{ascii_lowercase, eq_ignore_case, is_blank, lowercase, trimmed};
#[allow(unused_imports)]
use vstd::utf8::is_ascii_chars;

verus! {

/// The name of an account is its label; without one its email, and without that its id. It has no
/// outer white space, and is never empty.
pub proof fn lemma_display_name(a: AccountView)
    ensures
        !is_blank(a.label) ==> a.display_name() == trimmed(a.label),
        is_blank(a.label) && !is_blank(a.email) ==> a.display_name() == trimmed(a.email),
        is_blank(a.label) && is_blank(a.email) && !is_blank(a.account_id) ==> a.display_name()
            == trimmed(a.account_id),
        crate::text::is_trimmed(a.display_name()),
        a.display_name().len() > 0,
{
    reveal_strlit("unknown-account");
    assert("unknown-account"@[0] == 'u' && "unknown-account"@[14] == 't');
    crate::text::lemma_trimmed_has_no_outer_space(a.label);
    crate::text::lemma_trimmed_has_no_outer_space(a.email);
    crate::text::lemma_trimmed_has_no_outer_space(a.account_id);
}

/// Accounts are told apart by their ids alone; only without one by their emails, whatever the case.
pub proof fn lemma_key(a: AccountView, b: AccountView)
    ensures
        !is_blank(a.account_id) && !is_blank(b.account_id) ==> (a.key() == b.key() <==> trimmed(
            a.account_id,
        ) == trimmed(b.account_id)),
        is_blank(a.account_id) && is_blank(b.account_id) && lowercase(trimmed(a.email)) == lowercase(
            trimmed(b.email),
        ) ==> a.key() == b.key(),
        !is_blank(a.account_id) ==> a.key() == trimmed(a.account_id),
{
}

/// The plan of an account is the one that the service reported; before that it is not known.
pub proof fn lemma_plan(a: AccountView, usage: UsageView)
    ensures
        !is_blank(usage.plan_type) ==> (AccountView {
            quota: QuotaView::Ready(usage),
            ..a
        }).plan_type() == trimmed(usage.plan_type),
        is_blank(usage.plan_type) ==> (AccountView {
            quota: QuotaView::Ready(usage),
            ..a
        }).plan_type() == "Unknown"@,
        !(a.quota is Ready) ==> a.plan_type() == "Unknown"@,
{
}

/// The window of a length is the first that has it, and is missing only where none has it.
pub proof fn lemma_first_window(windows: Seq<WindowView>, window_sec: int)
    ensures
        match crate::model::first_window(windows, window_sec) {
            Some(w) => exists|i: int|
                0 <= i < windows.len() && #[trigger] windows[i] == w && w.window_sec == window_sec
                    && forall|k: int| 0 <= k < i ==> (#[trigger] windows[k]).window_sec != window_sec,
            None => forall|i: int|
                0 <= i < windows.len() ==> (#[trigger] windows[i]).window_sec != window_sec,
        },
    decreases windows.len(),
{
    if windows.len() > 0 && windows[0].window_sec != window_sec {
        let rest = windows.drop_first();
        lemma_first_window(rest, window_sec);
        assert(forall|k: int| 0 <= k < rest.len() ==> rest[k] == windows[k + 1]);
        match crate::model::first_window(rest, window_sec) {
            Some(w) => {
                let i = choose|i: int|
                    0 <= i < rest.len() && #[trigger] rest[i] == w && w.window_sec == window_sec
                        && forall|k: int|
                        0 <= k < i ==> (#[trigger] rest[k]).window_sec != window_sec;
                assert(windows[i + 1] == w);
                assert forall|k: int| 0 <= k < i + 1 implies (#[trigger] windows[k]).window_sec
                    != window_sec by {
                    if k > 0 {
                        assert(rest[k - 1] == windows[k]);
                    }
                }
            },
            None => {
                assert forall|i: int| 0 <= i < windows.len() implies (
                #[trigger] windows[i]).window_sec != window_sec by {
                    if i > 0 {
                        assert(rest[i - 1] == windows[i]);
                    }
                }
            },
        }
    } else if windows.len() > 0 {
        assert(windows[0] == crate::model::first_window(windows, window_sec)->0);
    }
}

/// An account is exhausted where nothing is left of its quota for five hours or of the longer one. One
/// that has something left in every window is not, and neither is one whose quota is not known.
pub proof fn lemma_exhausted(a: AccountView, usage: UsageView, five_hour: WindowView, long: WindowView)
    requires
        a.quota == QuotaView::Ready(usage),
    ensures
        usage.windows == seq![five_hour, long] && five_hour.window_sec == 18_000 && long.window_sec
            != 18_000 ==> (a.is_exhausted() <==> five_hour.left_percent == 0 || long.left_percent
            == 0),
        usage.windows == seq![five_hour] ==> (a.is_exhausted() <==> five_hour.left_percent == 0),
        (forall|i: int|
            0 <= i < usage.windows.len() ==> (#[trigger] usage.windows[i]).left_percent > 0)
            ==> !a.is_exhausted(),
{
    reveal_with_fuel(crate::model::first_window, 3);
    reveal_with_fuel(crate::model::longest_window, 3);
    let pair = seq![five_hour, long];
    let one = seq![five_hour];
    assert(pair.drop_first() =~= seq![long]);
    assert(pair.drop_last() =~= one);
    assert(seq![long].drop_first() =~= Seq::empty());
    assert(one.drop_first() =~= Seq::empty());
    assert(one.drop_last() =~= Seq::empty());
    lemma_first_window(usage.windows, 18_000);
    crate::model::lemma_long_window(usage.windows);
}

/// An account whose quota is not known is not exhausted.
pub proof fn lemma_unknown_is_not_exhausted(a: AccountView)
    requires
        !(a.quota is Ready),
    ensures
        !a.is_exhausted(),
{
}

/// Of windows of the same length, the long window is the last.
pub proof fn lemma_long_window_is_last(windows: Seq<WindowView>, i: int, w: WindowView)
    requires
        0 <= i < windows.len(),
        crate::model::longest_window(windows) == Some(w),
        windows[i].window_sec == w.window_sec,
        forall|k: int| i < k < windows.len() ==> (#[trigger] windows[k]).window_sec != w.window_sec,
    ensures
        windows[i] == w,
    decreases windows.len(),
{
    crate::model::lemma_long_window(windows);
    if i < windows.len() - 1 {
        let front = windows.drop_last();
        assert(windows[windows.len() - 1].window_sec != w.window_sec);
        assert(crate::model::longest_window(front) == Some(w));
        assert forall|k: int| i < k < front.len() implies (#[trigger] front[k]).window_sec
            != w.window_sec by {
            assert(front[k] == windows[k]);
        }
        lemma_long_window_is_last(front, i, w);
    } else {
        assert(windows.last() == windows[i]);
        crate::model::lemma_long_window(windows.drop_last());
    }
}

/// How much is known of an account's quota: all, that it is being learnt, or nothing.
pub open spec fn knowledge(a: AccountView) -> int {
    match a.quota {
        QuotaView::Ready(_) => 2,
        QuotaView::Loading => 1,
        _ => 0,
    }
}

/// What is left of a window in hundredths of a percent; a window that is missing counts for less than
/// one that is empty.
pub open spec fn left_in(w: Option<WindowView>) -> int {
    match w {
        Some(w) => crate::percent::hundredths(w.left_percent) as int,
        None => -1,
    }
}

/// What is left of the quota for five hours and of the longer one together.
pub open spec fn left_together(usage: UsageView) -> int {
    left_in(crate::model::first_window(usage.windows, 18_000)) + left_in(
        crate::model::longest_window(usage.windows),
    )
}

/// The order in which two accounts are listed: one that is not exhausted before one that is; then one
/// of whose quota more is known; then one that has more left; then by name; and otherwise the one
/// that was there first.
pub proof fn lemma_list_order(
    accounts: Seq<AccountView>,
    search: Seq<char>,
    filter: PlanFilter,
    show_exhausted: bool,
    p: int,
    q: int,
    i: int,
    j: int,
)
    requires
        0 <= p < q < crate::listing::items_of(accounts, search, filter, show_exhausted).len(),
        crate::listing::items_of(accounts, search, filter, show_exhausted)[p] == ItemView::Account(i),
        crate::listing::items_of(accounts, search, filter, show_exhausted)[q] == ItemView::Account(j),
    ensures
        accounts[i].is_exhausted() ==> accounts[j].is_exhausted(),
        accounts[i].is_exhausted() == accounts[j].is_exhausted() ==> knowledge(accounts[i])
            >= knowledge(accounts[j]),
        accounts[i].is_exhausted() == accounts[j].is_exhausted() && accounts[i].quota is Ready
            && accounts[j].quota is Ready ==> {
            let a = left_together(accounts[i].quota->Ready_0);
            let b = left_together(accounts[j].quota->Ready_0);
            a > b || (a == b && !crate::text::lex_less(
                lowercase(accounts[j].display_name()),
                lowercase(accounts[i].display_name()),
            ))
        },
        !(accounts[i].quota is Ready) && knowledge(accounts[i]) == knowledge(accounts[j])
            ==> !crate::text::lex_less(
            lowercase(accounts[j].display_name()),
            lowercase(accounts[i].display_name()),
        ),
        accounts[i].is_exhausted() == accounts[j].is_exhausted() && knowledge(accounts[i])
            == knowledge(accounts[j]) && (accounts[i].quota is Ready ==> left_together(
            accounts[i].quota->Ready_0,
        ) == left_together(accounts[j].quota->Ready_0)) && lowercase(accounts[i].display_name())
            == lowercase(accounts[j].display_name()) ==> i < j,
{
    crate::text::lemma_lex_irreflexive(lowercase(accounts[i].display_name()));
    crate::listing::lemma_listed(accounts, search, filter, show_exhausted);
    let items = crate::listing::items_of(accounts, search, filter, show_exhausted);
    assert(crate::listing::in_rank(accounts)(items[p]->Account_0, items[q]->Account_0));
}

proof fn lemma_holds(before: Seq<char>, part: Seq<char>, after: Seq<char>)
    ensures
        crate::text::holds(before + part + after, part),
{
    let whole = before + part + after;
    let i = before.len() as int;
    assert(whole.subrange(i, i + part.len()) =~= part);
}

/// An account of a plan that is listed is found wherever the trimmed query stands in its name, in its
/// email or in its id, whatever the case.
pub proof fn lemma_search_finds(
    a: AccountView,
    search: Seq<char>,
    filter: PlanFilter,
    before: Seq<char>,
    after: Seq<char>,
)
    requires
        filter.admits(a),
        ({
            let found = before + lowercase(trimmed(search)) + after;
            lowercase(a.display_name()) == found || lowercase(a.email) == found || lowercase(
                a.account_id,
            ) == found
        }),
    ensures
        crate::listing::passes(a, search, filter),
{
    lemma_holds(before, lowercase(trimmed(search)), after);
}

/// Text of ASCII is found in whatever case it is typed.
pub proof fn lemma_search_ignores_case(
    a: AccountView,
    search: Seq<char>,
    filter: PlanFilter,
    text: Seq<char>,
    before: Seq<char>,
    part: Seq<char>,
    after: Seq<char>,
)
    requires
        filter.admits(a),
        text == a.display_name() || text == a.email || text == a.account_id,
        text == before + part + after,
        eq_ignore_case(part, trimmed(search)),
        is_ascii_chars(text),
        is_ascii_chars(trimmed(search)),
    ensures
        crate::listing::passes(a, search, filter),
{
    let query = trimmed(search);
    assert(lowercase(text) =~= ascii_lowercase(before) + ascii_lowercase(part) + ascii_lowercase(
        after,
    ));
    lemma_search_finds(a, search, filter, ascii_lowercase(before), ascii_lowercase(after));
}

/// An account is found by its own name, and by its email and its id.
pub proof fn lemma_own_name_is_found(a: AccountView, filter: PlanFilter)
    requires
        filter.admits(a),
    ensures
        crate::listing::passes(a, a.display_name(), filter),
        crate::text::is_trimmed(a.email) ==> crate::listing::passes(a, a.email, filter),
        crate::text::is_trimmed(a.account_id) ==> crate::listing::passes(a, a.account_id, filter),
{
    let none = Seq::<char>::empty();
    lemma_display_name(a);
    crate::text::lemma_trimmed_fixed(a.display_name());
    assert(none + lowercase(a.display_name()) + none =~= lowercase(a.display_name()));
    lemma_search_finds(a, a.display_name(), filter, none, none);
    if crate::text::is_trimmed(a.email) {
        crate::text::lemma_trimmed_fixed(a.email);
        assert(none + lowercase(a.email) + none =~= lowercase(a.email));
        lemma_search_finds(a, a.email, filter, none, none);
    }
    if crate::text::is_trimmed(a.account_id) {
        crate::text::lemma_trimmed_fixed(a.account_id);
        assert(none + lowercase(a.account_id) + none =~= lowercase(a.account_id));
        lemma_search_finds(a, a.account_id, filter, none, none);
    }
}

/// Where something is searched for, nothing else is listed than accounts in whose name, email or id it
/// stands.
pub proof fn lemma_search_finds_no_other(a: AccountView, search: Seq<char>, filter: PlanFilter)
    requires
        crate::listing::passes(a, search, filter),
    ensures
        filter.admits(a),
        ({
            let query = lowercase(trimmed(search));
            query.len() > 0 ==> exists|text: Seq<char>, i: int|
                (text == lowercase(a.display_name()) || text == lowercase(a.email) || text
                    == lowercase(a.account_id)) && 0 <= i <= text.len() - query.len()
                    && #[trigger] text.subrange(i, i + query.len()) == query
        }),
{
}

/// White space around the query does not matter, and without a query only the plan counts.
pub proof fn lemma_search_is_trimmed(a: AccountView, search: Seq<char>, filter: PlanFilter)
    ensures
        crate::listing::passes(a, trimmed(search), filter) == crate::listing::passes(
            a,
            search,
            filter,
        ),
        is_blank(search) ==> crate::listing::passes(a, search, filter) == filter.admits(a),
{
    crate::text::lemma_trimmed_idempotent(search);
    if is_blank(search) {
        crate::text::lemma_lowercase_empty(trimmed(search));
    }
}

/// Which plans a filter lets pass: its own, whatever the case, and all of them where none is chosen.
pub proof fn lemma_filter_by_plan(a: AccountView)
    ensures
        PlanFilter::All.admits(a),
        PlanFilter::Plus.admits(a) <==> eq_ignore_case(a.plan_type(), "plus"@),
        PlanFilter::Pro.admits(a) <==> eq_ignore_case(a.plan_type(), "pro"@),
        PlanFilter::Team.admits(a) <==> eq_ignore_case(a.plan_type(), "team"@),
        PlanFilter::Business.admits(a) <==> eq_ignore_case(a.plan_type(), "business"@),
        PlanFilter::Free.admits(a) <==> eq_ignore_case(a.plan_type(), "free"@),
        PlanFilter::Unknown.admits(a) <==> eq_ignore_case(a.plan_type(), "unknown"@),
        !(a.quota is Ready) ==> PlanFilter::Unknown.admits(a),
{
    reveal_strlit("Unknown");
    reveal_strlit("unknown");
    assert(ascii_lowercase("Unknown"@) =~= ascii_lowercase("unknown"@));
}

/// The key for the next filter leads through all plans and to those that are not known.
pub proof fn lemma_filter_words()
    ensures
        PlanFilter::All.following().text() == "plus"@,
        PlanFilter::Plus.following().text() == "pro"@,
        PlanFilter::Pro.following().text() == "team"@,
        PlanFilter::Team.following().text() == "business"@,
        PlanFilter::Business.following().text() == "free"@,
        PlanFilter::Free.following().text() == "unknown"@,
        PlanFilter::Unknown.following().text() == "all"@,
{
}

/// An account is listed where its plan and the search let it pass; an exhausted one only while those
/// are shown. Nothing else is listed, and nothing twice.
pub proof fn lemma_each_is_listed_once(
    accounts: Seq<AccountView>,
    search: Seq<char>,
    filter: PlanFilter,
    show_exhausted: bool,
    i: int,
)
    requires
        0 <= i < accounts.len(),
    ensures
        ({
            let items = crate::listing::items_of(accounts, search, filter, show_exhausted);
            &&& filter.admits(accounts[i]) && crate::listing::is_found(
                accounts[i],
                lowercase(trimmed(search)),
            ) && (show_exhausted || !accounts[i].is_exhausted()) <==> exists|p: int|
                0 <= p < items.len() && #[trigger] items[p] == ItemView::Account(i)
            &&& forall|p: int, q: int|
                0 <= p < items.len() && 0 <= q < items.len() && #[trigger] items[p]
                    == ItemView::Account(i) && #[trigger] items[q] == ItemView::Account(i) ==> p == q
        }),
{
    let items = crate::listing::items_of(accounts, search, filter, show_exhausted);
    crate::listing::lemma_listed(accounts, search, filter, show_exhausted);
    if items.contains(ItemView::Account(i)) {
        let p = choose|p: int| 0 <= p < items.len() && items[p] == ItemView::Account(i);
        assert(items[p] == ItemView::Account(i));
    } else {
        assert forall|p: int| 0 <= p < items.len() implies #[trigger] items[p]
            != ItemView::Account(i) by {
            assert(items.contains(items[p]));
        }
    }
    assert forall|p: int, q: int|
        0 <= p < items.len() && 0 <= q < items.len() && #[trigger] items[p] == ItemView::Account(i)
            && #[trigger] items[q] == ItemView::Account(i) implies p == q by {
        if p < q {
            assert(crate::listing::in_rank(accounts)(items[p]->Account_0, items[q]->Account_0));
        }
        if q < p {
            assert(crate::listing::in_rank(accounts)(items[q]->Account_0, items[p]->Account_0));
        }
    }
}

/// The line that stands for the exhausted accounts tells how many lines it hides.
pub proof fn lemma_hidden_count(
    accounts: Seq<AccountView>,
    search: Seq<char>,
    filter: PlanFilter,
    n: nat,
)
    requires
        crate::listing::items_of(accounts, search, filter, false).len() > 0,
        crate::listing::items_of(accounts, search, filter, false).last()
            == ItemView::ExhaustedSummary(n),
    ensures
        crate::listing::items_of(accounts, search, filter, true).len()
            == crate::listing::items_of(accounts, search, filter, false).len() - 1 + n,
        n > 0,
{
    let items = crate::listing::items_of(accounts, search, filter, false);
    crate::listing::lemma_listed(accounts, search, filter, false);
    crate::listing::lemma_list_len(accounts, search, filter, false);
    crate::listing::lemma_list_len(accounts, search, filter, true);
    assert(items[items.len() - 1] is ExhaustedSummary);
}

/// Showing exhausted accounts leaves the lines before them as they are.
pub proof fn lemma_same_lines_before_hidden(
    accounts: Seq<AccountView>,
    search: Seq<char>,
    filter: PlanFilter,
    p: int,
)
    requires
        0 <= p < crate::listing::items_of(accounts, search, filter, false).len(),
        crate::listing::items_of(accounts, search, filter, false)[p] is Account,
    ensures
        p < crate::listing::items_of(accounts, search, filter, true).len(),
        crate::listing::items_of(accounts, search, filter, true)[p]
            == crate::listing::items_of(accounts, search, filter, false)[p],
{
    reveal(crate::listing::items_of);
}

/// A window of five hours, of a week and of a month is called so, and any other a period.
pub proof fn lemma_window_label(window_sec: int)
    ensures
        crate::model::window_label(5 * 3600int) == "5h"@,
        crate::model::window_label(7 * 86400int) == "Week"@,
        28 * 86400 <= window_sec <= 31 * 86400 ==> crate::model::window_label(window_sec)
            == "Month"@,
        window_sec > 31 * 86400 ==> crate::model::window_label(window_sec) == "Period"@,
        7 * 86400 < window_sec < 28 * 86400 ==> crate::model::window_label(window_sec) == "Period"@,
{
}

} // verus!
