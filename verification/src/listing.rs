//! Which accounts are listed, and in what order.
use vstd::prelude::*;
use vstd::string::*;

use crate::model::{AccountRecord, TupleKey};
use crate::order::stable_order;
use crate::text::{contains, eq_ignore_ascii_case, to_lowercase, trim};

#[allow(unused_imports)]
use crate::model::AccountView;

verus! {

/// Which plans are listed.
#[derive(Clone, Copy, Debug, PartialEq, Eq, Structural)]
pub enum PlanFilter {
    All,
    Plus,
    Pro,
    Team,
    Business,
    Free,
    Unknown,
}

impl PlanFilter {
    /// The filter that the next press of the key sets.
    pub open spec fn following(self) -> PlanFilter {
        match self {
            PlanFilter::All => PlanFilter::Plus,
            PlanFilter::Plus => PlanFilter::Pro,
            PlanFilter::Pro => PlanFilter::Team,
            PlanFilter::Team => PlanFilter::Business,
            PlanFilter::Business => PlanFilter::Free,
            PlanFilter::Free => PlanFilter::Unknown,
            PlanFilter::Unknown => PlanFilter::All,
        }
    }

    pub open spec fn text(self) -> Seq<char> {
        match self {
            PlanFilter::All => "all"@,
            PlanFilter::Plus => "plus"@,
            PlanFilter::Pro => "pro"@,
            PlanFilter::Team => "team"@,
            PlanFilter::Business => "business"@,
            PlanFilter::Free => "free"@,
            PlanFilter::Unknown => "unknown"@,
        }
    }

    /// The plan of an account passes the filter.
    pub open spec fn admits(self, a: AccountView) -> bool {
        self == PlanFilter::All || crate::text::eq_ignore_case(a.plan_type(), self.text())
    }

    pub fn next(self) -> (r: Self)
        ensures
            r == self.following(),
    {
        match self {
            PlanFilter::All => PlanFilter::Plus,
            PlanFilter::Plus => PlanFilter::Pro,
            PlanFilter::Pro => PlanFilter::Team,
            PlanFilter::Team => PlanFilter::Business,
            PlanFilter::Business => PlanFilter::Free,
            PlanFilter::Free => PlanFilter::Unknown,
            PlanFilter::Unknown => PlanFilter::All,
        }
    }

    pub fn label(self) -> (r: &'static str)
        ensures
            r@ == self.text(),
    {
        match self {
            PlanFilter::All => "all",
            PlanFilter::Plus => "plus",
            PlanFilter::Pro => "pro",
            PlanFilter::Team => "team",
            PlanFilter::Business => "business",
            PlanFilter::Free => "free",
            PlanFilter::Unknown => "unknown",
        }
    }

    pub fn matches(self, account: &AccountRecord) -> (r: bool)
        ensures
            r == self.admits(account@),
    {
        if self == PlanFilter::All {
            return true;
        }
        eq_ignore_ascii_case(account.plan_type(), self.label())
    }
}

/// Seven presses of the key lead back to the filter that was set, and fewer do not.
pub proof fn lemma_filter_cycle(f: PlanFilter)
    ensures
        f.following().following().following().following().following().following().following() == f,
        f.following() != f,
        f.following().following() != f,
        f.following().following().following() != f,
        f.following().following().following().following() != f,
        f.following().following().following().following().following() != f,
        f.following().following().following().following().following().following() != f,
{
}

/// The order of accounts by their sort tuples.
pub open spec fn by_rank(accounts: Seq<AccountView>) -> spec_fn(int, int) -> bool {
    |i: int, j: int|
        crate::model::tuple_less(accounts[i].sort_tuple(), accounts[j].sort_tuple())
}

/// The indices of the accounts, in the order of their sort tuples.
pub open spec fn ranked(accounts: Seq<AccountView>) -> Seq<int> {
    crate::order::order_by(accounts.len(), by_rank(accounts))
}

/// What is searched for.
pub open spec fn query_of(search: Seq<char>) -> Seq<char> {
    crate::text::lowercase(crate::text::trimmed(search))
}

/// The query stands in the name, the email or the id of an account, whatever the case. An empty query
/// stands everywhere.
pub open spec fn is_found(a: AccountView, query: Seq<char>) -> bool {
    ||| query.len() == 0
    ||| crate::text::holds(crate::text::lowercase(a.display_name()), query)
    ||| crate::text::holds(crate::text::lowercase(a.email), query)
    ||| crate::text::holds(crate::text::lowercase(a.account_id), query)
}

/// The account passes the plan filter and the search.
pub open spec fn passes(a: AccountView, search: Seq<char>, filter: PlanFilter) -> bool {
    filter.admits(a) && is_found(a, query_of(search))
}

pub open spec fn passing(
    accounts: Seq<AccountView>,
    search: Seq<char>,
    filter: PlanFilter,
) -> spec_fn(int) -> bool {
    |i: int| passes(accounts[i], search, filter)
}

/// The indices of the accounts that pass, in order.
pub open spec fn filtered(accounts: Seq<AccountView>, search: Seq<char>, filter: PlanFilter) -> Seq<
    int,
> {
    ranked(accounts).filter(passing(accounts, search, filter))
}

/// The exhausted accounts, or the others.
pub open spec fn having(accounts: Seq<AccountView>, exhausted: bool) -> spec_fn(int) -> bool {
    |i: int| accounts[i].is_exhausted() == exhausted
}

/// The indices of the exhausted accounts that pass, or of the others that do, in order.
#[verifier::opaque]
pub open spec fn part_of(
    accounts: Seq<AccountView>,
    search: Seq<char>,
    filter: PlanFilter,
    exhausted: bool,
) -> Seq<int> {
    filtered(accounts, search, filter).filter(having(accounts, exhausted))
}

/// A line of the list: an account, or how many exhausted ones are not shown.
#[derive(Clone, Copy, Debug, PartialEq, Eq, Structural)]
pub enum ListItem {
    Account(usize),
    ExhaustedSummary(usize),
}

pub enum ItemView {
    Account(int),
    ExhaustedSummary(nat),
}

impl View for ListItem {
    type V = ItemView;

    open spec fn view(&self) -> ItemView {
        match *self {
            ListItem::Account(i) => ItemView::Account(i as int),
            ListItem::ExhaustedSummary(n) => ItemView::ExhaustedSummary(n as nat),
        }
    }
}

pub open spec fn item_views(items: Seq<ListItem>) -> Seq<ItemView> {
    items.map_values(|item: ListItem| item@)
}

/// The lines of accounts.
pub open spec fn as_items(indices: Seq<int>) -> Seq<ItemView> {
    indices.map_values(|i: int| ItemView::Account(i))
}

/// The list: the accounts that are not exhausted, and behind them the exhausted ones, or how many of
/// them there are.
#[verifier::opaque]
pub open spec fn items_of(
    accounts: Seq<AccountView>,
    search: Seq<char>,
    filter: PlanFilter,
    show_exhausted: bool,
) -> Seq<ItemView> {
    let items = as_items(part_of(accounts, search, filter, false));
    let exhausted = part_of(accounts, search, filter, true);
    if exhausted.len() == 0 {
        items
    } else if show_exhausted {
        items + as_items(exhausted)
    } else {
        items.push(ItemView::ExhaustedSummary(exhausted.len()))
    }
}

/// All of `indices` are those of accounts.
pub open spec fn in_bounds(indices: Seq<usize>, n: nat) -> bool {
    forall|p: int| 0 <= p < indices.len() ==> #[trigger] indices[p] < n
}

/// The indices of the accounts, in the order of their sort tuples.
pub fn ordered_indices(accounts: &Vec<AccountRecord>) -> (r: Vec<usize>)
    ensures
        crate::order::as_ints(r@) == ranked(crate::model::account_views(accounts@)),
        in_bounds(r@, accounts@.len()),
{
    let ghost views = crate::model::account_views(accounts@);
    let mut keys: Vec<TupleKey> = Vec::new();
    for i in 0..accounts.len()
        invariant
            views == crate::model::account_views(accounts@),
            keys.len() == i,
            forall|k: int| 0 <= k < i ==> (#[trigger] keys[k])@ == views[k].sort_tuple(),
    {
        keys.push(TupleKey::new(accounts[i].sort_tuple()));
    }
    let order = stable_order(&keys);
    let ghost places = crate::order::as_ints(order@);
    proof {
        let given = crate::order::by_keys(keys@);
        let less = by_rank(views);
        assert forall|i: int, j: int| 0 <= i < views.len() && 0 <= j < views.len() implies
            #[trigger] less(i, j) == given(i, j) by {
            assert(keys[i]@ == views[i].sort_tuple());
            assert(keys[j]@ == views[j].sort_tuple());
        }
        crate::order::lemma_order_same(views.len(), given, less, places);
        assert forall|p: int| 0 <= p < order@.len() implies #[trigger] order@[p]
            < accounts@.len() by {
            assert(places[p] == order@[p]);
        }
    }
    order
}

fn account_matches(account: &AccountRecord, query: &String, filter: PlanFilter) -> (r: bool)
    ensures
        r == (filter.admits(account@) && is_found(account@, query@)),
{
    if !filter.matches(account) {
        return false;
    }
    if query.as_str().is_empty() {
        return true;
    }
    contains(to_lowercase(account.display_name().as_str()).as_str(), query.as_str()) || contains(
        to_lowercase(account.email.as_str()).as_str(),
        query.as_str(),
    ) || contains(to_lowercase(account.account_id.as_str()).as_str(), query.as_str())
}

/// The indices of the accounts that pass, in order.
pub fn filtered_indices(accounts: &Vec<AccountRecord>, search: &str, filter: PlanFilter) -> (r: Vec<
    usize,
>)
    ensures
        crate::order::as_ints(r@) == filtered(
            crate::model::account_views(accounts@),
            search@,
            filter,
        ),
        in_bounds(r@, accounts@.len()),
{
    let ghost views = crate::model::account_views(accounts@);
    let query = to_lowercase(trim(search));
    let order = ordered_indices(accounts);
    let ghost all = crate::order::as_ints(order@);
    let ghost keep = passing(views, search@, filter);
    let mut r: Vec<usize> = Vec::new();
    proof {
        reveal(Seq::filter);
        assert(all.take(0) =~= Seq::empty());
        assert(crate::order::as_ints(r@) =~= all.take(0).filter(keep));
    }
    for p in 0..order.len()
        invariant
            views == crate::model::account_views(accounts@),
            query@ == query_of(search@),
            all == crate::order::as_ints(order@),
            keep == passing(views, search@, filter),
            in_bounds(order@, accounts@.len()),
            in_bounds(r@, accounts@.len()),
            crate::order::as_ints(r@) == all.take(p as int).filter(keep),
    {
        let i: usize = order[p];
        let ghost before = crate::order::as_ints(r@);
        proof {
            reveal(Seq::filter);
            assert(all.take(p + 1).drop_last() == all.take(p as int));
            assert(all.take(p + 1).last() == i);
        }
        if account_matches(&accounts[i], &query, filter) {
            r.push(i);
            assert(crate::order::as_ints(r@) =~= before.push(i as int));
        }
    }
    assert(all.take(all.len() as int) == all);
    r
}

fn part_indices(
    accounts: &Vec<AccountRecord>,
    search: &str,
    filter: PlanFilter,
    exhausted: bool,
) -> (r: Vec<usize>)
    ensures
        crate::order::as_ints(r@) == part_of(
            crate::model::account_views(accounts@),
            search@,
            filter,
            exhausted,
        ),
        in_bounds(r@, accounts@.len()),
{
    reveal(part_of);
    let ghost views = crate::model::account_views(accounts@);
    let indices = filtered_indices(accounts, search, filter);
    let ghost all = crate::order::as_ints(indices@);
    let ghost keep = having(views, exhausted);
    let mut r: Vec<usize> = Vec::new();
    proof {
        reveal(Seq::filter);
        assert(all.take(0) =~= Seq::empty());
        assert(crate::order::as_ints(r@) =~= all.take(0).filter(keep));
    }
    for p in 0..indices.len()
        invariant
            views == crate::model::account_views(accounts@),
            all == crate::order::as_ints(indices@),
            keep == having(views, exhausted),
            in_bounds(indices@, accounts@.len()),
            in_bounds(r@, accounts@.len()),
            crate::order::as_ints(r@) == all.take(p as int).filter(keep),
    {
        let i: usize = indices[p];
        let ghost before = crate::order::as_ints(r@);
        proof {
            reveal(Seq::filter);
            assert(all.take(p + 1).drop_last() == all.take(p as int));
            assert(all.take(p + 1).last() == i);
        }
        if accounts[i].is_exhausted() == exhausted {
            r.push(i);
            assert(crate::order::as_ints(r@) =~= before.push(i as int));
        }
    }
    assert(all.take(all.len() as int) == all);
    r
}

/// The indices of the accounts that pass and are not exhausted, in order.
pub fn non_exhausted_indices(accounts: &Vec<AccountRecord>, search: &str, filter: PlanFilter) -> (r:
    Vec<usize>)
    ensures
        crate::order::as_ints(r@) == part_of(
            crate::model::account_views(accounts@),
            search@,
            filter,
            false,
        ),
        in_bounds(r@, accounts@.len()),
{
    part_indices(accounts, search, filter, false)
}

/// The indices of the exhausted accounts that pass, in order.
pub fn exhausted_indices(accounts: &Vec<AccountRecord>, search: &str, filter: PlanFilter) -> (r: Vec<
    usize,
>)
    ensures
        crate::order::as_ints(r@) == part_of(
            crate::model::account_views(accounts@),
            search@,
            filter,
            true,
        ),
        in_bounds(r@, accounts@.len()),
{
    part_indices(accounts, search, filter, true)
}

/// The items that stand for accounts are those of accounts.
pub open spec fn items_in_bounds(items: Seq<ListItem>, n: nat) -> bool {
    forall|p: int|
        0 <= p < items.len() ==> (#[trigger] items[p] matches ListItem::Account(i) ==> i < n)
}

fn push_accounts(items: &mut Vec<ListItem>, indices: &Vec<usize>)
    ensures
        item_views(final(items)@) == item_views(old(items)@) + as_items(
            crate::order::as_ints(indices@),
        ),
        forall|n: nat|
            items_in_bounds(old(items)@, n) && #[trigger] in_bounds(indices@, n)
                ==> items_in_bounds(final(items)@, n),
{
    let ghost start = items@;
    let ghost all = crate::order::as_ints(indices@);
    assert(item_views(start) + as_items(all.take(0)) =~= item_views(start));
    for p in 0..indices.len()
        invariant
            all == crate::order::as_ints(indices@),
            item_views(items@) == item_views(start) + as_items(all.take(p as int)),
            forall|n: nat|
                items_in_bounds(start, n) && #[trigger] in_bounds(indices@, n)
                    ==> items_in_bounds(items@, n),
    {
        let ghost before = items@;
        items.push(ListItem::Account(indices[p]));
        assert(item_views(items@) =~= item_views(before).push(ItemView::Account(all[p as int])));
        assert(as_items(all.take(p + 1)) =~= as_items(all.take(p as int)).push(
            ItemView::Account(all[p as int]),
        ));
        assert(item_views(items@) =~= item_views(start) + as_items(all.take(p + 1)));
    }
    assert(all.take(all.len() as int) == all);
}

/// The list of accounts.
pub fn list_items(
    accounts: &Vec<AccountRecord>,
    search: &str,
    filter: PlanFilter,
    show_exhausted: bool,
) -> (r: Vec<ListItem>)
    ensures
        item_views(r@) == items_of(
            crate::model::account_views(accounts@),
            search@,
            filter,
            show_exhausted,
        ),
        items_in_bounds(r@, accounts@.len()),
{
    reveal(items_of);
    let ghost views = crate::model::account_views(accounts@);
    let mut items: Vec<ListItem> = Vec::new();
    let available = non_exhausted_indices(accounts, search, filter);
    push_accounts(&mut items, &available);
    assert(item_views(items@) =~= as_items(part_of(views, search@, filter, false)));
    let exhausted = exhausted_indices(accounts, search, filter);
    assert(crate::order::as_ints(exhausted@).len() == exhausted@.len());
    if exhausted.len() == 0 {
        return items;
    }
    let ghost before = items@;
    if show_exhausted {
        push_accounts(&mut items, &exhausted);
    } else {
        items.push(ListItem::ExhaustedSummary(exhausted.len()));
        assert(item_views(items@) =~= item_views(before).push(
            ItemView::ExhaustedSummary(exhausted@.len()),
        ));
    }
    items
}

proof fn lemma_ranked(accounts: Seq<AccountView>)
    ensures
        crate::order::is_order(accounts.len(), by_rank(accounts), ranked(accounts)),
{
    let n = accounts.len();
    let less = by_rank(accounts);
    assert forall|i: int, j: int| 0 <= i < n && 0 <= j < n && #[trigger] less(i, j) implies !less(
        j,
        i,
    ) by {
        crate::model::lemma_tuple_asymmetric(accounts[i].sort_tuple(), accounts[j].sort_tuple());
    }
    assert forall|i: int, j: int, k: int|
        0 <= i < n && 0 <= j < n && 0 <= k < n && #[trigger] less(i, j) && !less(k, j) implies
        #[trigger] less(i, k) by {
        crate::model::lemma_tuple_weak(
            accounts[i].sort_tuple(),
            accounts[j].sort_tuple(),
            accounts[k].sort_tuple(),
        );
    }
    crate::order::lemma_order_exists(n, less);
}

/// The first of two accounts comes before the second, and is another. Accounts of the same rank keep
/// the order that they have.
pub open spec fn in_rank(accounts: Seq<AccountView>) -> spec_fn(int, int) -> bool {
    |i: int, j: int|
        i != j && !crate::model::tuple_less(accounts[j].sort_tuple(), accounts[i].sort_tuple()) && (
        i < j || crate::model::tuple_less(accounts[i].sort_tuple(), accounts[j].sort_tuple()))
}

/// The accounts that pass are all there, each once and in order.
proof fn lemma_filtered(accounts: Seq<AccountView>, search: Seq<char>, filter: PlanFilter)
    ensures
        forall|i: int|
            #![trigger filtered(accounts, search, filter).contains(i)]
            filtered(accounts, search, filter).contains(i) <==> 0 <= i < accounts.len() && passes(
                accounts[i],
                search,
                filter,
            ),
        forall|p: int, q: int|
            0 <= p < q < filtered(accounts, search, filter).len() ==> #[trigger] in_rank(accounts)(
                #[trigger] filtered(accounts, search, filter)[p],
                #[trigger] filtered(accounts, search, filter)[q],
            ),
{
    let n = accounts.len();
    let order = ranked(accounts);
    let less = by_rank(accounts);
    let keep = passing(accounts, search, filter);
    let rel = in_rank(accounts);
    lemma_ranked(accounts);
    assert forall|p: int, q: int| 0 <= p < q < order.len() implies #[trigger] rel(
        #[trigger] order[p],
        #[trigger] order[q],
    ) by {
        assert(crate::order::precedes(less, order[p], order[q]));
        let a = accounts[order[p]].sort_tuple();
        let b = accounts[order[q]].sort_tuple();
        if crate::model::tuple_less(b, a) {
            crate::model::lemma_tuple_asymmetric(b, a);
        }
        if order[p] == order[q] {
            assert(less(order[p], order[p]));
            crate::model::lemma_tuple_asymmetric(a, a);
        }
    }
    crate::order::lemma_filter_pairs(order, keep, rel);
    assert forall|i: int|
        #![trigger filtered(accounts, search, filter).contains(i)]
        filtered(accounts, search, filter).contains(i) <==> 0 <= i < n && passes(
            accounts[i],
            search,
            filter,
        ) by {
        crate::order::lemma_filter_contains(order, keep, i);
        if order.contains(i) {
            let p = choose|p: int| 0 <= p < order.len() && order[p] == i;
            assert(0 <= order[p] < n);
        }
    }
}

/// The exhausted accounts that pass, or the others that do, are all there, each once and in order.
proof fn lemma_part(
    accounts: Seq<AccountView>,
    search: Seq<char>,
    filter: PlanFilter,
    exhausted: bool,
)
    ensures
        forall|i: int|
            #![trigger part_of(accounts, search, filter, exhausted).contains(i)]
            part_of(accounts, search, filter, exhausted).contains(i) <==> 0 <= i < accounts.len()
                && passes(accounts[i], search, filter) && accounts[i].is_exhausted() == exhausted,
        forall|p: int, q: int|
            0 <= p < q < part_of(accounts, search, filter, exhausted).len() ==> #[trigger] in_rank(
                accounts,
            )(
                #[trigger] part_of(accounts, search, filter, exhausted)[p],
                #[trigger] part_of(accounts, search, filter, exhausted)[q],
            ),
        part_of(accounts, search, filter, exhausted).no_duplicates(),
{
    reveal(part_of);
    let all = filtered(accounts, search, filter);
    let keep = having(accounts, exhausted);
    let part = part_of(accounts, search, filter, exhausted);
    lemma_filtered(accounts, search, filter);
    crate::order::lemma_filter_pairs(all, keep, in_rank(accounts));
    assert forall|i: int| #![trigger part.contains(i)] part.contains(i) <==> 0 <= i
        < accounts.len() && passes(accounts[i], search, filter) && accounts[i].is_exhausted()
        == exhausted by {
        crate::order::lemma_filter_contains(all, keep, i);
        assert(all.contains(i) || !all.contains(i));
    }
    assert forall|p: int, q: int| 0 <= p < part.len() && 0 <= q < part.len() && p != q implies
        part[p] != part[q] by {
        if p < q {
            assert(in_rank(accounts)(part[p], part[q]));
        } else {
            assert(in_rank(accounts)(part[q], part[p]));
        }
    }
}

/// An account is listed where it passes the filters and is not exhausted, or exhausted accounts are
/// shown. No account is listed twice, and none behind one that it should precede. Where exhausted
/// accounts are not shown, the last line tells how many of them pass.
pub proof fn lemma_listed(
    accounts: Seq<AccountView>,
    search: Seq<char>,
    filter: PlanFilter,
    show_exhausted: bool,
)
    ensures
        ({
            let items = items_of(accounts, search, filter, show_exhausted);
            let hidden = part_of(accounts, search, filter, true).len();
            &&& forall|i: int|
                #![trigger items.contains(ItemView::Account(i))]
                items.contains(ItemView::Account(i)) <==> 0 <= i < accounts.len() && passes(
                    accounts[i],
                    search,
                    filter,
                ) && (!accounts[i].is_exhausted() || show_exhausted)
            &&& forall|p: int, q: int|
                #![trigger items[p], items[q]]
                0 <= p < q < items.len() && items[p] is Account && items[q] is Account ==> in_rank(
                    accounts,
                )(items[p]->Account_0, items[q]->Account_0)
            &&& forall|p: int|
                0 <= p < items.len() && #[trigger] items[p] is ExhaustedSummary ==> !show_exhausted
                    && p == items.len() - 1 && items[p]->ExhaustedSummary_0 == hidden && hidden > 0
            &&& !show_exhausted && hidden > 0 ==> items.len() > 0 && items.last()
                == ItemView::ExhaustedSummary(hidden)
        }),
{
    reveal(items_of);
    let items = items_of(accounts, search, filter, show_exhausted);
    let open = part_of(accounts, search, filter, false);
    let spent = part_of(accounts, search, filter, true);
    lemma_part(accounts, search, filter, false);
    lemma_part(accounts, search, filter, true);
    assert forall|i: int|
        #![trigger items.contains(ItemView::Account(i))]
        items.contains(ItemView::Account(i)) <==> 0 <= i < accounts.len() && passes(
            accounts[i],
            search,
            filter,
        ) && (!accounts[i].is_exhausted() || show_exhausted) by {
        assert(open.contains(i) || !open.contains(i));
        assert(spent.contains(i) || !spent.contains(i));
        if items.contains(ItemView::Account(i)) {
            let p = choose|p: int| 0 <= p < items.len() && items[p] == ItemView::Account(i);
            if p < open.len() {
                assert(open[p] == i);
            } else if show_exhausted {
                assert(spent[p - open.len()] == i);
            }
        }
        if open.contains(i) {
            let p = choose|p: int| 0 <= p < open.len() && open[p] == i;
            assert(items[p] == ItemView::Account(i));
        }
        if spent.contains(i) && show_exhausted {
            let p = choose|p: int| 0 <= p < spent.len() && spent[p] == i;
            assert(items[open.len() + p] == ItemView::Account(i));
        }
    }
    assert forall|p: int, q: int|
        #![trigger items[p], items[q]]
        0 <= p < q < items.len() && items[p] is Account && items[q] is Account implies in_rank(
        accounts,
    )(items[p]->Account_0, items[q]->Account_0) by {
        if q < open.len() {
            assert(in_rank(accounts)(open[p], open[q]));
        } else if p >= open.len() {
            assert(in_rank(accounts)(spent[p - open.len()], spent[q - open.len()]));
        } else {
            assert(open.contains(open[p]));
            assert(spent.contains(spent[q - open.len()]));
        }
    }
}

/// What lies in one sequence without repetition is no more than what lies in another that holds it.
proof fn lemma_no_more(a: Seq<int>, b: Seq<int>)
    requires
        a.no_duplicates(),
        forall|i: int| #[trigger] a.contains(i) ==> b.contains(i),
    ensures
        a.len() <= b.len(),
{
    a.unique_seq_to_set();
    assert(a.to_set().subset_of(b.to_set())) by {
        assert forall|i: int| a.to_set().contains(i) implies b.to_set().contains(i) by {
            assert(a.contains(i));
        }
    }
    vstd::seq_lib::seq_to_set_is_finite(b);
    vstd::set_lib::lemma_len_subset(a.to_set(), b.to_set());
    b.lemma_cardinality_of_set();
}

/// How long the list is: all accounts that pass where exhausted ones are shown or there are none, and
/// otherwise one line more than there are accounts that are not exhausted.
pub proof fn lemma_list_len(
    accounts: Seq<AccountView>,
    search: Seq<char>,
    filter: PlanFilter,
    show_exhausted: bool,
)
    ensures
        items_of(accounts, search, filter, show_exhausted).len() == part_of(
            accounts,
            search,
            filter,
            false,
        ).len() + if show_exhausted || part_of(accounts, search, filter, true).len() == 0 {
            part_of(accounts, search, filter, true).len()
        } else {
            1
        },
{
    reveal(items_of);
}

/// The list does not become shorter where accounts change in such a way that all that passed still
/// pass, and none becomes exhausted.
pub proof fn lemma_list_grows(
    before: Seq<AccountView>,
    after: Seq<AccountView>,
    search: Seq<char>,
    filter: PlanFilter,
    show_exhausted: bool,
)
    requires
        before.len() == after.len(),
        forall|i: int|
            0 <= i < before.len() && passes(#[trigger] before[i], search, filter) ==> passes(
                after[i],
                search,
                filter,
            ),
        forall|i: int|
            0 <= i < before.len() && !(#[trigger] before[i]).is_exhausted()
                ==> !after[i].is_exhausted(),
    ensures
        items_of(before, search, filter, show_exhausted).len() <= items_of(
            after,
            search,
            filter,
            show_exhausted,
        ).len(),
{
    let open = part_of(before, search, filter, false);
    let spent = part_of(before, search, filter, true);
    let open_now = part_of(after, search, filter, false);
    let spent_now = part_of(after, search, filter, true);
    lemma_part(before, search, filter, false);
    lemma_part(before, search, filter, true);
    lemma_part(after, search, filter, false);
    lemma_part(after, search, filter, true);
    lemma_list_len(before, search, filter, show_exhausted);
    lemma_list_len(after, search, filter, show_exhausted);
    lemma_no_more(open, open_now);
    let all = open + spent;
    let all_now = open_now + spent_now;
    assert forall|i: int| #[trigger] all.contains(i) implies all_now.contains(i) by {
        let p = choose|p: int| 0 <= p < all.len() && all[p] == i;
        if p < open.len() {
            assert(open.contains(open[p]));
        } else {
            assert(spent.contains(spent[p - open.len()]));
        }
        if after[i].is_exhausted() {
            assert(spent_now.contains(i));
            let q = choose|q: int| 0 <= q < spent_now.len() && spent_now[q] == i;
            assert(all_now[open_now.len() + q] == i);
        } else {
            assert(open_now.contains(i));
            let q = choose|q: int| 0 <= q < open_now.len() && open_now[q] == i;
            assert(all_now[q] == i);
        }
    }
    assert(all.no_duplicates()) by {
        assert forall|p: int, q: int| 0 <= p < all.len() && 0 <= q < all.len() && p != q implies
            all[p] != all[q] by {
            if p < open.len() && q >= open.len() {
                assert(open.contains(open[p]));
                assert(spent.contains(spent[q - open.len()]));
            }
            if q < open.len() && p >= open.len() {
                assert(open.contains(open[q]));
                assert(spent.contains(spent[p - open.len()]));
            }
        }
    }
    lemma_no_more(all, all_now);
}

} // verus!
