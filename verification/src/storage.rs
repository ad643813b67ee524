//! The store of managed accounts.
use vstd::prelude::*;
use vstd::string::*;

use crate::claims::parse_access_token;
use crate::identity::{canonical_account_id, first_non_empty};
use crate::model::{AccountRecord, QuotaState};
use crate::order::{stable_order, Ranked};
use crate::text::{blank, chars_less, chars_of, eq_ignore_ascii_case, to_lowercase, trim, trim_text};
use crate::timestamp::timestamp_from_millis;

#[allow(unused_imports)]
use crate::model::{AccountView, QuotaView};

verus! {

/// Why an account cannot be stored.
#[derive(Clone, Copy, Debug, PartialEq, Eq, Structural)]
pub enum StorageError {
    EmptyAccessToken,
    MissingAccountId,
}

impl StorageError {
    pub open spec fn text(self) -> Seq<char> {
        match self {
            StorageError::EmptyAccessToken => "access token is empty"@,
            StorageError::MissingAccountId => "account_id is missing"@,
        }
    }

    pub fn message(self) -> (r: &'static str)
        ensures
            r@ == self.text(),
    {
        match self {
            StorageError::EmptyAccessToken => "access token is empty",
            StorageError::MissingAccountId => "account_id is missing",
        }
    }
}

/// An account as it is stored. `expires_at_ms` is 0 where the expiry is not known.
#[derive(Debug)]
pub struct ManagedAccount {
    pub label: String,
    pub email: String,
    pub account_id: String,
    pub access_token: String,
    pub refresh_token: String,
    pub expires_at_ms: i64,
    pub client_id: String,
}

#[verifier::ext_equal]
pub struct ManagedView {
    pub label: Seq<char>,
    pub email: Seq<char>,
    pub account_id: Seq<char>,
    pub access_token: Seq<char>,
    pub refresh_token: Seq<char>,
    pub expires_at_ms: int,
    pub client_id: Seq<char>,
}

impl View for ManagedAccount {
    type V = ManagedView;

    open spec fn view(&self) -> ManagedView {
        ManagedView {
            label: self.label@,
            email: self.email@,
            account_id: self.account_id@,
            access_token: self.access_token@,
            refresh_token: self.refresh_token@,
            expires_at_ms: self.expires_at_ms as int,
            client_id: self.client_id@,
        }
    }
}

impl Clone for ManagedAccount {
    fn clone(&self) -> (r: Self)
        ensures
            r@ == self@,
    {
        ManagedAccount {
            label: self.label.clone(),
            email: self.email.clone(),
            account_id: self.account_id.clone(),
            access_token: self.access_token.clone(),
            refresh_token: self.refresh_token.clone(),
            expires_at_ms: self.expires_at_ms,
            client_id: self.client_id.clone(),
        }
    }
}

impl Default for ManagedAccount {
    fn default() -> (r: Self)
        ensures
            r@ == (ManagedView {
                label: Seq::empty(),
                email: Seq::empty(),
                account_id: Seq::empty(),
                access_token: Seq::empty(),
                refresh_token: Seq::empty(),
                expires_at_ms: 0,
                client_id: Seq::empty(),
            }),
    {
        ManagedAccount {
            label: String::new(),
            email: String::new(),
            account_id: String::new(),
            access_token: String::new(),
            refresh_token: String::new(),
            expires_at_ms: 0,
            client_id: String::new(),
        }
    }
}

/// The stored accounts.
#[derive(Debug)]
pub struct ManagedStore {
    pub accounts: Vec<ManagedAccount>,
}

pub open spec fn managed_views(accounts: Seq<ManagedAccount>) -> Seq<ManagedView> {
    accounts.map_values(|a: ManagedAccount| a@)
}

impl View for ManagedStore {
    type V = Seq<ManagedView>;

    open spec fn view(&self) -> Seq<ManagedView> {
        managed_views(self.accounts@)
    }
}

impl Default for ManagedStore {
    fn default() -> (r: Self)
        ensures
            r@ == Seq::<ManagedView>::empty(),
    {
        let r = ManagedStore { accounts: Vec::new() };
        assert(r@ =~= Seq::<ManagedView>::empty());
        r
    }
}

/// The expiry of an account in milliseconds: its own, or that of its token, or 0.
pub open spec fn expiry_millis(own: Option<(int, int)>, claimed: Option<(int, int)>) -> int {
    match own {
        Some(t) => crate::timestamp::millis_of(t),
        None => match claimed {
            Some(t) => crate::timestamp::millis_of(t),
            None => 0,
        },
    }
}

/// `text` trimmed, or `other` where it is blank.
pub open spec fn trimmed_or(text: Seq<char>, other: Seq<char>) -> Seq<char> {
    if crate::text::is_blank(text) {
        other
    } else {
        crate::text::trimmed(text)
    }
}

/// How an account is stored: what it lacks comes from the claims of its token.
pub open spec fn managed_item(a: AccountView) -> ManagedView {
    let claims = crate::claims::claims_of(a.access_token);
    ManagedView {
        label: crate::text::trimmed(a.label),
        email: trimmed_or(a.email, claims.email),
        account_id: crate::identity::canonical(seq![a.account_id, claims.account_id]),
        access_token: crate::text::trimmed(a.access_token),
        refresh_token: crate::text::trimmed(a.refresh_token),
        expires_at_ms: expiry_millis(a.expires_at, claims.expires_at),
        client_id: trimmed_or(a.client_id, claims.client_id),
    }
}

/// Why an account is not stored, if it is not.
pub open spec fn upsert_error(a: AccountView) -> Option<StorageError> {
    if crate::text::is_blank(a.access_token) {
        Some(StorageError::EmptyAccessToken)
    } else if crate::text::is_blank(managed_item(a).account_id) {
        Some(StorageError::MissingAccountId)
    } else {
        None
    }
}

/// The canonical id of a stored account.
pub open spec fn own_id(item: ManagedView) -> Seq<char> {
    crate::identity::canonical(seq![item.account_id])
}

/// The place of the first stored account with an id, or the length where there is none.
pub open spec fn place_of(items: Seq<ManagedView>, id: Seq<char>) -> nat
    decreases items.len(),
{
    if items.len() == 0 || own_id(items[0]) == id {
        0
    } else {
        1 + place_of(items.drop_first(), id)
    }
}

/// `text`, or `other` where it is blank.
pub open spec fn filled(text: Seq<char>, other: Seq<char>) -> Seq<char> {
    if crate::text::is_blank(text) {
        other
    } else {
        text
    }
}

/// A stored account after an incoming one was merged into it. What is blank is filled in; the tokens
/// are replaced where the incoming ones expire later.
pub open spec fn merged(existing: ManagedView, incoming: ManagedView) -> ManagedView {
    let newer = incoming.expires_at_ms > existing.expires_at_ms;
    let lost = crate::text::is_blank(
        if newer {
            incoming.access_token
        } else {
            existing.access_token
        },
    );
    ManagedView {
        label: filled(existing.label, incoming.label),
        email: filled(existing.email, incoming.email),
        account_id: existing.account_id,
        access_token: if newer || lost {
            incoming.access_token
        } else {
            existing.access_token
        },
        refresh_token: if newer {
            filled(incoming.refresh_token, filled(existing.refresh_token, incoming.refresh_token))
        } else {
            filled(existing.refresh_token, incoming.refresh_token)
        },
        expires_at_ms: if newer || lost {
            incoming.expires_at_ms
        } else {
            existing.expires_at_ms
        },
        client_id: if newer {
            filled(incoming.client_id, filled(existing.client_id, incoming.client_id))
        } else {
            filled(existing.client_id, incoming.client_id)
        },
    }
}

/// The store after an account was put in: merged into the one with the same id, or added.
pub open spec fn upserted(items: Seq<ManagedView>, item: ManagedView) -> Seq<ManagedView> {
    let i = place_of(items, item.account_id) as int;
    if i < items.len() {
        items.update(i, merged(items[i], item))
    } else {
        items.push(item)
    }
}

fn trim_or(text: &str, other: String) -> (r: String)
    ensures
        r@ == trimmed_or(text@, other@),
{
    if blank(text) {
        other
    } else {
        trim_text(text)
    }
}

/// How an account is stored.
pub fn to_managed(account: &AccountRecord) -> (r: ManagedAccount)
    ensures
        r@ == managed_item(account@),
{
    let claims = parse_access_token(account.access_token.as_str());
    let ids = [account.account_id.as_str(), claims.account_id.as_str()];
    assert(crate::identity::texts(ids@) =~= seq![account.account_id@, claims.account_id@]);
    let account_id = canonical_account_id(&ids);
    let expires_at_ms: i64 = match account.expires_at {
        Some(expiry) => expiry.timestamp_millis(),
        None => match claims.expires_at {
            Some(expiry) => expiry.timestamp_millis(),
            None => 0,
        },
    };
    ManagedAccount {
        label: trim_text(account.label.as_str()),
        email: trim_or(account.email.as_str(), claims.email),
        account_id,
        access_token: trim_text(account.access_token.as_str()),
        refresh_token: trim_text(account.refresh_token.as_str()),
        expires_at_ms,
        client_id: trim_or(account.client_id.as_str(), claims.client_id),
    }
}

/// Merges an incoming account into a stored one.
pub fn merge_managed_account(existing: &mut ManagedAccount, incoming: &ManagedAccount)
    ensures
        final(existing)@ == merged(old(existing)@, incoming@),
{
    if blank(existing.label.as_str()) {
        existing.label = incoming.label.clone();
    }
    if blank(existing.email.as_str()) {
        existing.email = incoming.email.clone();
    }
    if blank(existing.client_id.as_str()) {
        existing.client_id = incoming.client_id.clone();
    }
    if blank(existing.refresh_token.as_str()) {
        existing.refresh_token = incoming.refresh_token.clone();
    }
    if incoming.expires_at_ms > existing.expires_at_ms {
        existing.access_token = incoming.access_token.clone();
        existing.expires_at_ms = incoming.expires_at_ms;
        if !blank(incoming.refresh_token.as_str()) {
            existing.refresh_token = incoming.refresh_token.clone();
        }
        if !blank(incoming.client_id.as_str()) {
            existing.client_id = incoming.client_id.clone();
        }
    }
    if blank(existing.access_token.as_str()) {
        existing.access_token = incoming.access_token.clone();
        existing.expires_at_ms = incoming.expires_at_ms;
    }
}

fn canonical_of(id: &str) -> (r: String)
    ensures
        r@ == crate::identity::canonical(seq![id@]),
{
    let ids = [id];
    assert(crate::identity::texts(ids@) =~= seq![id@]);
    canonical_account_id(&ids)
}

/// The place of the first stored account with an id, or the length where there is none.
fn find_account(accounts: &Vec<ManagedAccount>, id: &String) -> (r: usize)
    ensures
        r == place_of(managed_views(accounts@), id@),
        r <= accounts.len(),
{
    let ghost all = managed_views(accounts@);
    assert(all.skip(0) == all);
    let mut i: usize = 0;
    while i < accounts.len()
        invariant
            i <= accounts.len(),
            all == managed_views(accounts@),
            place_of(all, id@) == i + place_of(all.skip(i as int), id@),
        decreases accounts.len() - i,
    {
        assert(all.skip(i as int)[0] == accounts@[i as int]@);
        if canonical_of(accounts[i].account_id.as_str()) == *id {
            return i;
        }
        assert(all.skip(i as int).drop_first() == all.skip(i + 1));
        i = i + 1;
    }
    i
}

/// Puts an account into the store, or merges it into the one that has its id.
pub fn upsert_managed_account(store: &mut ManagedStore, account: &AccountRecord) -> (r: Result<
    (),
    StorageError,
>)
    ensures
        match upsert_error(account@) {
            Some(error) => r == Err::<(), StorageError>(error) && final(store)@ == old(store)@,
            None => r is Ok && final(store)@ == upserted(old(store)@, managed_item(account@)),
        },
{
    if blank(account.access_token.as_str()) {
        return Err(StorageError::EmptyAccessToken);
    }
    let item = to_managed(account);
    if blank(item.account_id.as_str()) {
        return Err(StorageError::MissingAccountId);
    }
    let ghost all = store@;
    let ghost view = item@;
    let i: usize = find_account(&store.accounts, &item.account_id);
    if i < store.accounts.len() {
        merge_managed_account(&mut store.accounts[i], &item);
        assert(store@ =~= all.update(i as int, merged(all[i as int], view)));
    } else {
        store.accounts.push(item);
        assert(store@ =~= all.push(view));
    }
    Ok(())
}

/// The account that a stored one stands for: what it lacks comes from the claims of its token.
pub open spec fn record_of(item: ManagedView) -> AccountView {
    let claims = crate::claims::claims_of(item.access_token);
    AccountView {
        label: crate::identity::first_non_empty_of(seq![item.label, item.email]),
        email: crate::identity::first_non_empty_of(seq![item.email, claims.email]),
        account_id: crate::identity::canonical(seq![item.account_id, claims.account_id]),
        access_token: item.access_token,
        refresh_token: item.refresh_token,
        expires_at: if item.expires_at_ms > 0 {
            crate::timestamp::at_millis(item.expires_at_ms)
        } else {
            claims.expires_at
        },
        client_id: crate::identity::first_non_empty_of(seq![item.client_id, claims.client_id]),
        managed: true,
        codex_active: false,
        quota: QuotaView::Idle,
    }
}

/// The account that a stored one stands for.
pub fn managed_to_record(item: &ManagedAccount) -> (r: AccountRecord)
    ensures
        r@ == record_of(item@),
{
    let claims = parse_access_token(item.access_token.as_str());
    let labels = [item.label.as_str(), item.email.as_str()];
    assert(crate::identity::texts(labels@) =~= seq![item.label@, item.email@]);
    let emails = [item.email.as_str(), claims.email.as_str()];
    assert(crate::identity::texts(emails@) =~= seq![item.email@, claims.email@]);
    let ids = [item.account_id.as_str(), claims.account_id.as_str()];
    assert(crate::identity::texts(ids@) =~= seq![item.account_id@, claims.account_id@]);
    let clients = [item.client_id.as_str(), claims.client_id.as_str()];
    assert(crate::identity::texts(clients@) =~= seq![item.client_id@, claims.client_id@]);
    AccountRecord {
        label: first_non_empty(&labels),
        email: first_non_empty(&emails),
        account_id: canonical_account_id(&ids),
        access_token: item.access_token.clone(),
        refresh_token: item.refresh_token.clone(),
        expires_at: if item.expires_at_ms > 0 {
            timestamp_from_millis(item.expires_at_ms)
        } else {
            claims.expires_at
        },
        client_id: first_non_empty(&clients),
        managed: true,
        codex_active: false,
        quota: QuotaState::Idle,
    }
}

impl Ranked for Vec<char> {
    open spec fn before(self, other: Self) -> bool {
        crate::text::lex_less(self@, other@)
    }

    proof fn lemma_asymmetric(a: Self, b: Self) {
        if crate::text::lex_less(b@, a@) {
            crate::text::lemma_lex_transitive(a@, b@, a@);
            crate::text::lemma_lex_irreflexive(a@);
        }
    }

    proof fn lemma_weak(a: Self, b: Self, c: Self) {
        crate::text::lemma_lex_total(b@, c@);
        if crate::text::lex_less(b@, c@) {
            crate::text::lemma_lex_transitive(a@, b@, c@);
        }
    }

    fn is_before(&self, other: &Self) -> bool {
        chars_less(self, other)
    }
}

/// By what loaded accounts are sorted.
pub open spec fn name_key(a: AccountView) -> Seq<char> {
    crate::text::lowercase(a.display_name())
}

/// The order of accounts by name.
pub open spec fn by_name(records: Seq<AccountView>) -> spec_fn(int, int) -> bool {
    |i: int, j: int| crate::text::lex_less(name_key(records[i]), name_key(records[j]))
}

/// The accounts in the order of their names; those of the same name stay as they were.
pub open spec fn sorted_by_name(records: Seq<AccountView>) -> Seq<AccountView> {
    crate::order::order_by(records.len(), by_name(records)).map_values(|i: int| records[i])
}

/// A stored account that has an access token.
pub open spec fn has_token() -> spec_fn(ManagedView) -> bool {
    |m: ManagedView| !crate::text::is_blank(m.access_token)
}

/// The accounts of a store that have an access token.
pub open spec fn usable(items: Seq<ManagedView>) -> Seq<AccountView> {
    items.filter(has_token()).map_values(|m: ManagedView| record_of(m))
}

/// The accounts of a store, in the order of their names.
pub open spec fn loaded(items: Seq<ManagedView>) -> Seq<AccountView> {
    sorted_by_name(usable(items))
}

fn usable_accounts(store: &ManagedStore) -> (r: Vec<AccountRecord>)
    ensures
        crate::model::account_views(r@) == usable(store@),
{
    let ghost all = store@;
    let mut r: Vec<AccountRecord> = Vec::new();
    proof {
        reveal(Seq::filter);
        assert(all.take(0) =~= Seq::empty());
        assert(crate::model::account_views(r@) =~= usable(all.take(0)));
    }
    for i in 0..store.accounts.len()
        invariant
            all == managed_views(store.accounts@),
            crate::model::account_views(r@) == usable(all.take(i as int)),
    {
        let item = &store.accounts[i];
        let ghost before = r@;
        proof {
            reveal(Seq::filter);
            assert(all.take(i + 1).drop_last() == all.take(i as int));
            assert(all.take(i + 1).last() == item@);
        }
        if !blank(item.access_token.as_str()) {
            r.push(managed_to_record(item));
            assert(crate::model::account_views(r@) =~= crate::model::account_views(before).push(
                record_of(item@),
            ));
            assert(usable(all.take(i + 1)) =~= usable(all.take(i as int)).push(record_of(item@)));
        }
    }
    assert(all.take(all.len() as int) == all);
    r
}

/// The accounts of a store that have an access token, in the order of their names.
pub fn load_managed_accounts(store: &ManagedStore) -> (r: Vec<AccountRecord>)
    ensures
        crate::model::account_views(r@) == loaded(store@),
{
    let records = usable_accounts(store);
    let ghost views = usable(store@);
    let mut keys: Vec<Vec<char>> = Vec::new();
    for i in 0..records.len()
        invariant
            views == crate::model::account_views(records@),
            keys.len() == i,
            forall|k: int| 0 <= k < i ==> (#[trigger] keys[k])@ == name_key(views[k]),
    {
        let name = to_lowercase(records[i].display_name().as_str());
        keys.push(chars_of(name.as_str()));
    }
    let order = stable_order(&keys);
    let ghost places = crate::order::as_ints(order@);
    proof {
        let given = crate::order::by_keys(keys@);
        let less = by_name(views);
        assert forall|i: int, j: int| 0 <= i < views.len() && 0 <= j < views.len() implies
            #[trigger] less(i, j) == given(i, j) by {
            assert(keys[i]@ == name_key(views[i]));
            assert(keys[j]@ == name_key(views[j]));
        }
        crate::order::lemma_order_same(views.len(), given, less, places);
    }
    let mut r: Vec<AccountRecord> = Vec::new();
    for p in 0..order.len()
        invariant
            views == crate::model::account_views(records@),
            places == crate::order::as_ints(order@),
            crate::order::is_order(views.len(), by_name(views), places),
            r.len() == p,
            forall|k: int| 0 <= k < p ==> (#[trigger] r[k])@ == views[places[k]],
    {
        assert(places[p as int] == order@[p as int]);
        r.push(records[order[p]].clone());
    }
    assert(crate::model::account_views(r@) =~= loaded(store@));
    r
}

/// Two accounts are the same: they have one id, or one email but for capitals.
pub open spec fn same_account(left: AccountView, right: AccountView) -> bool {
    let left_id = crate::identity::canonical(seq![left.account_id]);
    let right_id = crate::identity::canonical(seq![right.account_id]);
    ||| left_id.len() > 0 && left_id == right_id
    ||| !crate::text::is_blank(left.email) && crate::text::eq_ignore_case(
        crate::text::trimmed(left.email),
        crate::text::trimmed(right.email),
    )
}

pub fn same_identity(left: &AccountRecord, right: &AccountRecord) -> (r: bool)
    ensures
        r == same_account(left@, right@),
{
    let left_id = canonical_of(left.account_id.as_str());
    let right_id = canonical_of(right.account_id.as_str());
    if !left_id.as_str().is_empty() && left_id == right_id {
        return true;
    }
    !blank(left.email.as_str()) && eq_ignore_ascii_case(
        trim(left.email.as_str()),
        trim(right.email.as_str()),
    )
}

/// A stored account that is another than `account`.
pub open spec fn is_other(account: AccountView) -> spec_fn(ManagedView) -> bool {
    |m: ManagedView| !same_account(account, record_of(m))
}

/// The store without an account.
pub open spec fn deleted(items: Seq<ManagedView>, account: AccountView) -> Seq<ManagedView> {
    items.filter(is_other(account))
}

/// What is to be written after an account was deleted.
#[derive(Clone, Copy, Debug, PartialEq, Eq, Structural)]
pub struct Deletion {
    /// The store has lost accounts.
    pub changed: bool,
    /// The account was the active one, so that its tokens have to leave the authentication file.
    pub clears_codex: bool,
}

/// Takes an account out of the store.
pub fn delete_account(store: &mut ManagedStore, account: &AccountRecord) -> (r: Deletion)
    ensures
        final(store)@ == deleted(old(store)@, account@),
        r.changed == (deleted(old(store)@, account@).len() != old(store)@.len()),
        r.clears_codex == account@.codex_active,
{
    let ghost all = store@;
    let before: usize = store.accounts.len();
    let mut kept: Vec<ManagedAccount> = Vec::new();
    proof {
        reveal(Seq::filter);
        assert(all.take(0) =~= Seq::empty());
        assert(managed_views(kept@) =~= deleted(all.take(0), account@));
    }
    for i in 0..before
        invariant
            before == store.accounts.len(),
            all == managed_views(store.accounts@),
            managed_views(kept@) == deleted(all.take(i as int), account@),
    {
        let item = &store.accounts[i];
        let ghost earlier = kept@;
        proof {
            reveal(Seq::filter);
            assert(all.take(i + 1).drop_last() == all.take(i as int));
            assert(all.take(i + 1).last() == item@);
        }
        if !same_identity(account, &managed_to_record(item)) {
            kept.push(item.clone());
            assert(managed_views(kept@) =~= managed_views(earlier).push(item@));
        }
    }
    assert(all.take(all.len() as int) == all);
    let changed: bool = kept.len() != before;
    assert(managed_views(kept@).len() == kept@.len());
    store.accounts = kept;
    Deletion { changed, clears_codex: account.codex_active }
}

/// The active account is taken over into the store.
pub open spec fn imports(codex: AccountView) -> bool {
    !crate::text::is_blank(codex.access_token) && !crate::text::is_blank(codex.account_id)
}

/// The store after the active account was taken over.
pub open spec fn imported(items: Seq<ManagedView>, codex: Option<AccountView>) -> Seq<ManagedView> {
    match codex {
        Some(current) => if imports(current) {
            upserted(items, managed_item(current))
        } else {
            items
        },
        None => items,
    }
}

/// The account, marked as active where it is the active one.
pub open spec fn marked(a: AccountView, codex: Option<AccountView>) -> AccountView {
    AccountView {
        codex_active: codex matches Some(current) && same_account(a, current),
        ..a
    }
}

/// The accounts of a store with the active one marked.
pub open spec fn marked_all(
    accounts: Seq<AccountView>,
    codex: Option<AccountView>,
) -> Seq<AccountView> {
    accounts.map_values(|a: AccountView| marked(a, codex))
}

/// The view of an account that may be missing.
pub open spec fn account_view(a: Option<&AccountRecord>) -> Option<AccountView> {
    match a {
        Some(a) => Some(a@),
        None => None,
    }
}

/// Takes the active account over into the store, and lists the accounts with the active one marked.
/// Tells also whether the store has to be written.
pub fn load_accounts(store: &mut ManagedStore, codex: Option<&AccountRecord>) -> (r: (
    Vec<AccountRecord>,
    bool,
))
    ensures
        final(store)@ == imported(old(store)@, account_view(codex)),
        crate::model::account_views(r.0@) == marked_all(
            loaded(imported(old(store)@, account_view(codex))),
            account_view(codex),
        ),
        r.1 == (account_view(codex) matches Some(current) && imports(current)),
{
    let mut changed: bool = false;
    if let Some(current) = codex {
        if !blank(current.access_token.as_str()) && !blank(current.account_id.as_str()) {
            proof {
                lemma_imports(current@);
            }
            let _ = upsert_managed_account(store, current);
            changed = true;
        }
    }
    let mut accounts = load_managed_accounts(store);
    let ghost views = crate::model::account_views(accounts@);
    let n: usize = accounts.len();
    for i in 0..n
        invariant
            n == accounts.len() == views.len(),
            forall|k: int|
                0 <= k < i ==> (#[trigger] accounts[k])@ == marked(views[k], account_view(codex)),
            forall|k: int| i <= k < n ==> (#[trigger] accounts[k])@ == views[k],
    {
        let active: bool = match codex {
            Some(current) => same_identity(&accounts[i], current),
            None => false,
        };
        let ghost unmarked = accounts[i as int]@;
        accounts[i].codex_active = active;
        assert(accounts[i as int]@ =~= marked(unmarked, account_view(codex)));
    }
    assert(crate::model::account_views(accounts@) =~= marked_all(views, account_view(codex)));
    (accounts, changed)
}

/// An active account that is taken over can be stored.
proof fn lemma_imports(a: AccountView)
    requires
        imports(a),
    ensures
        upsert_error(a) is None,
{
    let ids = seq![a.account_id, crate::claims::claims_of(a.access_token).account_id];
    crate::identity::lemma_canonical(ids);
    assert(!crate::text::is_blank(ids[0]));
    crate::text::lemma_trimmed_fixed(crate::identity::canonical(ids));
}

/// The place of an id is that of the first stored account that has it.
pub proof fn lemma_place_of(items: Seq<ManagedView>, id: Seq<char>)
    ensures
        place_of(items, id) <= items.len(),
        place_of(items, id) < items.len() ==> own_id(items[place_of(items, id) as int]) == id,
        forall|k: int| 0 <= k < place_of(items, id) ==> own_id(#[trigger] items[k]) != id,
    decreases items.len(),
{
    if items.len() > 0 && own_id(items[0]) != id {
        let rest = items.drop_first();
        lemma_place_of(rest, id);
        let p = place_of(rest, id);
        assert forall|k: int| 0 <= k < 1 + p implies own_id(#[trigger] items[k]) != id by {
            if k > 0 {
                assert(rest[k - 1] == items[k]);
            }
        }
    }
}

/// Where an id first occurs, there is its place.
pub proof fn lemma_place_found(items: Seq<ManagedView>, id: Seq<char>, i: int)
    requires
        0 <= i < items.len(),
        own_id(items[i]) == id,
        forall|k: int| 0 <= k < i ==> own_id(#[trigger] items[k]) != id,
    ensures
        place_of(items, id) == i,
{
    lemma_place_of(items, id);
    if i < place_of(items, id) {
        assert(own_id(items[i]) != id);
    }
}

/// No two stored accounts have one id.
pub open spec fn ids_differ(items: Seq<ManagedView>) -> bool {
    forall|i: int, j: int|
        0 <= i < j < items.len() ==> own_id(#[trigger] items[i]) != own_id(#[trigger] items[j])
}

/// An account as it is stored has a canonical id, and a token where it can be stored.
pub proof fn lemma_item(account: AccountView)
    ensures
        crate::identity::canonical(seq![managed_item(account).account_id]) == managed_item(
            account,
        ).account_id,
        upsert_error(account) is None ==> !crate::text::is_blank(
            managed_item(account).access_token,
        ) && managed_item(account).account_id.len() > 0,
{
    let claims = crate::claims::claims_of(account.access_token);
    crate::identity::lemma_canonical_idempotent(seq![account.account_id, claims.account_id]);
    crate::identity::lemma_canonical(seq![account.account_id, claims.account_id]);
    crate::text::lemma_trimmed_fixed(managed_item(account).account_id);
    crate::text::lemma_trimmed_idempotent(account.access_token);
}

/// Merging an account twice is merging it once.
pub proof fn lemma_merge_idempotent(existing: ManagedView, incoming: ManagedView)
    ensures
        merged(merged(existing, incoming), incoming) == merged(existing, incoming),
{
}

/// After an account was stored, the store holds one with its id. It has gained one account where the
/// id was new, and none otherwise; all other accounts are as they were, in their places.
pub proof fn lemma_upsert_stores(items: Seq<ManagedView>, account: AccountView)
    ensures
        ({
            let item = managed_item(account);
            let i = place_of(items, item.account_id) as int;
            let now = upserted(items, item);
            &&& place_of(now, item.account_id) == i
            &&& i < now.len()
            &&& now.len() == if i < items.len() {
                items.len()
            } else {
                items.len() + 1
            }
            &&& forall|k: int| 0 <= k < items.len() && k != i ==> now[k] == items[k]
        }),
{
    let item = managed_item(account);
    let i = place_of(items, item.account_id) as int;
    let now = upserted(items, item);
    lemma_item(account);
    lemma_place_of(items, item.account_id);
    assert(own_id(now[i]) == item.account_id);
    assert forall|k: int| 0 <= k < i implies own_id(#[trigger] now[k]) != item.account_id by {
        assert(now[k] == items[k]);
    }
    lemma_place_found(now, item.account_id, i);
}

/// Storing an account twice is storing it once.
pub proof fn lemma_upsert_idempotent(items: Seq<ManagedView>, account: AccountView)
    ensures
        upserted(upserted(items, managed_item(account)), managed_item(account)) == upserted(
            items,
            managed_item(account),
        ),
{
    let item = managed_item(account);
    let i = place_of(items, item.account_id) as int;
    let now = upserted(items, item);
    lemma_item(account);
    lemma_place_of(items, item.account_id);
    lemma_upsert_stores(items, account);
    if i < items.len() {
        lemma_merge_idempotent(items[i], item);
    } else {
        assert(merged(item, item) == item);
    }
    assert(upserted(now, item) =~= now);
}

/// A store in which no two accounts have one id stays so.
pub proof fn lemma_upsert_keeps_ids_apart(items: Seq<ManagedView>, account: AccountView)
    requires
        ids_differ(items),
    ensures
        ids_differ(upserted(items, managed_item(account))),
{
    let item = managed_item(account);
    let id = item.account_id;
    let now = upserted(items, item);
    let p = place_of(items, id) as int;
    lemma_item(account);
    lemma_place_of(items, id);
    assert forall|i: int, j: int| 0 <= i < j < now.len() implies own_id(#[trigger] now[i])
        != own_id(#[trigger] now[j]) by {
        if p < items.len() {
            assert(own_id(now[i]) == own_id(items[i]));
            assert(own_id(now[j]) == own_id(items[j]));
        } else {
            assert(now[i] == items[i]);
            if j < items.len() {
                assert(now[j] == items[j]);
            }
        }
    }
}

/// Which accounts remain after a deletion: those that were there and are another than the deleted.
pub proof fn lemma_deleted(items: Seq<ManagedView>, account: AccountView, m: ManagedView)
    ensures
        deleted(items, account).contains(m) <==> items.contains(m) && !same_account(
            account,
            record_of(m),
        ),
{
    crate::order::lemma_filter_contains(items, is_other(account), m);
}

/// Deleting an account twice is deleting it once.
pub proof fn lemma_delete_idempotent(items: Seq<ManagedView>, account: AccountView)
    ensures
        deleted(deleted(items, account), account) == deleted(items, account),
{
    let kept = deleted(items, account);
    assert forall|i: int| 0 <= i < kept.len() implies is_other(account)(#[trigger] kept[i]) by {
        crate::order::lemma_filter_contains(items, is_other(account), kept[i]);
    }
    crate::order::lemma_filter_all(kept, is_other(account));
}

proof fn lemma_names_ordered(records: Seq<AccountView>)
    ensures
        crate::order::is_order(
            records.len(),
            by_name(records),
            crate::order::order_by(records.len(), by_name(records)),
        ),
{
    let n = records.len();
    let less = by_name(records);
    assert forall|i: int, j: int| 0 <= i < n && 0 <= j < n && #[trigger] less(i, j) implies !less(
        j,
        i,
    ) by {
        if less(j, i) {
            crate::text::lemma_lex_transitive(
                name_key(records[i]),
                name_key(records[j]),
                name_key(records[i]),
            );
            crate::text::lemma_lex_irreflexive(name_key(records[i]));
        }
    }
    assert forall|i: int, j: int, k: int|
        0 <= i < n && 0 <= j < n && 0 <= k < n && #[trigger] less(i, j) && !less(k, j) implies
        #[trigger] less(i, k) by {
        crate::text::lemma_lex_total(name_key(records[j]), name_key(records[k]));
        if less(j, k) {
            crate::text::lemma_lex_transitive(
                name_key(records[i]),
                name_key(records[j]),
                name_key(records[k]),
            );
        }
    }
    crate::order::lemma_order_exists(n, less);
}

/// The loaded accounts are those of the store that have a token, and no name comes after a later one.
pub proof fn lemma_loaded(items: Seq<ManagedView>)
    ensures
        loaded(items).len() == usable(items).len(),
        forall|a: AccountView|
            #![trigger loaded(items).contains(a)]
            loaded(items).contains(a) <==> usable(items).contains(a),
        forall|p: int, q: int|
            0 <= p < q < loaded(items).len() ==> !crate::text::lex_less(
                name_key(#[trigger] loaded(items)[q]),
                name_key(#[trigger] loaded(items)[p]),
            ),
{
    let records = usable(items);
    let order = crate::order::order_by(records.len(), by_name(records));
    lemma_names_ordered(records);
    assert forall|a: AccountView|
        #![trigger loaded(items).contains(a)]
        loaded(items).contains(a) <==> records.contains(a) by {
        if loaded(items).contains(a) {
            let p = choose|p: int| 0 <= p < loaded(items).len() && loaded(items)[p] == a;
            assert(records[order[p]] == a);
        }
        if records.contains(a) {
            let i = choose|i: int| 0 <= i < records.len() && records[i] == a;
            assert(order.contains(i));
            let p = choose|p: int| 0 <= p < order.len() && order[p] == i;
            assert(loaded(items)[p] == a);
        }
    }
    assert forall|p: int, q: int| 0 <= p < q < loaded(items).len() implies !crate::text::lex_less(
        name_key(#[trigger] loaded(items)[q]),
        name_key(#[trigger] loaded(items)[p]),
    ) by {
        let less = by_name(records);
        assert(crate::order::precedes(less, order[p], order[q]));
        if less(order[p], order[q]) && less(order[q], order[p]) {
            crate::text::lemma_lex_transitive(
                name_key(loaded(items)[p]),
                name_key(loaded(items)[q]),
                name_key(loaded(items)[p]),
            );
            crate::text::lemma_lex_irreflexive(name_key(loaded(items)[p]));
        }
    }
}

pub proof fn lemma_usable(items: Seq<ManagedView>, m: ManagedView)
    requires
        items.contains(m),
        !crate::text::is_blank(m.access_token),
    ensures
        usable(items).contains(record_of(m)),
{
    crate::order::lemma_filter_contains(items, has_token(), m);
    let kept = items.filter(has_token());
    let i = choose|i: int| 0 <= i < kept.len() && kept[i] == m;
    assert(usable(items)[i] == record_of(m));
}

/// A deleted account does not come back when the store is loaded.
pub proof fn lemma_deleted_is_not_loaded(items: Seq<ManagedView>, account: AccountView, a: AccountView)
    requires
        loaded(deleted(items, account)).contains(a),
    ensures
        !same_account(account, a),
{
    let rest = deleted(items, account);
    lemma_loaded(rest);
    let i = choose|i: int| 0 <= i < usable(rest).len() && usable(rest)[i] == a;
    let m = rest.filter(has_token())[i];
    crate::order::lemma_filter_contains(rest, has_token(), m);
    lemma_deleted(items, account, m);
}

/// A stored account that was put in or merged has a token.
proof fn lemma_upserted_has_token(items: Seq<ManagedView>, account: AccountView)
    requires
        upsert_error(account) is None,
    ensures
        ({
            let item = managed_item(account);
            let now = upserted(items, item);
            let i = place_of(items, item.account_id) as int;
            !crate::text::is_blank(now[i].access_token) && own_id(now[i]) == item.account_id
        }),
{
    lemma_item(account);
    lemma_place_of(items, managed_item(account).account_id);
}

/// An account that was stored is loaded again, as the one in the store that has its id.
pub proof fn lemma_stored_is_loaded(items: Seq<ManagedView>, account: AccountView)
    requires
        upsert_error(account) is None,
    ensures
        ({
            let item = managed_item(account);
            let now = upserted(items, item);
            let i = place_of(items, item.account_id) as int;
            own_id(now[i]) == item.account_id && loaded(now).contains(record_of(now[i]))
        }),
{
    let item = managed_item(account);
    let now = upserted(items, item);
    let i = place_of(items, item.account_id) as int;
    lemma_upsert_stores(items, account);
    lemma_upserted_has_token(items, account);
    assert(now.contains(now[i]));
    lemma_usable(now, now[i]);
    lemma_loaded(now);
}

/// A new account that was stored is loaded again with its id and its tokens, and with its expiry
/// rounded down to the millisecond.
pub proof fn lemma_added_is_loaded(items: Seq<ManagedView>, account: AccountView)
    requires
        upsert_error(account) is None,
        place_of(items, managed_item(account).account_id) == items.len(),
    ensures
        loaded(upserted(items, managed_item(account))).contains(record_of(managed_item(account))),
        record_of(managed_item(account)).account_id == managed_item(account).account_id,
        record_of(managed_item(account)).access_token == crate::text::trimmed(
            account.access_token,
        ),
        record_of(managed_item(account)).refresh_token == crate::text::trimmed(
            account.refresh_token,
        ),
        account.expires_at matches Some(t) ==> (crate::timestamp::in_range(t.0, t.1) && t.1
            < 1_000_000_000 && crate::timestamp::millis_of(t) > 0 ==> record_of(
            managed_item(account),
        ).expires_at == Some((t.0, t.1 / 1_000_000 * 1_000_000))),
{
    match account.expires_at {
        Some(t) => {
            if crate::timestamp::in_range(t.0, t.1) {
                crate::timestamp::lemma_millis_round_trip(t);
            }
        },
        None => {},
    }
    let item = managed_item(account);
    let now = upserted(items, item);
    lemma_item(account);
    assert(now[items.len() as int] == item);
    lemma_usable(now, item);
    lemma_loaded(now);
    crate::claims::lemma_claims_of_trimmed(account.access_token);
    crate::identity::lemma_canonical_again(
        account.account_id,
        crate::claims::claims_of(account.access_token).account_id,
    );
}

/// Being the same account goes both ways.
pub proof fn lemma_same_account_symmetric(a: AccountView, b: AccountView)
    requires
        same_account(a, b),
    ensures
        same_account(b, a),
{
    let x = crate::text::trimmed(a.email);
    let y = crate::text::trimmed(b.email);
    assert(crate::text::ascii_lowercase(x).len() == x.len());
    assert(crate::text::ascii_lowercase(y).len() == y.len());
}

/// An account with an id or an email is the same as itself.
pub proof fn lemma_same_account_reflexive(a: AccountView)
    requires
        !crate::text::is_blank(a.account_id) || !crate::text::is_blank(a.email),
    ensures
        same_account(a, a),
{
    crate::identity::lemma_canonical_single(a.account_id);
}

} // verus!
