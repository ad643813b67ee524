//! What holds of the store of accounts, whatever it holds.
use vstd::prelude::*;

#[allow(unused_imports)]
use crate::claims::claims_of;
#[allow(unused_imports)]
use crate::model::{AccountView, QuotaView};
#[allow(unused_imports)]
use crate::storage::{
    deleted, imported, loaded, managed_item, marked_all, merged, record_of, same_account, upserted,
    ManagedView, StorageError,
};
#[allow(unused_imports)]
use crate::text::{eq_ignore_case, is_blank, lowercase, trimmed};

verus! {

/// Tokens that expire later replace those that are stored: the access token with its expiry, and the
/// refresh token and the client id wherever the incoming account has them.
pub proof fn lemma_newer_tokens_win(existing: ManagedView, incoming: ManagedView)
    requires
        incoming.expires_at_ms > existing.expires_at_ms,
    ensures
        merged(existing, incoming).access_token == incoming.access_token,
        merged(existing, incoming).expires_at_ms == incoming.expires_at_ms,
        !is_blank(incoming.refresh_token) ==> merged(existing, incoming).refresh_token
            == incoming.refresh_token,
        is_blank(incoming.refresh_token) && !is_blank(existing.refresh_token) ==> merged(
            existing,
            incoming,
        ).refresh_token == existing.refresh_token,
        !is_blank(incoming.client_id) ==> merged(existing, incoming).client_id
            == incoming.client_id,
        is_blank(incoming.client_id) && !is_blank(existing.client_id) ==> merged(
            existing,
            incoming,
        ).client_id == existing.client_id,
{
}

/// Tokens that do not expire later leave those that are stored as they are, and only fill in what is
/// missing.
pub proof fn lemma_older_tokens_lose(existing: ManagedView, incoming: ManagedView)
    requires
        incoming.expires_at_ms <= existing.expires_at_ms,
    ensures
        !is_blank(existing.access_token) ==> merged(existing, incoming).access_token
            == existing.access_token && merged(existing, incoming).expires_at_ms
            == existing.expires_at_ms,
        is_blank(existing.access_token) ==> merged(existing, incoming).access_token
            == incoming.access_token && merged(existing, incoming).expires_at_ms
            == incoming.expires_at_ms,
        !is_blank(existing.refresh_token) ==> merged(existing, incoming).refresh_token
            == existing.refresh_token,
        is_blank(existing.refresh_token) ==> merged(existing, incoming).refresh_token
            == incoming.refresh_token,
        !is_blank(existing.client_id) ==> merged(existing, incoming).client_id
            == existing.client_id,
        is_blank(existing.client_id) ==> merged(existing, incoming).client_id
            == incoming.client_id,
{
}

/// A stored account keeps its id, and its label and its email where it has them.
pub proof fn lemma_names_stay(existing: ManagedView, incoming: ManagedView)
    ensures
        merged(existing, incoming).account_id == existing.account_id,
        !is_blank(existing.label) ==> merged(existing, incoming).label == existing.label,
        is_blank(existing.label) ==> merged(existing, incoming).label == incoming.label,
        !is_blank(existing.email) ==> merged(existing, incoming).email == existing.email,
        is_blank(existing.email) ==> merged(existing, incoming).email == incoming.email,
{
}

/// The id of an account: its own or that of its token, whichever is like a UUID.
pub open spec fn id_of(account: AccountView) -> Seq<char> {
    crate::identity::canonical(seq![account.account_id, claims_of(account.access_token).account_id])
}

/// How an account is stored: its own texts without outer white space, and what it lacks of email,
/// client id and expiry as its token claims them.
pub proof fn lemma_stored_fields(account: AccountView)
    ensures
        ({
            let m = managed_item(account);
            let claims = claims_of(account.access_token);
            &&& m.account_id == id_of(account)
            &&& m.label == trimmed(account.label)
            &&& m.access_token == trimmed(account.access_token)
            &&& m.refresh_token == trimmed(account.refresh_token)
            &&& !is_blank(account.email) ==> m.email == trimmed(account.email)
            &&& is_blank(account.email) ==> m.email == claims.email
            &&& !is_blank(account.client_id) ==> m.client_id == trimmed(account.client_id)
            &&& is_blank(account.client_id) ==> m.client_id == claims.client_id
            &&& account.expires_at matches Some(t) ==> m.expires_at_ms
                == crate::timestamp::millis_of(t)
            &&& account.expires_at is None && claims.expires_at is None ==> m.expires_at_ms == 0
            &&& account.expires_at is None ==> (claims.expires_at matches Some(t)
                ==> m.expires_at_ms == crate::timestamp::millis_of(t))
        }),
{
}

/// An account is turned down exactly where it has no access token, or no id by itself or by its token.
pub proof fn lemma_what_is_stored(account: AccountView)
    ensures
        ({
            let error = crate::storage::upsert_error(account);
            &&& error == Some(StorageError::EmptyAccessToken) <==> is_blank(account.access_token)
            &&& error == Some(StorageError::MissingAccountId) <==> !is_blank(account.access_token)
                && is_blank(account.account_id) && is_blank(
                claims_of(account.access_token).account_id,
            )
            &&& error is None <==> !is_blank(account.access_token) && !(is_blank(account.account_id)
                && is_blank(claims_of(account.access_token).account_id))
        }),
{
    let ids = seq![account.account_id, claims_of(account.access_token).account_id];
    crate::identity::lemma_canonical(ids);
    crate::text::lemma_trimmed_fixed(crate::identity::canonical(ids));
    assert(crate::identity::all_blank(ids) <==> is_blank(ids[0]) && is_blank(ids[1]));
}

/// An account that is stored with tokens that expire later than those in the store: the one of its id
/// then has its access token, and its refresh token and client id where it has them, and so it is
/// loaded.
pub proof fn lemma_renewal_is_stored(items: Seq<ManagedView>, account: AccountView, i: int)
    requires
        crate::storage::upsert_error(account) is None,
        0 <= i < items.len(),
        trimmed(items[i].account_id) == id_of(account),
        forall|k: int| 0 <= k < i ==> trimmed((#[trigger] items[k]).account_id) != id_of(account),
        account.expires_at matches Some(t) && crate::timestamp::millis_of(t)
            > items[i].expires_at_ms,
    ensures
        ({
            let now = upserted(items, managed_item(account));
            let r = record_of(now[i]);
            &&& now.len() == items.len()
            &&& now[i].access_token == trimmed(account.access_token)
            &&& !is_blank(account.refresh_token) ==> now[i].refresh_token == trimmed(
                account.refresh_token,
            )
            &&& is_blank(account.refresh_token) && !is_blank(items[i].refresh_token)
                ==> now[i].refresh_token == items[i].refresh_token
            &&& !is_blank(account.client_id) ==> now[i].client_id == trimmed(account.client_id)
            &&& forall|k: int| 0 <= k < items.len() && k != i ==> now[k] == items[k]
            &&& loaded(now).contains(r)
            &&& r.access_token == trimmed(account.access_token)
            &&& !is_blank(account.refresh_token) ==> r.refresh_token == trimmed(
                account.refresh_token,
            )
        }),
{
    let item = managed_item(account);
    let now = upserted(items, item);
    crate::identity::lemma_canonical_single(items[i].account_id);
    assert forall|k: int| 0 <= k < i implies crate::storage::own_id(#[trigger] items[k])
        != item.account_id by {
        crate::identity::lemma_canonical_single(items[k].account_id);
    }
    crate::storage::lemma_place_found(items, item.account_id, i);
    lemma_newer_tokens_win(items[i], item);
    crate::text::lemma_trimmed_idempotent(account.refresh_token);
    crate::text::lemma_trimmed_idempotent(account.client_id);
    crate::text::lemma_trimmed_idempotent(account.access_token);
    assert(now.contains(now[i]));
    crate::storage::lemma_usable(now, now[i]);
    crate::storage::lemma_loaded(now);
}

/// An account of a new id is added behind the others, which stay as they are.
pub proof fn lemma_new_account_is_added(items: Seq<ManagedView>, account: AccountView)
    requires
        forall|k: int|
            0 <= k < items.len() ==> trimmed((#[trigger] items[k]).account_id) != id_of(account),
    ensures
        upserted(items, managed_item(account)) == items.push(managed_item(account)),
{
    let item = managed_item(account);
    crate::storage::lemma_place_of(items, item.account_id);
    let i = crate::storage::place_of(items, item.account_id) as int;
    if i < items.len() {
        crate::identity::lemma_canonical_single(items[i].account_id);
    }
}

/// What an account that is loaded has: its stored texts, what it lacks as its token claims it, and the
/// expiry that was stored. It counts as managed, and its quota is not known yet.
pub proof fn lemma_loaded_fields(m: ManagedView)
    ensures
        ({
            let r = record_of(m);
            let claims = claims_of(m.access_token);
            &&& r.access_token == m.access_token
            &&& r.refresh_token == m.refresh_token
            &&& !is_blank(m.label) ==> r.label == trimmed(m.label)
            &&& is_blank(m.label) ==> r.label == trimmed(m.email)
            &&& !is_blank(m.email) ==> r.email == trimmed(m.email)
            &&& is_blank(m.email) ==> r.email == trimmed(claims.email)
            &&& !is_blank(m.client_id) ==> r.client_id == trimmed(m.client_id)
            &&& is_blank(m.client_id) ==> r.client_id == trimmed(claims.client_id)
            &&& r.account_id == crate::identity::canonical(seq![m.account_id, claims.account_id])
            &&& m.expires_at_ms > 0 ==> r.expires_at == crate::timestamp::at_millis(m.expires_at_ms)
            &&& m.expires_at_ms <= 0 ==> r.expires_at == claims.expires_at
            &&& r.managed
            &&& !r.codex_active
            &&& r.quota is Idle
        }),
{
    let claims = claims_of(m.access_token);
    lemma_first_of_two(m.label, m.email);
    lemma_first_of_two(m.email, claims.email);
    lemma_first_of_two(m.client_id, claims.client_id);
}

proof fn lemma_first_of_two(a: Seq<char>, b: Seq<char>)
    ensures
        !is_blank(a) ==> crate::identity::first_non_empty_of(seq![a, b]) == trimmed(a),
        is_blank(a) ==> crate::identity::first_non_empty_of(seq![a, b]) == trimmed(b),
{
    reveal_with_fuel(crate::identity::first_non_blank, 3);
    assert(seq![a, b].drop_first() =~= seq![b]);
    assert(seq![b].drop_first() =~= Seq::empty());
    if is_blank(b) {
        assert(trimmed(b) =~= Seq::empty());
    }
}

/// An account is loaded exactly where a stored one with an access token stands for it, and names come
/// in alphabetical order, whatever their case.
pub proof fn lemma_what_is_loaded(items: Seq<ManagedView>, a: AccountView, p: int, q: int)
    ensures
        loaded(items).contains(a) <==> exists|i: int|
            0 <= i < items.len() && !is_blank((#[trigger] items[i]).access_token) && record_of(
                items[i],
            ) == a,
        0 <= p < q < loaded(items).len() ==> !crate::text::lex_less(
            lowercase(loaded(items)[q].display_name()),
            lowercase(loaded(items)[p].display_name()),
        ),
{
    crate::storage::lemma_loaded(items);
    let kept = items.filter(crate::storage::has_token());
    if loaded(items).contains(a) {
        let k = choose|k: int|
            0 <= k < crate::storage::usable(items).len() && crate::storage::usable(items)[k] == a;
        let m = kept[k];
        crate::order::lemma_filter_contains(items, crate::storage::has_token(), m);
        assert(kept.contains(m));
        let i = choose|i: int| 0 <= i < items.len() && items[i] == m;
        assert(record_of(items[i]) == a);
    }
    if exists|i: int|
        0 <= i < items.len() && !is_blank((#[trigger] items[i]).access_token) && record_of(items[i])
            == a {
        let i = choose|i: int|
            0 <= i < items.len() && !is_blank((#[trigger] items[i]).access_token) && record_of(
                items[i],
            ) == a;
        assert(items.contains(items[i]));
        crate::storage::lemma_usable(items, items[i]);
    }
    if 0 <= p < q < loaded(items).len() {
        let x = loaded(items)[p];
        let y = loaded(items)[q];
        assert(!crate::text::lex_less(crate::storage::name_key(y), crate::storage::name_key(x)));
    }
}

/// Two accounts are the same where they have one id, or one email but for capitals; otherwise they are
/// not.
pub proof fn lemma_same_account(a: AccountView, b: AccountView)
    ensures
        same_account(a, b) <==> (!is_blank(a.account_id) && trimmed(a.account_id) == trimmed(
            b.account_id,
        )) || (!is_blank(a.email) && eq_ignore_case(trimmed(a.email), trimmed(b.email))),
{
    crate::identity::lemma_canonical_single(a.account_id);
    crate::identity::lemma_canonical_single(b.account_id);
}

/// Deleting an account takes out every stored one that has its id or its email, and no other; the
/// others keep their order.
pub proof fn lemma_delete(items: Seq<ManagedView>, account: AccountView, i: int)
    requires
        0 <= i < items.len(),
    ensures
        !is_blank(account.account_id) && trimmed(record_of(items[i]).account_id) == trimmed(
            account.account_id,
        ) ==> !deleted(items, account).contains(items[i]),
        !is_blank(account.email) && eq_ignore_case(
            trimmed(account.email),
            trimmed(record_of(items[i]).email),
        ) ==> !deleted(items, account).contains(items[i]),
        trimmed(record_of(items[i]).account_id) != trimmed(account.account_id) && is_blank(
            account.email,
        ) ==> deleted(items, account).contains(items[i]),
        trimmed(record_of(items[i]).account_id) != trimmed(account.account_id) && !eq_ignore_case(
            trimmed(account.email),
            trimmed(record_of(items[i]).email),
        ) ==> deleted(items, account).contains(items[i]),
        (forall|k: int| 0 <= k < items.len() ==> !same_account(account, record_of(#[trigger] items[k])))
            ==> deleted(items, account) == items,
        deleted(items, account).len() <= items.len(),
{
    crate::storage::lemma_deleted(items, account, items[i]);
    assert(items.contains(items[i]));
    lemma_same_account(account, record_of(items[i]));
    if forall|k: int| 0 <= k < items.len() ==> !same_account(
        account,
        record_of(#[trigger] items[k]),
    ) {
        crate::order::lemma_filter_all(items, crate::storage::is_other(account));
    }
    items.lemma_filter_len(crate::storage::is_other(account));
}

/// The accounts that are the same as the active one are marked, and no others; nothing else of them
/// changes.
pub proof fn lemma_marked(accounts: Seq<AccountView>, codex: Option<AccountView>, i: int)
    requires
        0 <= i < accounts.len(),
    ensures
        marked_all(accounts, codex).len() == accounts.len(),
        marked_all(accounts, codex)[i] == (AccountView {
            codex_active: marked_all(accounts, codex)[i].codex_active,
            ..accounts[i]
        }),
        codex is None ==> !marked_all(accounts, codex)[i].codex_active,
        codex matches Some(current) ==> (marked_all(accounts, codex)[i].codex_active <==> (
        !is_blank(accounts[i].account_id) && trimmed(accounts[i].account_id) == trimmed(
            current.account_id,
        )) || (!is_blank(accounts[i].email) && eq_ignore_case(
            trimmed(accounts[i].email),
            trimmed(current.email),
        ))),
{
    match codex {
        Some(current) => lemma_same_account(accounts[i], current),
        None => {},
    }
}

/// The active account is taken over where it has a token and an id, as any account is stored; without
/// one the store stays as it is.
pub proof fn lemma_imported(items: Seq<ManagedView>, codex: Option<AccountView>)
    ensures
        codex is None ==> imported(items, codex) == items,
        codex matches Some(current) ==> (!is_blank(current.access_token) && !is_blank(
            current.account_id,
        ) ==> imported(items, codex) == upserted(items, managed_item(current))),
        codex matches Some(current) ==> (is_blank(current.access_token) || is_blank(
            current.account_id,
        ) ==> imported(items, codex) == items),
{
}

} // verus!
