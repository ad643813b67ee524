//! The authentication file of Codex, which holds the tokens of the active account.
use vstd::prelude::*;
use vstd::string::*;

use crate::claims::parse_access_token;
use crate::identity::canonical_account_id;
use crate::json;
use crate::model::{AccountRecord, QuotaState};
use crate::text::{blank, trim_text};
use crate::timestamp::{timestamp_to_rfc3339, Timestamp};

#[allow(unused_imports)]
use vstd::utf8::*;

#[allow(unused_imports)]
use crate::json::JsonTree;
#[allow(unused_imports)]
use crate::model::{AccountView, QuotaView};

verus! {

/// Why the authentication file cannot be used. `Unwritable` is for a value that has no JSON text; every
/// value has one.
#[derive(Clone, Copy, Debug, PartialEq, Eq, Structural)]
pub enum AuthFileError {
    Undecodable,
    NotAnObject,
    Unwritable,
}

/// What the bytes of an authentication file hold.
pub open spec fn auth_document(bytes: Seq<u8>) -> Result<JsonTree, AuthFileError> {
    match json::json_document(bytes) {
        Some(tree) => checked_root(tree),
        None => Err(AuthFileError::Undecodable),
    }
}

/// An authentication file is an object.
pub open spec fn checked_root(tree: JsonTree) -> Result<JsonTree, AuthFileError> {
    if tree is Object {
        Ok(tree)
    } else {
        Err(AuthFileError::NotAnObject)
    }
}

/// The tree of a value that was read.
pub open spec fn root_tree(r: Result<serde_json::Value, AuthFileError>) -> Result<
    JsonTree,
    AuthFileError,
> {
    match r {
        Ok(v) => Ok(json::json_tree(v)),
        Err(error) => Err(error),
    }
}

/// Accepts a value that is an object.
pub fn require_object(value: serde_json::Value) -> (r: Result<serde_json::Value, AuthFileError>)
    ensures
        root_tree(r) == checked_root(json::json_tree(value)),
{
    if json::is_object(&value) {
        Ok(value)
    } else {
        Err(AuthFileError::NotAnObject)
    }
}

/// Reads an authentication file. One that can be read has at most 127 levels.
pub fn read_json_map(bytes: &[u8]) -> (r: Result<serde_json::Value, AuthFileError>)
    ensures
        root_tree(r) == auth_document(bytes@),
        r matches Ok(root) ==> json::is_shallow(json::json_tree(root), 127, true),
{
    match json::parse(bytes) {
        Some(value) => require_object(value),
        None => Err(AuthFileError::Undecodable),
    }
}

/// An authentication file without members.
pub fn empty_json_map() -> (r: serde_json::Value)
    ensures
        json::json_tree(r) == JsonTree::Object(Map::empty()),
{
    json::new_object()
}

/// The text of a member of the tokens, empty where there is none.
pub open spec fn token_text(root: JsonTree, key: Seq<char>) -> Seq<char> {
    match root.member("tokens"@) {
        Some(tokens) => tokens.member_text(key),
        None => Seq::empty(),
    }
}

/// The account whose tokens the file holds. There is none without an access token.
pub open spec fn codex_account(root: JsonTree) -> Option<AccountView> {
    let access_token = crate::text::trimmed(token_text(root, "access_token"@));
    if access_token.len() == 0 {
        None
    } else {
        let claims = crate::claims::claims_of(access_token);
        Some(
            AccountView {
                label: claims.email,
                email: claims.email,
                account_id: crate::identity::canonical(
                    seq![token_text(root, "account_id"@), claims.account_id],
                ),
                access_token,
                refresh_token: crate::text::trimmed(token_text(root, "refresh_token"@)),
                expires_at: claims.expires_at,
                client_id: claims.client_id,
                managed: false,
                codex_active: true,
                quota: QuotaView::Idle,
            },
        )
    }
}

fn stored_token<'a>(root: &'a serde_json::Value, key: &str) -> (r: &'a str)
    ensures
        r@ == token_text(json::json_tree(*root), key@),
{
    match json::member(root, "tokens") {
        Some(tokens) => json::member_text(tokens, key),
        None => {
            assert(""@ =~= Seq::empty()) by {
                reveal_strlit("");
            }
            ""
        },
    }
}

/// The view of an account that may be missing.
pub open spec fn owned_view(a: Option<AccountRecord>) -> Option<AccountView> {
    match a {
        Some(a) => Some(a@),
        None => None,
    }
}

/// The account whose tokens the file holds.
pub fn load_codex_account(root: &serde_json::Value) -> (r: Option<AccountRecord>)
    ensures
        owned_view(r) == codex_account(json::json_tree(*root)),
{
    let access_token = trim_text(stored_token(root, "access_token"));
    if access_token.as_str().is_empty() {
        return None;
    }
    let claims = parse_access_token(access_token.as_str());
    let ids = [stored_token(root, "account_id"), claims.account_id.as_str()];
    assert(crate::identity::texts(ids@) =~= seq![
        token_text(json::json_tree(*root), "account_id"@),
        claims.account_id@,
    ]);
    let account_id = canonical_account_id(&ids);
    Some(
        AccountRecord {
            label: claims.email.clone(),
            email: claims.email,
            account_id,
            access_token,
            refresh_token: trim_text(stored_token(root, "refresh_token")),
            expires_at: claims.expires_at,
            client_id: claims.client_id,
            managed: false,
            codex_active: true,
            quota: QuotaState::Idle,
        },
    )
}

/// The member of an object that is itself an object, or an empty one.
pub open spec fn object_member(root: JsonTree, key: Seq<char>) -> JsonTree {
    match root.member(key) {
        Some(JsonTree::Object(members)) => JsonTree::Object(members),
        _ => JsonTree::Object(Map::empty()),
    }
}

/// Takes the member of an object out, or makes an empty object where it is none.
fn object_mut(root: &mut serde_json::Value, key: &str) -> (r: serde_json::Value)
    ensures
        json::json_tree(r) == object_member(json::json_tree(*old(root)), key@),
        json::json_tree(*final(root)) == json::json_tree(*old(root)).without(key@),
{
    match json::take_member(root, key) {
        Some(member) => if json::is_object(&member) {
            member
        } else {
            json::new_object()
        },
        None => json::new_object(),
    }
}

/// The object, with a text set unless it is blank.
pub open spec fn with_text(tree: JsonTree, key: Seq<char>, text: Seq<char>) -> JsonTree {
    if crate::text::is_blank(text) {
        tree
    } else {
        tree.with(key, JsonTree::Text(text))
    }
}

/// The tokens of the file after an account was applied.
pub open spec fn applied_tokens(tokens: JsonTree, account: AccountView) -> JsonTree {
    let both = tokens.with("access_token"@, JsonTree::Text(account.access_token)).with(
        "id_token"@,
        JsonTree::Text(account.access_token),
    );
    with_text(
        with_text(both, "refresh_token"@, account.refresh_token),
        "account_id"@,
        account.account_id,
    )
}

/// The file after an account was applied at a time.
pub open spec fn applied(root: JsonTree, account: AccountView, now: (int, int)) -> JsonTree {
    root.with(
        "tokens"@,
        applied_tokens(object_member(root, "tokens"@), account),
    ).with("last_refresh"@, JsonTree::Text(crate::timestamp::rfc3339_text(now.0, now.1)))
}

/// Writes the tokens of an account into the file.
pub fn apply_account_to_codex(
    root: &mut serde_json::Value,
    account: &AccountRecord,
    now: Timestamp,
)
    requires
        json::json_tree(*old(root)) is Object,
    ensures
        json::json_tree(*final(root)) == applied(json::json_tree(*old(root)), account@, now@),
{
    let ghost start = json::json_tree(*root);
    let mut tokens = object_mut(root, "tokens");
    json::set_member(&mut tokens, "access_token", json::new_text(account.access_token.as_str()));
    json::set_member(&mut tokens, "id_token", json::new_text(account.access_token.as_str()));
    if !blank(account.refresh_token.as_str()) {
        json::set_member(
            &mut tokens,
            "refresh_token",
            json::new_text(account.refresh_token.as_str()),
        );
    }
    if !blank(account.account_id.as_str()) {
        json::set_member(&mut tokens, "account_id", json::new_text(account.account_id.as_str()));
    }
    json::set_member(root, "tokens", tokens);
    proof {
        lemma_put_back(start, "tokens"@, applied_tokens(object_member(start, "tokens"@), account@));
    }
    let last_refresh = timestamp_to_rfc3339(&now);
    json::set_member(root, "last_refresh", json::new_text(last_refresh.as_str()));
}

proof fn lemma_put_back(tree: JsonTree, key: Seq<char>, value: JsonTree)
    requires
        tree is Object,
    ensures
        tree.without(key).with(key, value) == tree.with(key, value),
{
    match tree {
        JsonTree::Object(members) => {
            assert(members.remove(key).insert(key, value) =~= members.insert(key, value));
        },
        _ => {},
    }
}

/// The file after the tokens of the active account were taken out.
pub open spec fn cleared(root: JsonTree) -> JsonTree {
    root.with(
        "tokens"@,
        object_member(root, "tokens"@).without("access_token"@).without("refresh_token"@).without(
            "account_id"@,
        ),
    )
}

/// Takes the tokens of the active account out of the file.
pub fn delete_codex_auth_account(root: &mut serde_json::Value)
    requires
        json::json_tree(*old(root)) is Object,
    ensures
        json::json_tree(*final(root)) == cleared(json::json_tree(*old(root))),
{
    let ghost start = json::json_tree(*root);
    let mut tokens = object_mut(root, "tokens");
    let _ = json::take_member(&mut tokens, "access_token");
    let _ = json::take_member(&mut tokens, "refresh_token");
    let _ = json::take_member(&mut tokens, "account_id");
    let ghost rest = json::json_tree(tokens);
    json::set_member(root, "tokens", tokens);
    proof {
        lemma_put_back(start, "tokens"@, rest);
    }
}

/// What a file holds that may be missing.
pub open spec fn file_root(contents: Option<&[u8]>) -> Result<JsonTree, AuthFileError> {
    match contents {
        Some(bytes) => auth_document(bytes@),
        None => Ok(JsonTree::Object(Map::empty())),
    }
}

/// Reads a file that may be missing.
pub fn read_json_map_or_default(contents: Option<&[u8]>) -> (r: Result<
    serde_json::Value,
    AuthFileError,
>)
    ensures
        root_tree(r) == file_root(contents),
        r matches Ok(root) ==> json::is_shallow(json::json_tree(root), 127, true),
{
    match contents {
        Some(bytes) => read_json_map(bytes),
        None => Ok(empty_json_map()),
    }
}

/// The text of a file. Every file is written. What is written is read again, where the file has at most
/// 127 levels: as it was, but for the values of its floats.
pub fn write_json_map(root: &serde_json::Value) -> (r: Result<String, AuthFileError>)
    ensures
        r matches Ok(text) && text@ == json::json_text(json::json_tree(*root)) && (json::is_shallow(
            json::json_tree(*root),
            127,
            true,
        ) ==> json::reads_back(json::json_document(encode_utf8(text@)), json::json_tree(*root))),
{
    match json::to_text(root) {
        Some(text) => Ok(text),
        None => Err(AuthFileError::Unwritable),
    }
}

/// The account whose tokens a file holds.
pub fn account_in_file(contents: Option<&[u8]>) -> (r: Result<Option<AccountRecord>, AuthFileError>)
    ensures
        match file_root(contents) {
            Ok(root) => r matches Ok(account) && owned_view(account) == codex_account(root),
            Err(error) => r matches Err(e) && e == error,
        },
{
    match read_json_map_or_default(contents) {
        Ok(root) => {
            let account = load_codex_account(&root);
            Ok(account)
        },
        Err(error) => Err(error),
    }
}

/// What becomes of a file that can be read: its new text, which reads as the changed tree, but for the
/// values of floats. Without any, it reads as the changed tree.
pub open spec fn is_rewritten(
    r: Result<String, AuthFileError>,
    root: Result<JsonTree, AuthFileError>,
    changed: spec_fn(JsonTree) -> JsonTree,
) -> bool {
    match root {
        Ok(tree) => r matches Ok(text) && text@ == json::json_text(changed(tree))
            && json::reads_back(json::json_document(encode_utf8(text@)), changed(tree)) && (
        json::is_shallow(tree, 127, false) ==> auth_document(encode_utf8(text@)) == Ok::<
            JsonTree,
            AuthFileError,
        >(changed(tree))),
        Err(error) => r matches Err(e) && e == error,
    }
}

/// The account that a file holds to which another was applied: its access token, its account id and its
/// refresh token where it has them, and for the rest what the claims of its token say.
pub open spec fn is_applied(current: AccountView, account: AccountView) -> bool {
    let token = crate::text::trimmed(account.access_token);
    let claims = crate::claims::claims_of(token);
    &&& current.access_token == token
    &&& !crate::text::is_blank(account.account_id) ==> current.account_id
        == crate::identity::canonical(seq![account.account_id, claims.account_id])
    &&& !crate::text::is_blank(account.refresh_token) ==> current.refresh_token
        == crate::text::trimmed(account.refresh_token)
    &&& current.label == claims.email
    &&& current.email == claims.email
    &&& current.expires_at == claims.expires_at
    &&& current.client_id == claims.client_id
    &&& !current.managed
    &&& current.codex_active
    &&& current.quota == QuotaView::Idle
}

/// The account that a text holds, where it is a file.
pub open spec fn account_of_text(text: Seq<char>) -> Result<Option<AccountView>, AuthFileError> {
    match auth_document(encode_utf8(text)) {
        Ok(root) => Ok(codex_account(root)),
        Err(error) => Err(error),
    }
}

/// The text is a file to which an account was applied.
pub open spec fn holds_applied(text: Seq<char>, account: AccountView) -> bool {
    account_of_text(text) matches Ok(Some(current)) && is_applied(current, account)
}

/// The text of a file after an account was applied. The account is read back from it.
pub fn file_with_account(
    contents: Option<&[u8]>,
    account: &AccountRecord,
    now: Timestamp,
) -> (r: Result<String, AuthFileError>)
    ensures
        is_rewritten(r, file_root(contents), |tree: JsonTree| applied(tree, account@, now@)),
        !crate::text::is_blank(account@.access_token) ==> (r matches Ok(text) ==> holds_applied(
            text@,
            account@,
        )),
{
    match read_json_map_or_default(contents) {
        Ok(root) => {
            let mut root = root;
            let ghost start = json::json_tree(root);
            apply_account_to_codex(&mut root, account, now);
            let r = write_json_map(&root);
            proof {
                lemma_applied_is_shallow(start, account@, now@, 127, true);
                lemma_written_is_read(applied(start, account@, now@), r->Ok_0@);
                if json::is_shallow(start, 127, false) {
                    lemma_applied_is_shallow(start, account@, now@, 127, false);
                }
                if !crate::text::is_blank(account@.access_token) {
                    lemma_applied_is_loaded(start, account@, now@);
                }
            }
            r
        },
        Err(error) => Err(error),
    }
}

/// The text of a file after the tokens of the active account were taken out. It holds no account.
pub fn file_without_account(contents: &[u8]) -> (r: Result<String, AuthFileError>)
    ensures
        is_rewritten(r, auth_document(contents@), |tree: JsonTree| cleared(tree)),
        r matches Ok(text) ==> account_of_text(text@) == Ok::<
            Option<AccountView>,
            AuthFileError,
        >(None),
{
    match read_json_map(contents) {
        Ok(root) => {
            let mut root = root;
            let ghost start = json::json_tree(root);
            delete_codex_auth_account(&mut root);
            let r = write_json_map(&root);
            proof {
                lemma_cleared_is_shallow(start, 127, true);
                lemma_written_is_read(cleared(start), r->Ok_0@);
                if json::is_shallow(start, 127, false) {
                    lemma_cleared_is_shallow(start, 127, false);
                }
                lemma_cleared(start, "tokens"@);
            }
            r
        },
        Err(error) => Err(error),
    }
}

proof fn lemma_object_member_shallow(root: JsonTree, key: Seq<char>, depth: nat, floats: bool)
    requires
        json::is_shallow(root, depth, floats),
        depth >= 2,
    ensures
        json::is_shallow(object_member(root, key), (depth - 1) as nat, floats),
{
    match root {
        JsonTree::Object(members) => {
            if members.contains_key(key) {
                assert(json::is_shallow(members[key], (depth - 1) as nat, floats));
            }
        },
        _ => {},
    }
}

proof fn lemma_with_shallow(
    tree: JsonTree,
    key: Seq<char>,
    value: JsonTree,
    depth: nat,
    floats: bool,
)
    requires
        json::is_shallow(tree, depth, floats),
        depth >= 1,
        json::is_shallow(value, (depth - 1) as nat, floats),
    ensures
        json::is_shallow(tree.with(key, value), depth, floats),
{
}

/// A file to which an account was applied has no more levels than it had, or two, and no floats where
/// it had none.
pub proof fn lemma_applied_is_shallow(
    root: JsonTree,
    account: AccountView,
    now: (int, int),
    depth: nat,
    floats: bool,
)
    requires
        json::is_shallow(root, depth, floats),
        depth >= 2,
    ensures
        json::is_shallow(applied(root, account, now), depth, floats),
{
    let d = (depth - 1) as nat;
    let tokens = object_member(root, "tokens"@);
    lemma_object_member_shallow(root, "tokens"@, depth, floats);
    let token = JsonTree::Text(account.access_token);
    lemma_with_shallow(tokens, "access_token"@, token, d, floats);
    let one = tokens.with("access_token"@, token);
    lemma_with_shallow(one, "id_token"@, token, d, floats);
    let two = one.with("id_token"@, token);
    lemma_with_shallow(two, "refresh_token"@, JsonTree::Text(account.refresh_token), d, floats);
    let three = with_text(two, "refresh_token"@, account.refresh_token);
    lemma_with_shallow(three, "account_id"@, JsonTree::Text(account.account_id), d, floats);
    let all = applied_tokens(tokens, account);
    assert(json::is_shallow(all, d, floats));
    lemma_with_shallow(root, "tokens"@, all, depth, floats);
    let text = JsonTree::Text(crate::timestamp::rfc3339_text(now.0, now.1));
    lemma_with_shallow(root.with("tokens"@, all), "last_refresh"@, text, depth, floats);
}

/// A file from which the tokens were taken out has no more levels than it had, or two, and no floats
/// where it had none.
pub proof fn lemma_cleared_is_shallow(root: JsonTree, depth: nat, floats: bool)
    requires
        json::is_shallow(root, depth, floats),
        depth >= 2,
    ensures
        json::is_shallow(cleared(root), depth, floats),
{
    let d = (depth - 1) as nat;
    let tokens = object_member(root, "tokens"@);
    lemma_object_member_shallow(root, "tokens"@, depth, floats);
    let rest = tokens.without("access_token"@).without("refresh_token"@).without("account_id"@);
    assert(json::is_shallow(rest, d, floats));
    lemma_with_shallow(root, "tokens"@, rest, depth, floats);
}

/// Trees that are alike hold the same tokens.
proof fn lemma_alike_tokens(a: JsonTree, b: JsonTree, depth: nat, key: Seq<char>)
    requires
        json::alike(a, b, depth),
    ensures
        token_text(a, key) == token_text(b, key),
{
    match (a, b) {
        (JsonTree::Object(xs), JsonTree::Object(ys)) => {
            if xs.contains_key("tokens"@) {
                let d = (depth - 1) as nat;
                assert(json::alike(xs["tokens"@], ys["tokens"@], d));
                match (xs["tokens"@], ys["tokens"@]) {
                    (JsonTree::Object(us), JsonTree::Object(vs)) => {
                        if us.contains_key(key) {
                            assert(json::alike(us[key], vs[key], (d - 1) as nat));
                        }
                    },
                    _ => {},
                }
            }
        },
        _ => {},
    }
}

/// A file that was written is read, and holds the account that its tree holds. Without floats, it is
/// read as its tree.
pub proof fn lemma_written_is_read(tree: JsonTree, text: Seq<char>)
    requires
        tree is Object,
        json::reads_back(json::json_document(encode_utf8(text)), tree),
    ensures
        account_of_text(text) == Ok::<Option<AccountView>, AuthFileError>(codex_account(tree)),
        json::is_shallow(tree, 127, false) ==> auth_document(encode_utf8(text)) == Ok::<
            JsonTree,
            AuthFileError,
        >(tree),
{
    let read = json::json_document(encode_utf8(text))->0;
    lemma_alike_tokens(tree, read, 127, "access_token"@);
    lemma_alike_tokens(tree, read, 127, "refresh_token"@);
    lemma_alike_tokens(tree, read, 127, "account_id"@);
    if json::is_shallow(tree, 127, false) {
        json::lemma_alike_is_same(tree, read, 127);
    }
}

proof fn lemma_keys_differ()
    ensures
        "tokens"@ != "last_refresh"@,
        "access_token"@ != "id_token"@,
        "access_token"@ != "refresh_token"@,
        "access_token"@ != "account_id"@,
        "refresh_token"@ != "account_id"@,
        "refresh_token"@ != "id_token"@,
        "account_id"@ != "id_token"@,
{
    reveal_strlit("tokens");
    reveal_strlit("last_refresh");
    reveal_strlit("access_token");
    reveal_strlit("id_token");
    reveal_strlit("refresh_token");
    reveal_strlit("account_id");
    assert("access_token"@.len() == 12);
    assert("refresh_token"@.len() == 13);
    assert("account_id"@.len() == 10);
    assert("id_token"@.len() == 8);
    assert("tokens"@.len() == 6);
    assert("last_refresh"@.len() == 12);
}

/// An account that was applied is the one that the file holds.
pub proof fn lemma_applied_is_loaded(root: JsonTree, account: AccountView, now: (int, int))
    requires
        root is Object,
        !crate::text::is_blank(account.access_token),
    ensures
        codex_account(applied(root, account, now)) matches Some(current) && is_applied(
            current,
            account,
        ),
{
    lemma_keys_differ();
    let after = applied(root, account, now);
    let tokens = applied_tokens(object_member(root, "tokens"@), account);
    assert(after.member("tokens"@) == Some(tokens));
    assert(tokens.member_text("access_token"@) == account.access_token);
}

/// An account that was applied and written is the one that is read from the text.
pub proof fn lemma_written_is_loaded(
    root: JsonTree,
    account: AccountView,
    now: (int, int),
    text: Seq<char>,
)
    requires
        root is Object,
        !crate::text::is_blank(account.access_token),
        json::reads_back(json::json_document(encode_utf8(text)), applied(root, account, now)),
    ensures
        holds_applied(text, account),
{
    lemma_applied_is_loaded(root, account, now);
    lemma_written_is_read(applied(root, account, now), text);
}

/// Members that are alike, or missing from both.
pub open spec fn same_member(a: Option<JsonTree>, b: Option<JsonTree>) -> bool {
    match (a, b) {
        (Some(a), Some(b)) => json::alike(a, b, 126),
        (None, None) => true,
        _ => false,
    }
}

/// Of a file to which an account was applied, or from which the tokens were taken out, the other
/// members are read from the text as they were, but for the values of floats.
pub proof fn lemma_written_keeps_the_rest(
    root: JsonTree,
    account: AccountView,
    now: (int, int),
    text: Seq<char>,
    key: Seq<char>,
)
    requires
        root is Object,
        json::reads_back(json::json_document(encode_utf8(text)), applied(root, account, now))
            || json::reads_back(json::json_document(encode_utf8(text)), cleared(root)),
        key != "tokens"@,
        key != "last_refresh"@,
    ensures
        auth_document(encode_utf8(text)) matches Ok(read) && same_member(
            root.member(key),
            read.member(key),
        ),
{
    lemma_applied_keeps_the_rest(root, account, now, key);
    lemma_cleared(root, key);
    let read = json::json_document(encode_utf8(text))->0;
    let tree = if json::alike(applied(root, account, now), read, 127) {
        applied(root, account, now)
    } else {
        cleared(root)
    };
    assert(json::alike(tree, read, 127));
    match (tree, read) {
        (JsonTree::Object(xs), JsonTree::Object(ys)) => {
            if xs.contains_key(key) {
                assert(json::alike(xs[key], ys[key], 126));
            }
        },
        _ => {},
    }
}

/// An account that was applied is the same as the one that is read back, unless its token belongs to
/// another account.
pub proof fn lemma_applied_is_same(root: JsonTree, account: AccountView, now: (int, int))
    requires
        root is Object,
        !crate::text::is_blank(account.access_token),
        !crate::text::is_blank(account.account_id),
        crate::identity::canonical(
            seq![
                account.account_id,
                crate::claims::claims_of(crate::text::trimmed(account.access_token)).account_id,
            ],
        ) == crate::text::trimmed(account.account_id),
    ensures
        codex_account(applied(root, account, now)) matches Some(current)
            && crate::storage::same_account(account, current),
{
    lemma_applied_is_loaded(root, account, now);
    crate::identity::lemma_canonical_single(account.account_id);
    crate::identity::lemma_canonical_single(crate::text::trimmed(account.account_id));
    crate::text::lemma_trimmed_idempotent(account.account_id);
}

/// Applying an account leaves the other members of the file, and of its tokens, as they were.
pub proof fn lemma_applied_keeps_the_rest(
    root: JsonTree,
    account: AccountView,
    now: (int, int),
    key: Seq<char>,
)
    requires
        root is Object,
    ensures
        key != "tokens"@ && key != "last_refresh"@ ==> applied(root, account, now).member(key)
            == root.member(key),
        key != "access_token"@ && key != "id_token"@ && key != "refresh_token"@ && key
            != "account_id"@ ==> object_member(applied(root, account, now), "tokens"@).member(key)
            == object_member(root, "tokens"@).member(key),
{
    lemma_keys_differ();
    assert(applied(root, account, now).member("tokens"@) == Some(
        applied_tokens(object_member(root, "tokens"@), account),
    ));
}

/// After the tokens were taken out there is no active account, and the rest of the file is as it was.
pub proof fn lemma_cleared(root: JsonTree, key: Seq<char>)
    ensures
        codex_account(cleared(root)) is None,
        key != "tokens"@ ==> cleared(root).member(key) == root.member(key),
{
    lemma_keys_differ();
    assert(token_text(cleared(root), "access_token"@) =~= Seq::empty());
}

/// The account whose tokens the file holds is listed and marked as active, where its id is like a UUID
/// or not stored yet. A stored account of another id goes by the id that its own token claims, where
/// that is like a UUID.
pub proof fn lemma_active_is_marked(
    items: Seq<crate::storage::ManagedView>,
    root: JsonTree,
    current: AccountView,
)
    requires
        codex_account(root) == Some(current),
        current.account_id.len() > 0,
        crate::identity::uuid_like(current.account_id) || crate::storage::place_of(
            items,
            current.account_id,
        ) == items.len(),
    ensures
        exists|a: AccountView| #[trigger]
            crate::storage::marked_all(
                crate::storage::loaded(crate::storage::imported(items, Some(current))),
                Some(current),
            ).contains(a) && a.codex_active && crate::storage::same_account(a, current),
{
    let claims = crate::claims::claims_of(current.access_token);
    let stored_id = token_text(root, "account_id"@);
    let item = crate::storage::managed_item(current);
    let now = crate::storage::upserted(items, item);
    crate::text::lemma_trimmed_idempotent(token_text(root, "access_token"@));
    crate::identity::lemma_canonical(seq![stored_id, claims.account_id]);
    crate::text::lemma_trimmed_fixed(current.account_id);
    crate::identity::lemma_canonical_again(stored_id, claims.account_id);
    assert(item.account_id == current.account_id);
    assert(crate::storage::imports(current));
    assert(crate::storage::upsert_error(current) is None);
    crate::storage::lemma_stored_is_loaded(items, current);
    let i = crate::storage::place_of(items, item.account_id) as int;
    let m = now[i];
    let record = crate::storage::record_of(m);
    crate::identity::lemma_canonical_single(m.account_id);
    crate::identity::lemma_canonical_single(current.account_id);
    assert(record.account_id == current.account_id) by {
        if i < items.len() {
            crate::identity::lemma_canonical_pair(
                m.account_id,
                crate::claims::claims_of(m.access_token).account_id,
            );
        } else {
            crate::claims::lemma_claims_of_trimmed(current.access_token);
        }
    }
    let all = crate::storage::loaded(now);
    let p = choose|p: int| 0 <= p < all.len() && all[p] == record;
    let marked = crate::storage::marked(record, Some(current));
    assert(crate::storage::marked_all(all, Some(current))[p] == marked);
    assert(crate::storage::same_account(record, current));
    assert(crate::storage::same_account(marked, current));
    assert(marked.codex_active);
    assert(crate::storage::imported(items, Some(current)) == now);
    assert(crate::storage::marked_all(
        crate::storage::loaded(crate::storage::imported(items, Some(current))),
        Some(current),
    ).contains(marked));
}

} // verus!
