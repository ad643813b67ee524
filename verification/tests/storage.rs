use base64::Engine;
use codex_account_switcher::claims::{
    claims_from_bytes, claims_from_payload, parse_access_token, token_payload,
};
use codex_account_switcher::codex_auth::{
    account_in_file, apply_account_to_codex, delete_codex_auth_account, empty_json_map,
    file_with_account, file_without_account, load_codex_account, read_json_map,
    read_json_map_or_default, require_object, write_json_map, AuthFileError,
};
use codex_account_switcher::model::AccountRecord;
use codex_account_switcher::storage::{
    delete_account, load_accounts, load_managed_accounts, managed_to_record, same_identity,
    to_managed, upsert_managed_account, ManagedAccount, ManagedStore, StorageError,
};
use codex_account_switcher::timestamp::Timestamp;
use serde_json::Value;

const UUID: &str = "123e4567-e89b-12d3-a456-426614174000";

fn token(payload: &str) -> String {
    let part = base64::engine::general_purpose::URL_SAFE_NO_PAD.encode(payload);
    format!("head.{part}.tail")
}

fn json(text: &str) -> Value {
    serde_json::from_str(text).expect("valid JSON")
}

fn account(label: &str, email: &str, id: &str, access_token: &str) -> AccountRecord {
    AccountRecord {
        label: label.to_string(),
        email: email.to_string(),
        account_id: id.to_string(),
        access_token: access_token.to_string(),
        ..Default::default()
    }
}

fn stored(label: &str, id: &str, access_token: &str, expires_at_ms: i64) -> ManagedAccount {
    ManagedAccount {
        label: label.to_string(),
        account_id: id.to_string(),
        access_token: access_token.to_string(),
        expires_at_ms,
        ..Default::default()
    }
}

#[test]
fn claims_are_read_from_tokens() {
    let claims = parse_access_token(&format!(
        "  {}  ",
        token(
            r#"{"cid":" c ","clientId":"d","https://api.openai.com/auth":{"chatgpt_account_id":" acc "},
                "account_id":"other","sub":"123e4567-e89b-12d3-a456-426614174000","email":" a@b.c ","exp":1700000000}"#
        )
    ));
    assert_eq!(claims.client_id, "c");
    assert_eq!(claims.account_id, UUID);
    assert_eq!(claims.email, "a@b.c");
    let expiry = claims.expires_at.expect("an expiry");
    assert_eq!((expiry.secs(), expiry.nanos()), (1_700_000_000, 0));
}

#[test]
fn claims_of_the_authentication_service() {
    let id = |payload: &str| parse_access_token(&token(payload)).account_id;
    assert_eq!(id(r#"{"https://api.openai.com/auth":" raw ","account_id":"b"}"#), "raw");
    assert_eq!(id(r#"{"https://api.openai.com/auth":{"chatgpt_account_id":" in "}}"#), "in");
    assert_eq!(id(r#"{"https://api.openai.com/auth":7,"account_id":" b "}"#), "b");
    assert_eq!(id(r#"{"sub":"s"}"#), "s");
    assert_eq!(id("[]"), "");
}

#[test]
fn tokens_without_claims() {
    for bad in ["", "  ", "abc", "a.!!!.c", "a..c"] {
        let claims = parse_access_token(bad);
        assert_eq!(
            (claims.client_id.as_str(), claims.account_id.as_str(), claims.email.as_str()),
            ("", "", "")
        );
        assert!(claims.expires_at.is_none());
    }
    assert_eq!(token_payload("x.y.z").as_deref(), Some("y"));
    assert_eq!(token_payload(" x. ").as_deref(), Some(""));
    assert!(token_payload("xy").is_none());
    assert!(claims_from_bytes(b"{").email.is_empty());
    assert_eq!(claims_from_payload(&json(r#"{"email":"e"}"#)).email, "e");
    assert!(claims_from_payload(&json(r#"{"exp":1.5}"#)).expires_at.is_none());
    assert!(claims_from_payload(&json(r#"{"exp":9000000000000}"#)).expires_at.is_none());
    assert!(claims_from_payload(&json(r#"{"exp":-5}"#)).expires_at.is_some());
}

#[test]
fn accounts_are_stored_with_their_claims() {
    let mut a = account(" L ", " ", "x", "");
    a.access_token = format!(
        " {} ",
        token(r#"{"email":"e@x","client_id":"cid","sub":"123e4567-e89b-12d3-a456-426614174000","exp":10}"#)
    );
    a.refresh_token = " r ".to_string();
    let item = to_managed(&a);
    assert_eq!(item.label, "L");
    assert_eq!(item.email, "e@x");
    assert_eq!(item.account_id, UUID);
    assert_eq!(item.access_token, a.access_token.trim());
    assert_eq!(item.refresh_token, "r");
    assert_eq!(item.expires_at_ms, 10_000);
    assert_eq!(item.client_id, "cid");
    a.expires_at = Timestamp::new(-2, 999_999_999);
    assert_eq!(to_managed(&a).expires_at_ms, -1001);
}

#[test]
fn accounts_that_cannot_be_stored() {
    let mut store = ManagedStore::default();
    let r = upsert_managed_account(&mut store, &account("", "", "id", " "));
    assert_eq!(r, Err(StorageError::EmptyAccessToken));
    let r = upsert_managed_account(&mut store, &account("", "", " ", "t"));
    assert_eq!(r, Err(StorageError::MissingAccountId));
    assert!(store.accounts.is_empty());
    assert_eq!(StorageError::EmptyAccessToken.message(), "access token is empty");
    assert_eq!(StorageError::MissingAccountId.message(), "account_id is missing");
}

#[test]
fn storing_twice_is_storing_once() {
    let mut store = ManagedStore::default();
    let mut a = account("A", "a@x", "one", "t1");
    a.expires_at = Timestamp::new(100, 0);
    upsert_managed_account(&mut store, &account("B", "b@x", "two", "t2")).expect("stored");
    upsert_managed_account(&mut store, &a).expect("stored");
    let once = format!("{store:?}");
    upsert_managed_account(&mut store, &a).expect("stored");
    assert_eq!(format!("{store:?}"), once);
    assert_eq!(store.accounts.len(), 2);
    assert_eq!(store.accounts[1].account_id, "one");
}

#[test]
fn stored_account_is_loaded_with_its_expiry() {
    let mut store = ManagedStore::default();
    let mut a = account("A", "a@x", " one ", " t1 ");
    a.refresh_token = " r ".to_string();
    a.expires_at = Timestamp::new(100, 123_456_789);
    upsert_managed_account(&mut store, &a).expect("stored");
    let back = &load_managed_accounts(&store)[0];
    assert_eq!((back.account_id.as_str(), back.access_token.as_str()), ("one", "t1"));
    assert_eq!(back.refresh_token, "r");
    let expiry = back.expires_at.expect("an expiry");
    assert_eq!((expiry.secs(), expiry.nanos()), (100, 123_000_000));
}

#[test]
fn account_in_the_authentication_file_is_marked() {
    let root = json(&format!(
        r#"{{"tokens":{{"access_token":"{}","account_id":"short"}}}}"#,
        token(r#"{"sub":"123e4567-e89b-12d3-a456-426614174000"}"#)
    ));
    let current = load_codex_account(&root).expect("an account");
    assert_eq!(current.account_id, UUID);
    let mut store = ManagedStore { accounts: vec![stored("x", UUID, "old", 5)] };
    let (accounts, changed) = load_accounts(&mut store, Some(&current));
    assert!(changed && accounts.len() == 1 && accounts[0].codex_active);
}

#[test]
fn newer_tokens_replace_older_ones() {
    let mut store = ManagedStore {
        accounts: vec![ManagedAccount {
            refresh_token: "old-r".to_string(),
            client_id: "old-c".to_string(),
            ..stored("kept", " one ", "old", 1000)
        }],
    };
    let mut a = account("new label", "e", "one", "new");
    a.expires_at = Timestamp::new(2, 0);
    a.client_id = "new-c".to_string();
    upsert_managed_account(&mut store, &a).expect("stored");
    let item = &store.accounts[0];
    assert_eq!(store.accounts.len(), 1);
    assert_eq!(
        (item.label.as_str(), item.email.as_str(), item.account_id.as_str()),
        ("kept", "e", " one ")
    );
    assert_eq!((item.access_token.as_str(), item.expires_at_ms), ("new", 2000));
    assert_eq!((item.refresh_token.as_str(), item.client_id.as_str()), ("old-r", "new-c"));
    a.access_token = "older".to_string();
    a.refresh_token = "older-r".to_string();
    a.expires_at = Timestamp::new(1, 0);
    upsert_managed_account(&mut store, &a).expect("stored");
    assert_eq!(store.accounts[0].access_token, "new");
    assert_eq!(store.accounts[0].refresh_token, "old-r");
}

#[test]
fn lost_tokens_are_filled_in() {
    let mut store = ManagedStore { accounts: vec![stored("", "one", " ", 5000)] };
    let mut a = account("", "", "one", "found");
    a.expires_at = Timestamp::new(1, 0);
    upsert_managed_account(&mut store, &a).expect("stored");
    assert_eq!(store.accounts[0].access_token, "found");
    assert_eq!(store.accounts[0].expires_at_ms, 1000);
}

#[test]
fn stored_accounts_become_records() {
    let mut item = stored(" ", "x", &token(r#"{"email":"e@x","cid":"c","exp":7}"#), 0);
    item.email = " own@x ".to_string();
    let r = managed_to_record(&item);
    assert_eq!((r.label.as_str(), r.email.as_str(), r.client_id.as_str()), ("own@x", "own@x", "c"));
    assert_eq!(r.expires_at.expect("claimed").secs(), 7);
    assert!(r.managed && !r.codex_active);
    item.expires_at_ms = 1_234;
    let expiry = managed_to_record(&item).expires_at.expect("own");
    assert_eq!((expiry.secs(), expiry.nanos()), (1, 234_000_000));
    item.expires_at_ms = i64::MAX;
    assert!(managed_to_record(&item).expires_at.is_none());
}

#[test]
fn accounts_are_loaded_by_name() {
    let store = ManagedStore {
        accounts: vec![
            stored("\u{c4}b", "1", "t", 0),
            stored("b", "2", "t", 0),
            stored("none", "3", " ", 0),
            stored("A", "4", "t", 0),
            stored("B", "5", "t", 0),
        ],
    };
    let ids: Vec<String> =
        load_managed_accounts(&store).into_iter().map(|a| a.account_id).collect();
    assert_eq!(ids, vec!["4", "2", "5", "1"]);
}

#[test]
fn active_account_is_taken_over_and_marked() {
    let mut store = ManagedStore { accounts: vec![stored("one", "1", "t", 0)] };
    let codex = account("two", "", "2", "t2");
    let (accounts, changed) = load_accounts(&mut store, Some(&codex));
    assert!(changed);
    assert_eq!(store.accounts.len(), 2);
    let flags: Vec<(String, bool)> =
        accounts.into_iter().map(|a| (a.account_id, a.codex_active)).collect();
    assert_eq!(flags, vec![("1".to_string(), false), ("2".to_string(), true)]);
    let (accounts, changed) = load_accounts(&mut store, None);
    assert!(!changed && accounts.iter().all(|a| !a.codex_active));
    let nameless = account("", "", "", "t");
    let (_, changed) = load_accounts(&mut store, Some(&nameless));
    assert!(!changed && store.accounts.len() == 2);
}

#[test]
fn deleted_accounts_do_not_come_back() {
    let mut store = ManagedStore {
        accounts: vec![stored("a", "1", "t", 0), stored("b", "2", "t", 0), stored("c", "1 ", "t", 0)],
    };
    let mut gone = account("", "", " 1", "");
    gone.codex_active = true;
    let d = delete_account(&mut store, &gone);
    assert!(d.changed && d.clears_codex);
    assert_eq!(store.accounts.len(), 1);
    assert!(load_managed_accounts(&store).iter().all(|a| !same_identity(&gone, a)));
    let d = delete_account(&mut store, &gone);
    assert!(!d.changed);
    gone.codex_active = false;
    assert!(!delete_account(&mut store, &gone).clears_codex);
}

#[test]
fn identities() {
    let same = |a: &AccountRecord, b: &AccountRecord| {
        let r = same_identity(a, b);
        assert_eq!(r, same_identity(b, a));
        r
    };
    assert!(same(&account("", "", " 1 ", ""), &account("", "", "1", "")));
    assert!(same(&account("", " A@b ", "1", ""), &account("", "a@B", "2", "")));
    assert!(!same(&account("", "", "", ""), &account("", "", "", "")));
    assert!(!same(&account("", "a", "1", ""), &account("", "b", "2", "")));
}

#[test]
fn authentication_files_are_objects() {
    assert!(read_json_map(b"{\"a\":1}").is_ok());
    assert_eq!(read_json_map(b"[1]"), Err(AuthFileError::NotAnObject));
    assert_eq!(read_json_map(b"{"), Err(AuthFileError::Undecodable));
    assert_eq!(require_object(json("1")), Err(AuthFileError::NotAnObject));
    assert_eq!(empty_json_map(), json("{}"));
}

#[test]
fn applied_account_is_read_back() {
    let mut root = json(
        r#"{"OPENAI_API_KEY":null,"tokens":{"id_token":"x","account_id":"old","keep":[1]},"last_refresh":"y"}"#,
    );
    let mut a = account("", "", " acc ", "");
    a.access_token = token(r#"{"email":"e@x","exp":9}"#);
    a.refresh_token = " r ".to_string();
    apply_account_to_codex(&mut root, &a, Timestamp::new(1_700_000_000, 0).expect("a time"));
    assert_eq!(root["tokens"]["access_token"], a.access_token.as_str());
    assert_eq!(root["tokens"]["id_token"], a.access_token.as_str());
    assert_eq!(root["tokens"]["refresh_token"], " r ");
    assert_eq!(root["tokens"]["account_id"], " acc ");
    assert_eq!(root["tokens"]["keep"], json("[1]"));
    assert_eq!(root["OPENAI_API_KEY"], Value::Null);
    assert_eq!(root["last_refresh"], "2023-11-14T22:13:20+00:00");
    let back = load_codex_account(&root).expect("an account");
    assert_eq!(back.access_token, a.access_token);
    assert_eq!((back.account_id.as_str(), back.refresh_token.as_str()), ("acc", "r"));
    assert_eq!((back.label.as_str(), back.email.as_str()), ("e@x", "e@x"));
    assert!(back.codex_active && !back.managed);
    assert!(same_identity(&a, &back));
}

#[test]
fn written_files_are_read_back() {
    let now = Timestamp::new(0, 0).expect("a time");
    let mut a = account("", "", "acc", "t\u{e4}\"\n");
    a.refresh_token = "r".to_string();
    let text = file_with_account(None, &a, now).expect("a text");
    let back = account_in_file(Some(text.as_bytes())).expect("a file").expect("an account");
    assert_eq!(back.access_token, "t\u{e4}\"");
    assert_eq!((back.account_id.as_str(), back.refresh_token.as_str()), ("acc", "r"));
    let more = file_with_account(Some(br#"{"z":[-5,18446744073709551615],"a":{}}"#), &a, now);
    let root = read_json_map(more.expect("a text").as_bytes()).expect("an object");
    assert_eq!(root["z"], json("[-5,18446744073709551615]"));
    let cleared = file_without_account(text.as_bytes()).expect("a text");
    assert_eq!(account_in_file(Some(cleared.as_bytes())).expect("a file").map(|a| a.key()), None);
    assert!(account_in_file(None).expect("no file").is_none());
    assert_eq!(file_with_account(Some(b"[]"), &a, now), Err(AuthFileError::NotAnObject));
    assert_eq!(file_without_account(b"{"), Err(AuthFileError::Undecodable));
    assert_eq!(read_json_map_or_default(None), Ok(json("{}")));
    let tree = json(r#"{"b":1,"a":[true,null]}"#);
    assert_eq!(
        write_json_map(&tree).expect("a text"),
        "{\n  \"a\": [\n    true,\n    null\n  ],\n  \"b\": 1\n}"
    );
}

#[test]
fn every_file_is_written() {
    let now = Timestamp::new(0, 0).expect("a time");
    let a = account("", "", "acc", "t");
    let nested = |levels: usize| {
        let mut value = json("[]");
        for _ in 1..levels {
            value = serde_json::Value::Array(vec![value]);
        }
        let mut root = json("{}");
        root["z"] = value;
        root
    };
    // With the object around them, the deepest arrays that are read again.
    let deepest = write_json_map(&nested(126)).expect("a text");
    assert_eq!(read_json_map(deepest.as_bytes()), Ok(nested(126)));
    let text = file_with_account(Some(deepest.as_bytes()), &a, now).expect("a text");
    assert_eq!(read_json_map(text.as_bytes()).expect("an object")["z"], nested(126)["z"]);
    let deeper = write_json_map(&nested(127)).expect("a text");
    assert_eq!(read_json_map(deeper.as_bytes()), Err(AuthFileError::Undecodable));
    let fraction = file_without_account(br#"{"z":0.1}"#).expect("a text");
    assert_eq!(fraction, "{\n  \"tokens\": {},\n  \"z\": 0.1\n}");
}

#[test]
fn floats_are_read_back_as_floats() {
    let now = Timestamp::new(0, 0).expect("a time");
    let a = account("", "", "acc", "t");
    let top = f64::MAX.to_bits();
    let mut values = vec![0.1, -0.0, 1.0, 1e15, 1e16, 123456789012345680000.0, 5e-324, 2.5e-308];
    values.extend((0..64).map(|k| f64::from_bits(top - k)));
    for value in values {
        let mut root = json("{}");
        root["z"] = serde_json::Value::from(vec![value, -value]);
        let text = write_json_map(&root).expect("a text");
        let text = file_with_account(Some(text.as_bytes()), &a, now).expect("a text");
        let back = account_in_file(Some(text.as_bytes())).expect("a file").expect("an account");
        assert_eq!((back.access_token.as_str(), back.account_id.as_str()), ("t", "acc"));
        let read = read_json_map(text.as_bytes()).expect("an object");
        assert!(read["z"][0].is_f64() && read["z"][1].is_f64(), "{value:e}");
        let text = file_without_account(text.as_bytes()).expect("a text");
        assert!(account_in_file(Some(text.as_bytes())).expect("a file").is_none());
        let read = read_json_map(text.as_bytes()).expect("an object");
        assert!(read["z"][0].is_f64() && read["z"][1].is_f64(), "{value:e}");
    }
}

#[test]
fn applying_leaves_what_is_blank() {
    let mut root = json(r#"{"tokens":"none"}"#);
    apply_account_to_codex(&mut root, &account("", "", " ", "t"), Timestamp::new(0, 0).expect("t"));
    assert_eq!(root["tokens"], json(r#"{"access_token":"t","id_token":"t"}"#));
}

#[test]
fn cleared_file_has_no_account() {
    let mut root = json(
        r#"{"a":1,"tokens":{"access_token":"t","refresh_token":"r","account_id":"i","id_token":"k"}}"#,
    );
    delete_codex_auth_account(&mut root);
    assert_eq!(root, json(r#"{"a":1,"tokens":{"id_token":"k"}}"#));
    assert!(load_codex_account(&root).is_none());
    assert!(load_codex_account(&json("{}")).is_none());
    assert!(load_codex_account(&json(r#"{"tokens":{"access_token":" "}}"#)).is_none());
}
