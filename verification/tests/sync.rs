use codex_switcher::account::{
    Account, AccountStore, AppSettings, CachedQuota, DiskAuth, KeepaliveState, TokenResponse,
};
use codex_switcher::clock::Timestamp;
use codex_switcher::json::{parse, Json};
use codex_switcher::sync::{
    check_sync_conflict, detect_sync_conflict_for_current, get_sync_status,
    sync_active_with_disk, sync_current_auth_to_account,
};

fn settings() -> AppSettings {
    AppSettings {
        background_refresh: false,
        refresh_interval_minutes: 30,
        inactive_refresh_days: 7,
        proxy_enabled: false,
        proxy_port: 18080,
        proxy_allow_lan: false,
        proxy_threshold_5h: 0,
        proxy_threshold_weekly: 0,
        proxy_free_guard: 0,
        quota_refresh_enabled: false,
        quota_refresh_interval: 5,
        quota_refresh_batch: 3,
        allow_auto_switch_to_free: false,
        notify_on_switch: false,
        inject_switch_message: false,
    }
}

fn test_auth(account_id: &str, refresh_token: &str) -> Json {
    parse(&format!(
        "{{\"tokens\":{{\"account_id\":\"{}\",\"refresh_token\":\"{}\"}}}}",
        account_id, refresh_token
    ))
    .unwrap()
}

fn disk(auth: Json, email: Option<&str>) -> DiskAuth {
    DiskAuth { auth, email: email.map(|e| e.to_string()) }
}

fn test_account(name: &str, account_id: &str, refresh_token: &str) -> Account {
    let auth_json = test_auth(account_id, refresh_token);
    let refresh = AccountStore::extract_refresh_token(&auth_json);
    Account {
        id: "acc-1".to_string(),
        name: name.to_string(),
        auth_json,
        email: None,
        refresh_token: refresh,
        created_at: Timestamp { secs: 0, nanos: 0 },
        last_used: None,
        notes: None,
        cached_quota: None,
        keepalive: KeepaliveState {
            inactive_refresh_enabled: false,
            last_attempt: None,
            last_error: None,
        },
        is_banned: false,
        is_token_invalid: false,
        is_logged_out: false,
    }
}

fn store_of(accounts: Vec<Account>, current: Option<&str>) -> AccountStore {
    AccountStore { accounts, current: current.map(|c| c.to_string()), settings: settings() }
}

#[test]
fn sync_conflict_is_ignored_when_identity_mismatch() {
    let current = test_account("current", "acct-local", "rt-local");
    let disk_auth = disk(test_auth("acct-disk", "rt-new"), None);

    assert_eq!(detect_sync_conflict_for_current(&current, &disk_auth), None);
}

#[test]
fn sync_conflict_is_reported_when_identity_matches_and_refresh_token_changed() {
    let current = test_account("current", "acct-1", "rt-local");
    let disk_auth = disk(test_auth("acct-1", "rt-new"), None);

    assert_eq!(
        detect_sync_conflict_for_current(&current, &disk_auth),
        Some("current".to_string())
    );
}

#[test]
fn a_conflict_names_another_address() {
    let current = test_account("current", "acct-1", "rt-local");
    let other = disk(test_auth("acct-1", "rt-new"), Some("me@example.com"));
    assert_eq!(
        detect_sync_conflict_for_current(&current, &other),
        Some("current (me@example.com)".to_string())
    );
    let same = disk(test_auth("acct-1", "rt-new"), Some("current"));
    assert_eq!(detect_sync_conflict_for_current(&current, &same), Some("current".to_string()));
}

#[test]
fn the_same_token_is_no_conflict() {
    let store = store_of(vec![test_account("current", "acct-1", "rt")], Some("acc-1"));
    assert_eq!(check_sync_conflict(&store, &Some(disk(test_auth("acct-1", "rt"), None))), None);
    assert_eq!(check_sync_conflict(&store, &None), None);
    assert_eq!(
        check_sync_conflict(&store, &Some(disk(test_auth("acct-1", "rt2"), None))),
        Some("current".to_string())
    );
}

#[test]
fn taking_a_document_over_ends_the_conflict() {
    let mut store = store_of(vec![test_account("current", "acct-1", "rt")], Some("acc-1"));
    let d = disk(test_auth("acct-1", "rt2"), Some("me@example.com"));
    assert!(sync_current_auth_to_account(&mut store, "acc-1", &d).is_ok());
    assert_eq!(store.accounts[0].refresh_token, Some("rt2".to_string()));
    assert_eq!(store.accounts[0].email, Some("me@example.com".to_string()));
    assert_eq!(check_sync_conflict(&store, &Some(d)), None);
}

#[test]
fn a_document_of_another_identity_is_not_taken_over() {
    let mut store = store_of(vec![test_account("current", "acct-1", "rt")], Some("acc-1"));
    let d = disk(test_auth("acct-2", "rt2"), None);
    assert_eq!(
        sync_current_auth_to_account(&mut store, "acc-1", &d),
        Err("Sync failed: Account not found or User ID mismatch".to_string())
    );
    assert_eq!(store.accounts[0].refresh_token, Some("rt".to_string()));
    assert!(sync_current_auth_to_account(&mut store, "acc-9", &d).is_err());
}

#[test]
fn without_a_document_all_is_in_step() {
    let store = store_of(vec![test_account("a", "acct-1", "rt")], Some("acc-1"));
    let s = get_sync_status(&store, &None);
    assert!(s.is_synced);
    assert_eq!(s.disk_email, None);
    assert_eq!(s.matching_id, None);
    assert_eq!(s.current_id, Some("acc-1".to_string()));
}

#[test]
fn the_active_account_is_known_by_identity_or_by_name() {
    let store = store_of(vec![test_account("Me@Example.com", "acct-1", "rt")], Some("acc-1"));
    let by_identity = get_sync_status(&store, &Some(disk(test_auth("acct-1", "x"), None)));
    assert!(by_identity.is_synced);
    assert_eq!(by_identity.matching_id, Some("acc-1".to_string()));
    let by_name =
        get_sync_status(&store, &Some(disk(test_auth("acct-9", "x"), Some("me@example.com"))));
    assert!(by_name.is_synced);
}

#[test]
fn alignment_makes_the_account_on_disk_active() {
    let mut other = test_account("b@example.com", "acct-2", "rt-2");
    other.id = "acc-2".to_string();
    let mut store = store_of(vec![test_account("a", "acct-1", "rt"), other], Some("acc-1"));
    let d = disk(test_auth("acct-2", "x"), Some("B@example.com"));
    let s = get_sync_status(&store, &Some(disk(test_auth("acct-2", "x"), Some("B@example.com"))));
    assert!(!s.is_synced);
    assert_eq!(s.matching_id, Some("acc-2".to_string()));
    assert!(sync_active_with_disk(&mut store, &d).is_ok());
    assert_eq!(store.current, Some("acc-2".to_string()));
    assert_eq!(store.accounts[1].refresh_token, Some("rt-2".to_string()));
    assert!(get_sync_status(&store, &Some(d)).is_synced);
}

#[test]
fn a_stranger_on_disk_is_refused() {
    let mut store = store_of(vec![test_account("a", "acct-1", "rt")], None);
    let d = disk(test_auth("acct-7", "x"), None);
    assert_eq!(
        sync_active_with_disk(&mut store, &d),
        Err("Disk account not in management list, please import first".to_string())
    );
    let s = get_sync_status(&store, &Some(d));
    assert!(s.is_synced);
    assert_eq!(s.matching_id, None);
}

#[test]
fn account_ids_are_read_from_either_place() {
    let top = parse("{\"account_id\":\"top\",\"tokens\":{\"account_id\":\"in\"}}").unwrap();
    assert_eq!(AccountStore::extract_account_id(&top), Some("top".to_string()));
    let null = parse("{\"account_id\":null,\"tokens\":{\"account_id\":\"in\"}}").unwrap();
    assert_eq!(AccountStore::extract_account_id(&null), None);
    let inner = parse("{\"tokens\":{\"account_id\":\"in\"}}").unwrap();
    assert_eq!(AccountStore::extract_account_id(&inner), Some("in".to_string()));
    assert!(AccountStore::auth_identity_matches(&inner, &inner));
    assert!(!AccountStore::auth_identity_matches(&null, &null));
}

#[test]
fn refreshed_tokens_stand_in_the_document() {
    let mut a = test_account("a", "acct-1", "rt-old");
    a.cached_quota = Some(CachedQuota {
        five_hour_left: 5,
        five_hour_reset: String::new(),
        five_hour_reset_at: None,
        five_hour_label: String::new(),
        weekly_left: 6,
        weekly_reset: String::new(),
        weekly_reset_at: None,
        weekly_label: String::new(),
        plan_type: "plus".to_string(),
        is_valid_for_cli: true,
        updated_at: Timestamp { secs: 0, nanos: 0 },
    });
    let new = TokenResponse {
        access_token: "at".to_string(),
        refresh_token: None,
        id_token: Some("it".to_string()),
        expires_in: Some(3600),
        email: Some("x@y".to_string()),
    };
    AccountStore::apply_refreshed_tokens(&mut a, &new, Timestamp { secs: 0, nanos: 0 });
    let t = a.auth_json.get("tokens").unwrap();
    assert_eq!(t.get("access_token").unwrap().as_str(), Some("at"));
    assert_eq!(t.get("refresh_token").unwrap().as_str(), Some("rt-old"));
    assert_eq!(t.get("id_token").unwrap().as_str(), Some("it"));
    assert_eq!(t.get("expires_at").unwrap().as_str(), Some("1970-01-01T01:00:00+00:00"));
    assert_eq!(
        a.auth_json.get("last_refresh").unwrap().as_str(),
        Some("1970-01-01T00:00:00+00:00")
    );
    assert_eq!(a.refresh_token, Some("rt-old".to_string()));
    assert_eq!(a.email, Some("x@y".to_string()));
    assert_eq!(a.cached_quota.unwrap().five_hour_left, 5);
}

#[test]
fn a_known_refresh_token_is_put_back() {
    let mut a = test_account("a", "acct-1", "rt-old");
    a.auth_json = parse("{\"tokens\":{\"account_id\":\"acct-1\"}}").unwrap();
    let new = TokenResponse {
        access_token: "at".to_string(),
        refresh_token: None,
        id_token: None,
        expires_in: None,
        email: None,
    };
    AccountStore::apply_refreshed_tokens(&mut a, &new, Timestamp { secs: 0, nanos: 0 });
    assert_eq!(
        a.auth_json.get("tokens").unwrap().get("refresh_token").unwrap().as_str(),
        Some("rt-old")
    );
    assert!(a.auth_json.get("tokens").unwrap().get("expires_at").is_none());
}
