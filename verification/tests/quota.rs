use codex_switcher::account::{
    Account, AccountStore, AppSettings, CachedQuota, DiskAuth, KeepaliveState, TokenResponse,
};
use codex_switcher::clock::Timestamp;
use codex_switcher::json::parse;
use codex_switcher::quota::{
    allow_local_refresh_for_quota, get_quota_by_id, get_quota_internal, Persist, QuotaAction,
    QuotaEvent, QuotaPhase,
};
use codex_switcher::quota_refresh::{
    refresh_targets, start_quota_refresh, RoundAction, RoundEvent, RoundPhase,
};
use codex_switcher::switch::SwitchReason;
use codex_switcher::usage::UsageDisplay;

const NOW: Timestamp = Timestamp { secs: 1_000, nanos: 0 };

fn settings() -> AppSettings {
    AppSettings {
        background_refresh: false,
        refresh_interval_minutes: 30,
        inactive_refresh_days: 7,
        proxy_enabled: false,
        proxy_port: 18080,
        proxy_allow_lan: false,
        proxy_threshold_5h: 0,
        proxy_threshold_weekly: 0,
        proxy_free_guard: 0,
        quota_refresh_enabled: true,
        quota_refresh_interval: 5,
        quota_refresh_batch: 2,
        allow_auto_switch_to_free: false,
        notify_on_switch: false,
        inject_switch_message: false,
    }
}

fn quota(updated: i64) -> CachedQuota {
    CachedQuota {
        five_hour_left: 40,
        five_hour_reset: String::new(),
        five_hour_reset_at: None,
        five_hour_label: String::new(),
        weekly_left: 60,
        weekly_reset: String::new(),
        weekly_reset_at: None,
        weekly_label: String::new(),
        plan_type: "plus".to_string(),
        is_valid_for_cli: true,
        updated_at: Timestamp { secs: updated, nanos: 0 },
    }
}

fn account(id: &str, auth: &str, refresh: Option<&str>) -> Account {
    Account {
        id: id.to_string(),
        name: format!("name of {}", id),
        auth_json: parse(auth).unwrap(),
        email: None,
        refresh_token: refresh.map(|r| r.to_string()),
        created_at: Timestamp { secs: 0, nanos: 0 },
        last_used: None,
        notes: None,
        cached_quota: None,
        keepalive: KeepaliveState {
            inactive_refresh_enabled: true,
            last_attempt: None,
            last_error: None,
        },
        is_banned: false,
        is_token_invalid: false,
        is_logged_out: false,
    }
}

fn with_token(id: &str) -> Account {
    account(
        id,
        &format!("{{\"tokens\":{{\"access_token\":\"at-{}\",\"account_id\":\"acct-{}\"}}}}", id, id),
        Some("rt"),
    )
}

fn store_of(accounts: Vec<Account>, current: Option<&str>) -> AccountStore {
    AccountStore { accounts, current: current.map(|c| c.to_string()), settings: settings() }
}

fn usage(five: i32, week: i32) -> UsageDisplay {
    UsageDisplay {
        plan_type: "plus".to_string(),
        five_hour_used: 100 - five,
        five_hour_left: five,
        five_hour_label: "5H Limit".to_string(),
        five_hour_reset: "soon".to_string(),
        five_hour_reset_at: Some(9),
        weekly_used: 100 - week,
        weekly_left: week,
        weekly_label: "Weekly Limit".to_string(),
        weekly_reset: "later".to_string(),
        weekly_reset_at: None,
        credits_balance: None,
        has_credits: false,
        is_valid_for_cli: true,
    }
}

fn tokens(access: &str) -> TokenResponse {
    TokenResponse {
        access_token: access.to_string(),
        refresh_token: Some("rt-new".to_string()),
        id_token: None,
        expires_in: None,
        email: None,
    }
}

#[test]
fn quota_refresh_never_allows_local_token_refresh() {
    assert!(!allow_local_refresh_for_quota(true));
    assert!(!allow_local_refresh_for_quota(false));
}

#[test]
fn the_quota_of_an_inactive_account_is_fetched_at_once() {
    let mut store = store_of(vec![with_token("a")], None);
    let (mut q, action) = get_quota_by_id(&store, "a");
    assert!(matches!(action, QuotaAction::Fetch { ref access_token, ref account_id, ref refresh_token, allow_local_refresh: true }
        if access_token == "at-a" && account_id.as_deref() == Some("acct-a")
            && refresh_token.as_deref() == Some("rt")));
    let out = q.step(&mut store, QuotaEvent::Fetched(Ok((usage(30, 70), None))), NOW);
    assert_eq!(out.save, Persist::Required);
    assert!(matches!(out.next, QuotaAction::Show(ref u) if u.five_hour_left == 30));
    let kept = store.accounts[0].cached_quota.as_ref().unwrap();
    assert_eq!(kept.five_hour_left, 30);
    assert_eq!(kept.weekly_left, 70);
    assert_eq!(kept.five_hour_reset_at, Some(9));
    assert_eq!(kept.updated_at, NOW);
    assert_eq!(q.phase, QuotaPhase::Done);
}

#[test]
fn the_active_account_is_checked_against_the_disk() {
    let mut store = store_of(vec![with_token("a")], Some("a"));
    let (mut q, action) = get_quota_by_id(&store, "a");
    assert!(matches!(action, QuotaAction::ReadDisk));
    let stranger = DiskAuth {
        auth: parse("{\"tokens\":{\"account_id\":\"other\"}}").unwrap(),
        email: None,
    };
    let out = q.step(&mut store, QuotaEvent::DiskRead(Ok(stranger)), NOW);
    assert!(matches!(out.next, QuotaAction::Fail(ref m) if m.contains("identity mismatch")));

    let (mut q, _) = get_quota_by_id(&store, "a");
    let newer = DiskAuth {
        auth: parse("{\"tokens\":{\"account_id\":\"acct-a\",\"access_token\":\"at-disk\"}}").unwrap(),
        email: None,
    };
    let out = q.step(&mut store, QuotaEvent::DiskRead(Ok(newer)), NOW);
    assert_eq!(out.save, Persist::Required);
    assert!(matches!(out.next, QuotaAction::Fetch { ref access_token, .. } if access_token == "at-disk"));

    let (mut q, _) = get_quota_by_id(&store, "a");
    let out = q.step(&mut store, QuotaEvent::DiskRead(Err("no file".to_string())), NOW);
    assert!(matches!(out.next, QuotaAction::Fail(ref m) if m == "no file"));
}

#[test]
fn missing_accounts_are_named_by_whoever_asks() {
    let store = store_of(vec![], None);
    let (_, by_id) = get_quota_by_id(&store, "x");
    assert!(matches!(by_id, QuotaAction::Fail(ref m) if m == "Account x not found"));
    let (_, internal) = get_quota_internal(&store, "x");
    assert!(matches!(internal, QuotaAction::Fail(ref m) if m == "Account does not exist"));
}

#[test]
fn without_an_access_token_the_refresh_token_is_used() {
    let bare = account("a", "{\"tokens\":{\"refresh_token\":\"inner\"}}", None);
    let mut store = store_of(vec![bare], None);
    // Only the query by id looks into the document for a refresh token.
    let (_, internal) = get_quota_internal(&store, "a");
    assert!(matches!(internal, QuotaAction::Fail(ref m)
        if m == "TOKEN_INVALID:No access_token and no refresh_token"));
    let (mut q, by_id) = get_quota_by_id(&store, "a");
    assert!(matches!(by_id, QuotaAction::Refresh { ref refresh_token } if refresh_token == "inner"));
    let out = q.step(&mut store, QuotaEvent::Refreshed(Ok(tokens("fresh"))), NOW);
    assert_eq!(out.save, Persist::BestEffort);
    assert!(matches!(out.next, QuotaAction::Fetch { ref access_token, allow_local_refresh: true, .. } if access_token == "fresh"));
    assert_eq!(store.accounts[0].refresh_token, Some("rt-new".to_string()));

    let (mut q, _) = get_quota_by_id(
        &store_of(vec![account("a", "{\"tokens\":{}}", Some("r"))], None),
        "a",
    );
    let out = q.step(&mut store, QuotaEvent::Refreshed(Err("gone".to_string())), NOW);
    assert!(matches!(out.next, QuotaAction::Fail(ref m)
        if m == "TOKEN_INVALID:Token refresh failed: gone"));
}

#[test]
fn trouble_leaves_exactly_one_flag() {
    for (message, flags) in [
        ("ACCOUNT_BANNED:x", (true, false, false)),
        ("TOKEN_INVALID:x", (false, true, false)),
        ("ACCOUNT_LOGGED_OUT:x", (false, false, true)),
    ] {
        let mut a = with_token("a");
        a.is_banned = true;
        a.is_token_invalid = true;
        a.is_logged_out = true;
        let mut store = store_of(vec![a], None);
        let (mut q, _) = get_quota_internal(&store, "a");
        let out = q.step(&mut store, QuotaEvent::Fetched(Err(message.to_string())), NOW);
        assert_eq!(out.save, Persist::BestEffort);
        assert!(matches!(out.next, QuotaAction::Fail(ref m) if m == message));
        let a = &store.accounts[0];
        assert_eq!((a.is_banned, a.is_token_invalid, a.is_logged_out), flags);
    }
    let mut store = store_of(vec![with_token("a")], None);
    let (mut q, _) = get_quota_internal(&store, "a");
    let out = q.step(&mut store, QuotaEvent::Fetched(Err("timeout".to_string())), NOW);
    assert_eq!(out.save, Persist::No);
    assert!(store.accounts[0].is_usable());
}

#[test]
fn tokens_that_come_with_a_report_are_kept() {
    let mut store = store_of(vec![with_token("a")], None);
    let (mut q, _) = get_quota_internal(&store, "a");
    let out = q.step(
        &mut store,
        QuotaEvent::Fetched(Ok((usage(1, 2), Some(tokens("renewed"))))),
        NOW,
    );
    assert_eq!(out.save, Persist::BestEffort);
    assert_eq!(
        AccountStore::extract_access_token(&store.accounts[0].auth_json),
        Some("renewed".to_string())
    );
    assert_eq!(store.accounts[0].cached_quota.as_ref().unwrap().weekly_left, 2);
}

#[test]
fn an_event_out_of_turn_changes_nothing() {
    let mut store = store_of(vec![with_token("a")], None);
    let (mut q, _) = get_quota_internal(&store, "a");
    let out = q.step(&mut store, QuotaEvent::Refreshed(Err("x".to_string())), NOW);
    assert!(matches!(out.next, QuotaAction::Wait));
    assert_eq!(out.save, Persist::No);
    assert_eq!(q.phase, QuotaPhase::Fetch);
}

#[test]
fn the_oldest_quotas_are_refreshed_first() {
    let mut a = with_token("a");
    a.cached_quota = Some(quota(300));
    let mut b = with_token("b");
    b.cached_quota = Some(quota(100));
    let mut c = with_token("c");
    c.cached_quota = Some(quota(100));
    let d = with_token("d");
    let mut e = with_token("e");
    e.is_banned = true;
    let store = store_of(vec![a, b, c, d, e], None);
    let ids: Vec<String> = refresh_targets(&store).into_iter().map(|t| t.0).collect();
    assert_eq!(ids, vec!["d".to_string(), "b".to_string()]);
}

#[test]
fn a_round_rests_between_accounts() {
    let mut store = store_of(vec![with_token("a"), with_token("b")], None);
    let (mut r, action) = start_quota_refresh(&store);
    assert!(matches!(action, RoundAction::Fetch { ref access_token, allow_local_refresh: false, .. } if access_token == "at-a"));
    let out = r.step(&mut store, RoundEvent::Fetched(Ok(usage(11, 22))), NOW);
    assert!(matches!(out.next, RoundAction::Rest { seconds: 300 }));
    let entry = out.entry.unwrap();
    assert_eq!(entry.reason, SwitchReason::AutoQuotaRefresh);
    assert_eq!(entry.to_name, "name of a");
    assert_eq!(entry.to_quota, Some(11));
    assert_eq!(store.accounts[0].cached_quota.as_ref().unwrap().five_hour_left, 11);
    let out = r.step(&mut store, RoundEvent::Rested, NOW);
    assert!(matches!(out.next, RoundAction::Fetch { ref access_token, allow_local_refresh: false, .. } if access_token == "at-b"));
    let out = r.step(&mut store, RoundEvent::Fetched(Err("TOKEN_INVALID:x".to_string())), NOW);
    assert_eq!(out.save, Persist::BestEffort);
    assert!(store.accounts[1].is_token_invalid);
    let out = r.step(&mut store, RoundEvent::Rested, NOW);
    assert!(matches!(out.next, RoundAction::Again { seconds: 0 }));
    assert_eq!(r.phase, RoundPhase::Done);
}

#[test]
fn a_round_skips_those_that_cannot_be_asked() {
    let none = account("a", "{}", None);
    let only_refresh = account("b", "{}", Some("r"));
    let mut store = store_of(vec![none, only_refresh], None);
    let (mut r, action) = start_quota_refresh(&store);
    assert!(matches!(action, RoundAction::Refresh { ref refresh_token } if refresh_token == "r"));
    let out = r.step(&mut store, RoundEvent::Refreshed(Err("no".to_string())), NOW);
    assert!(matches!(out.next, RoundAction::Again { seconds: 0 }));
}

#[test]
fn a_round_that_is_off_or_empty_is_put_off() {
    let mut store = store_of(vec![], None);
    assert!(matches!(start_quota_refresh(&store).1, RoundAction::Again { seconds: 60 }));
    store.settings.quota_refresh_enabled = false;
    assert!(matches!(start_quota_refresh(&store).1, RoundAction::Again { seconds: 30 }));
    store.settings.quota_refresh_interval = 0;
    assert_eq!(start_quota_refresh(&store).0.interval, 1);
}
