use codex_switcher::account::{
    Account, AccountStore, AppSettings, CachedQuota, DiskAuth, KeepaliveState,
};
use codex_switcher::clock::Timestamp;
use codex_switcher::json::parse;
use codex_switcher::manage::{
    accounts_missing_refresh_token, add_account, delete_account, import_accounts,
    import_current_account, set_inactive_refresh_enabled, update_account,
};
use codex_switcher::proxy::ProxyStats;
use codex_switcher::quota::Persist;
use codex_switcher::switch::{
    do_switch, switch_account, switch_to_next_account_at, switch_to_next_account_internal,
    SmartAction, SwitchAction, SwitchEvent, SwitchPhase, SwitchReason,
};
use codex_switcher::usage::UsageDisplay;

const NOW: Timestamp = Timestamp { secs: 1_000, nanos: 7 };

fn settings() -> AppSettings {
    AppSettings {
        background_refresh: false,
        refresh_interval_minutes: 30,
        inactive_refresh_days: 7,
        proxy_enabled: false,
        proxy_port: 18080,
        proxy_allow_lan: false,
        proxy_threshold_5h: 0,
        proxy_threshold_weekly: 0,
        proxy_free_guard: 0,
        quota_refresh_enabled: false,
        quota_refresh_interval: 5,
        quota_refresh_batch: 3,
        allow_auto_switch_to_free: false,
        notify_on_switch: true,
        inject_switch_message: true,
    }
}

fn quota(five: i32) -> CachedQuota {
    CachedQuota {
        five_hour_left: five,
        five_hour_reset: String::new(),
        five_hour_reset_at: None,
        five_hour_label: String::new(),
        weekly_left: 90,
        weekly_reset: String::new(),
        weekly_reset_at: None,
        weekly_label: String::new(),
        plan_type: "plus".to_string(),
        is_valid_for_cli: true,
        updated_at: Timestamp { secs: 0, nanos: 0 },
    }
}

fn account(id: &str, refresh: Option<&str>) -> Account {
    Account {
        id: id.to_string(),
        name: format!("name {}", id),
        auth_json: parse(&format!(
            "{{\"tokens\":{{\"access_token\":\"at-{}\",\"account_id\":\"acct-{}\"}}}}",
            id, id
        ))
        .unwrap(),
        email: None,
        refresh_token: refresh.map(|r| r.to_string()),
        created_at: Timestamp { secs: 0, nanos: 0 },
        last_used: None,
        notes: None,
        cached_quota: Some(quota(50)),
        keepalive: KeepaliveState {
            inactive_refresh_enabled: false,
            last_attempt: None,
            last_error: None,
        },
        is_banned: false,
        is_token_invalid: false,
        is_logged_out: false,
    }
}

fn store_of(accounts: Vec<Account>, current: Option<&str>) -> AccountStore {
    AccountStore { accounts, current: current.map(|c| c.to_string()), settings: settings() }
}

fn usage(plan: &str, five: i32, week: i32) -> UsageDisplay {
    UsageDisplay {
        plan_type: plan.to_string(),
        five_hour_used: 100 - five,
        five_hour_left: five,
        five_hour_label: String::new(),
        five_hour_reset: String::new(),
        five_hour_reset_at: None,
        weekly_used: 100 - week,
        weekly_left: week,
        weekly_label: String::new(),
        weekly_reset: String::new(),
        weekly_reset_at: None,
        credits_balance: None,
        has_credits: false,
        is_valid_for_cli: true,
    }
}

#[test]
fn a_switch_goes_all_the_way() {
    let mut a = account("a", None);
    a.last_used = Some(Timestamp { secs: 1, nanos: 0 });
    let mut store = store_of(vec![a, account("b", Some("rt"))], Some("a"));
    let mut w = switch_account("b");
    let disk = DiskAuth {
        auth: parse("{\"tokens\":{\"account_id\":\"acct-a\",\"access_token\":\"from-disk\"}}").unwrap(),
        email: None,
    };
    let out = w.step(&mut store, SwitchEvent::DiskRead(Ok(disk)), NOW);
    assert_eq!(out.save, Persist::BestEffort);
    assert_eq!(
        AccountStore::extract_access_token(&store.accounts[0].auth_json),
        Some("from-disk".to_string())
    );
    assert!(matches!(out.next, SwitchAction::Fetch {
        ref access_token, ref account_id, ref refresh_token, allow_local_refresh: false,
    } if access_token == "at-b" && account_id.as_deref() == Some("acct-b")
        && refresh_token.as_deref() == Some("rt")));

    let out = w.step(&mut store, SwitchEvent::Fetched(Ok(usage("plus", 33, 44))), NOW);
    assert!(matches!(out.next, SwitchAction::TakeLock));
    assert_eq!(store.accounts[1].cached_quota.as_ref().unwrap().five_hour_left, 33);
    assert_eq!(store.current, Some("a".to_string()));

    let out = w.step(&mut store, SwitchEvent::Locked(true), NOW);
    assert!(!out.unlock);
    match out.next {
        SwitchAction::WriteDocument(doc) => {
            assert_eq!(AccountStore::extract_access_token(&doc), Some("at-b".to_string()))
        }
        _ => panic!("the document is written next"),
    }
    assert_eq!(store.current, Some("a".to_string()));
    let out = w.step(&mut store, SwitchEvent::Written(Ok(())), NOW);
    assert!(matches!(out.next, SwitchAction::SaveStore));
    assert_eq!(store.current, Some("b".to_string()));
    assert_eq!(store.accounts[1].last_used, Some(NOW));
    let out = w.step(&mut store, SwitchEvent::Saved(Ok(())), NOW);
    assert!(out.unlock);
    match out.next {
        SwitchAction::Finish(e) => {
            assert_eq!(e.from_name, Some("name a".to_string()));
            assert_eq!(e.to_name, "name b");
            assert_eq!(e.reason, SwitchReason::Manual);
            assert_eq!(e.from_quota, None);
            assert_eq!(e.to_quota, Some(33));
        }
        _ => panic!("the switch is over"),
    }
    assert_eq!(w.phase, SwitchPhase::Done);
}

#[test]
fn a_switch_renews_no_tokens() {
    let mut store = store_of(vec![account("b", Some("rt"))], None);
    let mut w = switch_account("b");
    let out = w.step(&mut store, SwitchEvent::DiskRead(Err("none".to_string())), NOW);
    assert!(matches!(out.next, SwitchAction::Fetch { ref access_token, allow_local_refresh, .. }
        if access_token == "at-b" && !allow_local_refresh));
    let out = w.step(&mut store, SwitchEvent::Fetched(Err("ignored".to_string())), NOW);
    assert!(matches!(out.next, SwitchAction::TakeLock));
    assert_eq!(out.save, Persist::No);
    assert_eq!(
        AccountStore::extract_access_token(&store.accounts[0].auth_json),
        Some("at-b".to_string())
    );
    assert_eq!(store.accounts[0].refresh_token, Some("rt".to_string()));
}

#[test]
fn failures_give_the_lock_back() {
    let mut store = store_of(vec![account("b", None)], None);
    let to_lock = |store: &mut AccountStore| {
        let mut w = switch_account("b");
        w.step(store, SwitchEvent::DiskRead(Err("none".to_string())), NOW);
        w.step(store, SwitchEvent::Fetched(Err("x".to_string())), NOW);
        w
    };
    let mut w = to_lock(&mut store);
    let out = w.step(&mut store, SwitchEvent::Locked(false), NOW);
    assert!(!out.unlock);
    assert!(matches!(out.next, SwitchAction::Fail(ref m)
        if m == "This account is being refreshed by another process, please try again later"));

    let mut w = to_lock(&mut store);
    w.step(&mut store, SwitchEvent::Locked(true), NOW);
    let out = w.step(&mut store, SwitchEvent::Written(Err("disk full".to_string())), NOW);
    assert!(out.unlock);
    assert!(matches!(out.next, SwitchAction::Fail(ref m) if m == "disk full"));
    assert_eq!(store.current, None);

    let mut w = to_lock(&mut store);
    w.step(&mut store, SwitchEvent::Locked(true), NOW);
    w.step(&mut store, SwitchEvent::Written(Ok(())), NOW);
    let out = w.step(&mut store, SwitchEvent::Saved(Err("disk full".to_string())), NOW);
    assert!(out.unlock);
    assert!(matches!(out.next, SwitchAction::Fail(_)));

    let mut w = to_lock(&mut store);
    store.accounts.clear();
    let out = w.step(&mut store, SwitchEvent::Locked(true), NOW);
    assert!(out.unlock);
    assert!(matches!(out.next, SwitchAction::Fail(ref m) if m == "Account b not found"));
}

#[test]
fn a_switch_needs_an_account_with_a_token() {
    let mut store = store_of(vec![], None);
    let mut w = switch_account("b");
    let out = w.step(&mut store, SwitchEvent::DiskRead(Err("x".to_string())), NOW);
    assert!(matches!(out.next, SwitchAction::Fail(ref m) if m == "Account b not found"));
    let mut b = account("b", None);
    b.auth_json = parse("{}").unwrap();
    let mut store = store_of(vec![b], None);
    let mut w = switch_account("b");
    let out = w.step(&mut store, SwitchEvent::DiskRead(Err("x".to_string())), NOW);
    assert!(matches!(out.next, SwitchAction::Fail(ref m) if m == "Account missing access_token"));
}

#[test]
fn the_search_goes_down_the_ranking() {
    let mut a = account("a", None);
    a.cached_quota = Some(quota(10));
    let mut b = account("b", None);
    b.cached_quota = Some(quota(80));
    let store = store_of(vec![a, b], None);
    let (mut s, first) = switch_to_next_account_at(&store, 0);
    assert!(matches!(first, SmartAction::Query { ref id } if id == "b"));
    let next = s.step(Ok(usage("plus", 5, 0)));
    assert!(matches!(next, SmartAction::Query { ref id } if id == "a"));
    let next = s.step(Ok(usage("FREE", 5, 0)));
    assert!(matches!(next, SmartAction::Switch { ref id } if id == "a"));
    let next = s.step(Err("ACCOUNT_BANNED".to_string()));
    assert!(matches!(next, SmartAction::Fail(ref m)
        if m == "Checked all accounts, no account with available quota found"));

    let (_, none) = switch_to_next_account_internal(&store_of(vec![], None));
    assert!(matches!(none, SmartAction::Fail(ref m) if m == "No available accounts"));
}

#[test]
fn the_proxy_switches_on_its_own_accord() {
    let mut store = store_of(vec![account("a", None), account("b", None)], Some("a"));
    let mut stats = ProxyStats::default();
    let (w, doc) = do_switch(&store, "b", SwitchReason::Http429).unwrap();
    assert_eq!(AccountStore::extract_access_token(&doc), Some("at-b".to_string()));
    assert_eq!(w.written(&mut store, Ok(()), NOW), Ok(()));
    assert_eq!(store.current, Some("b".to_string()));
    let e = w.saved(&store, &mut stats, Ok(())).unwrap();
    assert_eq!(stats.auto_switches, 1);
    assert_eq!(e.entry.from_name, Some("name a".to_string()));
    assert_eq!(e.entry.to_name, "name b");
    assert_eq!(e.entry.from_quota, Some(50));
    assert_eq!(e.notify, Some("name a → name b".to_string()));
    assert_eq!(e.inject, Some("⚡ [Codex Switcher] Switched to name b".to_string()));
}

#[test]
fn a_switch_of_the_proxy_can_fail() {
    let mut store = store_of(vec![account("b", None)], None);
    store.settings.notify_on_switch = false;
    store.settings.inject_switch_message = false;
    let mut stats = ProxyStats { total_requests: 3, auto_switches: u64::MAX };
    assert_eq!(
        do_switch(&store, "x", SwitchReason::Http429).unwrap_err(),
        "Account x not found"
    );
    let (w, _) = do_switch(&store, "b", SwitchReason::QuotaThreshold).unwrap();
    assert_eq!(w.written(&mut store, Err("ro".to_string()), NOW), Err("ro".to_string()));
    assert_eq!(store.current, None);
    assert_eq!(w.written(&mut store, Ok(()), NOW), Ok(()));
    assert_eq!(w.saved(&store, &mut stats, Err("ro".to_string())).unwrap_err(), "ro");
    assert_eq!(stats.auto_switches, u64::MAX);
    let (w, _) = do_switch(&store, "b", SwitchReason::QuotaThreshold).unwrap();
    let e = w.saved(&store, &mut stats, Ok(())).unwrap();
    assert_eq!(stats.auto_switches, 0);
    assert_eq!(stats.total_requests, 3);
    assert!(e.notify.is_none() && e.inject.is_none());
}

fn keepalive() -> KeepaliveState {
    KeepaliveState { inactive_refresh_enabled: true, last_attempt: None, last_error: None }
}

#[test]
fn the_account_on_disk_is_kept() {
    let disk = |text: &str| DiskAuth { auth: parse(text).unwrap(), email: Some("e".to_string()) };
    let bring = |text: &str| {
        import_current_account(
            disk(text),
            "id".to_string(),
            "name".to_string(),
            Some("notes".to_string()),
            keepalive(),
            NOW,
        )
    };
    assert_eq!(
        bring("{}").unwrap_err(),
        "Current auth.json missing refresh_token, cannot auto-renew. Please sign in again"
    );
    let a = bring("{\"tokens\":{\"refresh_token\":\"r\"}}").unwrap();
    assert_eq!((a.id.as_str(), a.name.as_str()), ("id", "name"));
    assert_eq!((a.refresh_token.as_deref(), a.email.as_deref()), (Some("r"), Some("e")));
    assert_eq!((a.notes.as_deref(), a.created_at), (Some("notes"), NOW));
    assert!(a.is_usable() && a.keepalive.inactive_refresh_enabled);

    let mut store = store_of(vec![account("a", None)], Some("a"));
    add_account(&mut store, a);
    assert_eq!(store.find("id"), Some(1));
    let mut again = account("a", None);
    again.name = "other".to_string();
    add_account(&mut store, again);
    assert_eq!(store.accounts.len(), 2);
    assert_eq!(store.accounts[0].name, "other");
}

#[test]
fn accounts_are_changed() {
    let mut store = store_of(vec![account("a", None), account("b", None)], Some("a"));
    let notes = Some("notes".to_string());
    assert_eq!(update_account(&mut store, "b", None, notes), Ok(()));
    assert_eq!(store.accounts[1].name, "name b");
    assert_eq!(store.accounts[1].notes.as_deref(), Some("notes"));
    assert_eq!(update_account(&mut store, "b", Some("new".to_string()), None), Ok(()));
    assert_eq!(store.accounts[1].name, "new");
    assert_eq!(store.accounts[1].notes.as_deref(), Some("notes"));
    assert_eq!(store.accounts[0].name, "name a");
    let missing = Err("Account c not found".to_string());
    assert_eq!(update_account(&mut store, "c", None, None), missing);
    assert_eq!(set_inactive_refresh_enabled(&mut store, "c", true), missing);
    assert_eq!(set_inactive_refresh_enabled(&mut store, "a", true), Ok(()));
    assert!(store.accounts[0].keepalive.inactive_refresh_enabled);
    assert!(!store.accounts[1].keepalive.inactive_refresh_enabled);
}

#[test]
fn accounts_are_brought_in_and_taken_out() {
    let mut store = store_of(vec![account("a", None)], Some("a"));
    let mut inner = account("c", None);
    inner.auth_json = parse("{\"tokens\":{\"refresh_token\":\"r\"}}").unwrap();
    let bad = store_of(vec![account("x", None), account("b", Some("r")), account("y", None)], None);
    assert_eq!(accounts_missing_refresh_token(&bad), vec!["name x", "name y"]);
    assert_eq!(
        import_accounts(&mut store, bad).unwrap_err(),
        "The following accounts are missing refresh_token and cannot auto-renew. Please sign in again before importing: name x, name y"
    );
    assert_eq!(store.accounts.len(), 1);
    let good = store_of(vec![account("b", Some("r")), inner], Some("c"));
    assert!(accounts_missing_refresh_token(&good).is_empty());
    assert!(import_accounts(&mut store, good).is_ok());
    assert_eq!(store.accounts.len(), 2);

    assert_eq!(delete_account(&mut store, "zz"), Err("Account zz not found".to_string()));
    assert_eq!(delete_account(&mut store, "b"), Ok(()));
    assert_eq!(store.current, Some("c".to_string()));
    assert_eq!(delete_account(&mut store, "c"), Ok(()));
    assert_eq!(store.current, None);
    assert!(store.accounts.is_empty());
    assert!(store.find("c").is_none());
}
