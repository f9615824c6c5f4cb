use codex_switcher::account::{
    Account, AccountStore, AppSettings, CachedQuota, KeepaliveState,
};
use codex_switcher::clock::Timestamp;
use codex_switcher::json::parse;
use codex_switcher::proxy::mark_account_quota_depleted;
use codex_switcher::selection::{
    earliest_reset, is_spent, pick_next_account, pick_next_account_at, predict_next_account_at,
    predict_next_account_internal, score_candidate_accounts, score_candidate_accounts_at,
    score_quota, should_preemptive_switch, PickResult,
};

fn settings() -> AppSettings {
    AppSettings {
        background_refresh: false,
        refresh_interval_minutes: 30,
        inactive_refresh_days: 7,
        proxy_enabled: false,
        proxy_port: 18080,
        proxy_allow_lan: false,
        proxy_threshold_5h: 0,
        proxy_threshold_weekly: 0,
        proxy_free_guard: 0,
        quota_refresh_enabled: false,
        quota_refresh_interval: 5,
        quota_refresh_batch: 3,
        allow_auto_switch_to_free: false,
        notify_on_switch: false,
        inject_switch_message: false,
    }
}

fn quota(plan: &str, five: i32, week: i32) -> CachedQuota {
    CachedQuota {
        five_hour_left: five,
        five_hour_reset: String::new(),
        five_hour_reset_at: None,
        five_hour_label: String::new(),
        weekly_left: week,
        weekly_reset: String::new(),
        weekly_reset_at: None,
        weekly_label: String::new(),
        plan_type: plan.to_string(),
        is_valid_for_cli: true,
        updated_at: Timestamp { secs: 0, nanos: 0 },
    }
}

fn account(id: &str, q: Option<CachedQuota>) -> Account {
    Account {
        id: id.to_string(),
        name: format!("name {}", id),
        auth_json: parse(&format!("{{\"tokens\":{{\"access_token\":\"at-{}\"}}}}", id)).unwrap(),
        email: None,
        refresh_token: None,
        created_at: Timestamp { secs: 0, nanos: 0 },
        last_used: None,
        notes: None,
        cached_quota: q,
        keepalive: KeepaliveState {
            inactive_refresh_enabled: false,
            last_attempt: None,
            last_error: None,
        },
        is_banned: false,
        is_token_invalid: false,
        is_logged_out: false,
    }
}

fn store_of(accounts: Vec<Account>, current: Option<&str>) -> AccountStore {
    AccountStore { accounts, current: current.map(|c| c.to_string()), settings: settings() }
}

fn ids(list: Vec<(String, String, i64)>) -> Vec<(String, i64)> {
    list.into_iter().map(|c| (c.0, c.2)).collect()
}

#[test]
fn plans_add_their_bonus() {
    for (plan, bonus) in [
        ("pro", 30),
        ("plus", 20),
        ("team", 20),
        ("enterprise", 20),
        ("edu", 15),
        ("business", 15),
        ("other", 10),
    ] {
        assert_eq!(score_quota(&quota(plan, 40, 60), plan, false, 0), Some(40 + bonus));
    }
    assert_eq!(score_quota(&quota("free", 40, 0), "free", false, 0), None);
    assert_eq!(score_quota(&quota("free", 40, 0), "free", true, 0), Some(40));
    assert_eq!(score_quota(&quota("unknown", 40, 0), "unknown", true, 0), Some(40));
}

#[test]
fn a_window_that_was_reset_counts_half() {
    let mut q = quota("plus", 0, 80);
    assert_eq!(score_quota(&q, "plus", false, 1_000), None);
    q.five_hour_reset_at = Some(1_000);
    assert_eq!(score_quota(&q, "plus", false, 999), None);
    assert_eq!(score_quota(&q, "plus", false, 1_000), Some(70));
    q.weekly_left = 30;
    assert_eq!(score_quota(&q, "plus", false, 1_000), Some(50));
}

#[test]
fn candidates_are_ranked_and_ties_keep_their_order() {
    let mut banned = account("x", None);
    banned.is_banned = true;
    let mut invalid = account("y", None);
    invalid.is_token_invalid = true;
    let mut out = account("z", None);
    out.is_logged_out = true;
    let store = store_of(
        vec![
            account("cur", Some(quota("pro", 100, 100))),
            account("a", Some(quota("PLUS", 30, 90))),
            account("b", None),
            account("c", Some(quota("pro", 90, 70))),
            account("d", Some(quota("free", 99, 99))),
            account("e", Some(quota("plus", 0, 90))),
            banned,
            invalid,
            out,
        ],
        Some("cur"),
    );
    assert_eq!(
        ids(score_candidate_accounts_at(&store, 0)),
        vec![("c".to_string(), 100), ("a".to_string(), 50), ("b".to_string(), 50)]
    );
    assert_eq!(ids(score_candidate_accounts(&store)).len(), 3);
    assert_eq!(predict_next_account_at(&store, 0), Some(("name c".to_string(), 100)));
    assert_eq!(predict_next_account_internal(&store), Some(("name c".to_string(), 100)));
}

#[test]
fn the_best_candidate_is_picked_with_its_token() {
    let store = store_of(vec![account("a", None), account("b", Some(quota("pro", 90, 90)))], None);
    assert!(matches!(pick_next_account_at(&store, 0), PickResult::Found { ref id, ref token }
        if id == "b" && token == "at-b"));
    assert!(matches!(pick_next_account(&store), PickResult::Found { ref id, .. } if id == "b"));
}

#[test]
fn a_candidate_without_a_token_is_not_picked() {
    let mut a = account("a", None);
    a.auth_json = parse("{}").unwrap();
    let store = store_of(vec![a], None);
    assert!(matches!(
        pick_next_account_at(&store, 0),
        PickResult::Exhausted { earliest_reset: None }
    ));
}

#[test]
fn when_all_is_used_up_the_first_reset_is_told() {
    let mut q = quota("plus", 0, 0);
    q.five_hour_reset_at = Some(500);
    q.weekly_reset_at = Some(900);
    let mut p = quota("plus", 0, 10);
    p.five_hour_reset_at = Some(700);
    p.weekly_reset_at = Some(50);
    let store = store_of(vec![account("a", Some(q)), account("b", Some(p))], None);
    assert!(matches!(
        pick_next_account_at(&store, 100),
        PickResult::Exhausted { earliest_reset: Some(500) }
    ));
    assert_eq!(earliest_reset(&store.accounts, 600), Some(700));
    assert_eq!(earliest_reset(&store.accounts, 900), None);
    assert_eq!(predict_next_account_at(&store, 100), None);
}

#[test]
fn thresholds_make_the_proxy_leave_early() {
    let mut store = store_of(vec![account("a", Some(quota("plus", 10, 20)))], Some("a"));
    assert!(!should_preemptive_switch(&store));
    store.settings.proxy_threshold_5h = 10;
    assert!(!should_preemptive_switch(&store));
    store.settings.proxy_threshold_5h = 11;
    assert!(should_preemptive_switch(&store));
    store.settings.proxy_threshold_5h = 0;
    store.settings.proxy_threshold_weekly = 21;
    assert!(should_preemptive_switch(&store));
    store.settings.proxy_threshold_weekly = 0;
    store.settings.proxy_free_guard = 50;
    assert!(!should_preemptive_switch(&store));
    store.accounts[0].cached_quota = Some(quota("Free", 10, 20));
    assert!(should_preemptive_switch(&store));
    store.accounts[0].cached_quota = None;
    assert!(!should_preemptive_switch(&store));
    store.accounts[0].is_logged_out = true;
    assert!(should_preemptive_switch(&store));
    store.current = None;
    assert!(!should_preemptive_switch(&store));
}

#[test]
fn spent_accounts_cannot_carry_a_connection() {
    let mut store = store_of(vec![account("a", Some(quota("plus", 10, 0)))], Some("a"));
    assert!(is_spent(&store));
    store.accounts[0].cached_quota = Some(quota("FREE", 10, 0));
    assert!(!is_spent(&store));
    store.accounts[0].cached_quota = Some(quota("free", 0, 10));
    assert!(is_spent(&store));
    store.accounts[0].cached_quota = None;
    assert!(!is_spent(&store));
    store.accounts[0].is_banned = true;
    assert!(is_spent(&store));
    store.current = Some("nobody".to_string());
    assert!(!is_spent(&store));
}

#[test]
fn a_depleted_account_waits_for_its_reset() {
    let mut store = store_of(vec![account("a", Some(quota("plus", 60, 60)))], None);
    store.accounts[0].cached_quota.as_mut().unwrap().five_hour_reset_at = Some(2_000);
    assert_eq!(ids(score_candidate_accounts_at(&store, 1_000)), vec![("a".to_string(), 80)]);
    assert!(mark_account_quota_depleted(&mut store, "a"));
    assert!(score_candidate_accounts_at(&store, 1_999).is_empty());
    assert_eq!(ids(score_candidate_accounts_at(&store, 2_000)), vec![("a".to_string(), 70)]);
}
