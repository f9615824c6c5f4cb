use codex_switcher::account::{
    Account, AccountStore, AppSettings, CachedQuota, DiskAuth, KeepaliveState, TokenResponse,
};
use codex_switcher::clock::Timestamp;
use codex_switcher::json::parse;
use codex_switcher::quota::Persist;
use codex_switcher::relay::{
    handle_request, prepare_request, Relay, RelayAction, RelayEvent, RelayPhase, MAX_429_RETRIES,
};

const NOW: Timestamp = Timestamp { secs: 1_000, nanos: 0 };

fn settings() -> AppSettings {
    AppSettings {
        background_refresh: false,
        refresh_interval_minutes: 30,
        inactive_refresh_days: 7,
        proxy_enabled: false,
        proxy_port: 18080,
        proxy_allow_lan: false,
        proxy_threshold_5h: 0,
        proxy_threshold_weekly: 0,
        proxy_free_guard: 0,
        quota_refresh_enabled: false,
        quota_refresh_interval: 5,
        quota_refresh_batch: 3,
        allow_auto_switch_to_free: false,
        notify_on_switch: true,
        inject_switch_message: false,
    }
}

fn quota(five: i32, week: i32) -> CachedQuota {
    CachedQuota {
        five_hour_left: five,
        five_hour_reset: String::new(),
        five_hour_reset_at: None,
        five_hour_label: String::new(),
        weekly_left: week,
        weekly_reset: String::new(),
        weekly_reset_at: None,
        weekly_label: String::new(),
        plan_type: "plus".to_string(),
        is_valid_for_cli: true,
        updated_at: Timestamp { secs: 0, nanos: 0 },
    }
}

fn account(id: &str, five: i32) -> Account {
    Account {
        id: id.to_string(),
        name: format!("name {}", id),
        auth_json: parse(&format!(
            "{{\"tokens\":{{\"access_token\":\"eyJ-{}\",\"account_id\":\"acct-{}\"}}}}",
            id, id
        ))
        .unwrap(),
        email: None,
        refresh_token: Some(format!("rt-{}", id)),
        created_at: Timestamp { secs: 0, nanos: 0 },
        last_used: None,
        notes: None,
        cached_quota: Some(quota(five, 90)),
        keepalive: KeepaliveState {
            inactive_refresh_enabled: false,
            last_attempt: None,
            last_error: None,
        },
        is_banned: false,
        is_token_invalid: false,
        is_logged_out: false,
    }
}

fn store_of(accounts: Vec<Account>, current: Option<&str>) -> AccountStore {
    AccountStore { accounts, current: current.map(|c| c.to_string()), settings: settings() }
}

fn begun() -> Relay {
    let (r, first) = handle_request("t0");
    assert!(matches!(first, RelayAction::Send { ref token } if token == "t0"));
    r
}

#[test]
fn an_ordinary_answer_is_streamed() {
    let mut store = store_of(vec![account("a", 50)], Some("a"));
    for status in [200, 404, 500, 302] {
        let mut r = begun();
        let out = r.step(&mut store, RelayEvent::Answered(Ok(status)), NOW);
        assert!(matches!(out.next, RelayAction::Stream { preempt: true }));
        assert_eq!(out.save, Persist::No);
        assert!(!out.release);
        assert_eq!(r.phase, RelayPhase::Done);
        let out = r.step(&mut store, RelayEvent::Answered(Ok(200)), NOW);
        assert!(matches!(out.next, RelayAction::Wait));
    }
}

#[test]
fn a_failed_connection_is_told() {
    let mut store = store_of(vec![], None);
    let mut r = begun();
    let out = r.step(&mut store, RelayEvent::Answered(Err("dns \"x\"".to_string())), NOW);
    match out.next {
        RelayAction::Reply(reply) => {
            assert_eq!(reply.status, 502);
            assert_eq!(
                reply.body,
                "{\"error\":{\"code\":502,\"message\":\"Upstream connection failed: Forward request failed: dns \\\"x\\\"\",\"type\":\"proxy_error\"}}"
            );
        }
        _ => panic!("an error is answered"),
    }
}

#[test]
fn a_spent_account_is_left() {
    let mut store = store_of(vec![account("a", 50), account("b", 70), account("c", 30)], Some("a"));
    let mut r = begun();
    let out = r.step(&mut store, RelayEvent::Answered(Ok(429)), NOW);
    assert!(matches!(out.next, RelayAction::Claim));
    assert_eq!(out.save, Persist::BestEffort);
    assert_eq!(store.accounts[0].cached_quota.as_ref().unwrap().five_hour_left, 0);
    let out = r.step(&mut store, RelayEvent::Claimed(true), NOW);
    assert!(r.claimed);
    assert!(matches!(out.next, RelayAction::Switch { ref id } if id == "b"));
    store.current = Some("b".to_string());
    let out = r.step(&mut store, RelayEvent::Switched(Ok(())), NOW);
    assert!(matches!(out.next, RelayAction::Send { ref token } if token == "eyJ-b"));
    let out = r.step(&mut store, RelayEvent::Answered(Ok(429)), NOW);
    assert!(matches!(out.next, RelayAction::Switch { ref id } if id == "c"));
    assert_eq!(r.attempt, 1);
    store.current = Some("c".to_string());
    r.step(&mut store, RelayEvent::Switched(Ok(())), NOW);
    let out = r.step(&mut store, RelayEvent::Answered(Ok(200)), NOW);
    assert!(matches!(out.next, RelayAction::Stream { preempt: false }));
    assert!(out.release);
}

#[test]
fn when_nothing_is_left_the_first_answer_stands() {
    let mut store = store_of(vec![account("a", 50)], Some("a"));
    store.accounts[0].cached_quota.as_mut().unwrap().five_hour_reset_at = Some(2_000);
    let mut r = begun();
    r.step(&mut store, RelayEvent::Answered(Ok(429)), NOW);
    let out = r.step(&mut store, RelayEvent::Claimed(true), NOW);
    assert!(matches!(out.next, RelayAction::Buffered { status: 429 }));
    assert_eq!(out.exhausted, Some(Some(2_000)));
    assert!(out.release);
}

#[test]
fn only_so_many_accounts_are_tried() {
    let mut store = store_of(vec![account("a", 50), account("b", 70)], Some("a"));
    let mut r = begun();
    r.step(&mut store, RelayEvent::Answered(Ok(429)), NOW);
    let mut out = r.step(&mut store, RelayEvent::Claimed(true), NOW);
    let mut switches = 0;
    while matches!(out.next, RelayAction::Switch { .. }) {
        switches += 1;
        out = r.step(&mut store, RelayEvent::Switched(Err("locked".to_string())), NOW);
    }
    assert_eq!(switches, MAX_429_RETRIES);
    assert!(matches!(out.next, RelayAction::Buffered { status: 429 }));
    assert_eq!(out.exhausted, None);
    assert!(out.release);
}

#[test]
fn whoever_is_not_first_waits() {
    let mut store = store_of(vec![account("a", 50)], Some("a"));
    let mut r = begun();
    r.step(&mut store, RelayEvent::Answered(Ok(429)), NOW);
    let out = r.step(&mut store, RelayEvent::Claimed(false), NOW);
    assert!(matches!(out.next, RelayAction::Pause));
    let disk = DiskAuth {
        auth: parse("{\"tokens\":{\"access_token\":\"eyJ-new\",\"account_id\":\"acct-a\"}}").unwrap(),
        email: None,
    };
    let out = r.step(&mut store, RelayEvent::Paused(Some(disk)), NOW);
    assert_eq!(out.save, Persist::BestEffort);
    assert!(matches!(out.next, RelayAction::Send { ref token } if token == "eyJ-new"));
    let out = r.step(&mut store, RelayEvent::Answered(Err("x".to_string())), NOW);
    assert!(matches!(out.next, RelayAction::Buffered { status: 429 }));
    assert!(!out.release);

    let mut gone = store_of(vec![], None);
    let mut r = begun();
    let out = r.step(&mut gone, RelayEvent::Answered(Ok(429)), NOW);
    assert_eq!(out.save, Persist::No);
    r.step(&mut gone, RelayEvent::Claimed(false), NOW);
    let out = r.step(&mut gone, RelayEvent::Paused(None), NOW);
    assert!(matches!(out.next, RelayAction::Buffered { status: 429 }));
}

#[test]
fn a_ban_is_noted_and_left() {
    let mut store = store_of(vec![account("a", 50), account("b", 70)], Some("a"));
    let mut r = begun();
    let out = r.step(&mut store, RelayEvent::Answered(Ok(403)), NOW);
    assert!(matches!(out.next, RelayAction::ReadRefusal));
    let out = r.step(&mut store, RelayEvent::RefusalRead(b"\xffAccount DEACTIVATED".to_vec()), NOW);
    assert!(store.accounts[0].is_banned);
    let ban = out.ban.unwrap();
    assert_eq!(ban.name, "name a");
    assert!(ban.notify);
    assert!(matches!(out.next, RelayAction::Switch { ref id } if id == "b"));
    assert!(!out.release);
}

#[test]
fn an_expired_token_is_renewed() {
    let mut store = store_of(vec![account("a", 50)], Some("a"));
    let mut r = begun();
    r.step(&mut store, RelayEvent::Answered(Ok(401)), NOW);
    let out = r.step(&mut store, RelayEvent::RefusalRead(b"expired".to_vec()), NOW);
    assert!(matches!(out.next, RelayAction::Refresh { ref refresh_token } if refresh_token == "rt-a"));
    let fresh = TokenResponse {
        access_token: "fresh".to_string(),
        refresh_token: None,
        id_token: None,
        expires_in: None,
        email: None,
    };
    let out = r.step(&mut store, RelayEvent::Refreshed(Ok(fresh)), NOW);
    assert!(matches!(out.next, RelayAction::Send { ref token } if token == "fresh"));
    assert_eq!(out.save, Persist::BestEffort);
    assert_eq!(
        AccountStore::extract_access_token(&store.accounts[0].auth_json),
        Some("fresh".to_string())
    );
    let out = r.step(&mut store, RelayEvent::Answered(Ok(429)), NOW);
    assert!(matches!(out.next, RelayAction::Stream { preempt: false }));
}

#[test]
fn a_logout_is_noted_and_other_failures_are_not() {
    let mut store = store_of(vec![account("a", 50), account("b", 10)], Some("a"));
    let mut r = begun();
    r.step(&mut store, RelayEvent::Answered(Ok(401)), NOW);
    r.step(&mut store, RelayEvent::RefusalRead(vec![]), NOW);
    let out = r.step(&mut store, RelayEvent::Refreshed(Err("INVALID_GRANT".to_string())), NOW);
    assert!(store.accounts[0].is_logged_out);
    assert!(matches!(out.next, RelayAction::Switch { ref id } if id == "b"));

    let mut store = store_of(vec![account("a", 50), account("b", 10)], Some("a"));
    let mut r = begun();
    r.step(&mut store, RelayEvent::Answered(Ok(401)), NOW);
    r.step(&mut store, RelayEvent::RefusalRead(vec![]), NOW);
    let out = r.step(&mut store, RelayEvent::Refreshed(Err("timeout".to_string())), NOW);
    assert!(!store.accounts[0].is_logged_out);
    assert!(matches!(out.next, RelayAction::Buffered { status: 401 }));

    store.accounts[0].refresh_token = None;
    let mut r = begun();
    r.step(&mut store, RelayEvent::Answered(Ok(403)), NOW);
    let out = r.step(&mut store, RelayEvent::RefusalRead(vec![]), NOW);
    assert!(matches!(out.next, RelayAction::Buffered { status: 403 }));
}

#[test]
fn a_request_is_made_ready() {
    let mut store = store_of(vec![account("a", 50)], Some("a"));
    let client = vec![
        ("authorization".to_string(), b"Bearer x".to_vec()),
        ("accept".to_string(), b"*/*".to_vec()),
    ];
    let (ready, save) = prepare_request(&mut store, &None, "/v1/responses", &client);
    let ready = ready.unwrap();
    assert_eq!(save, Persist::No);
    assert_eq!(ready.url, "https://chatgpt.com/backend-api/codex/responses");
    assert_eq!(ready.token, "eyJ-a");
    assert_eq!(
        ready.headers,
        vec![
            ("accept".to_string(), b"*/*".to_vec()),
            ("host".to_string(), b"chatgpt.com".to_vec()),
        ]
    );
    let (refused, _) = prepare_request(&mut store_of(vec![], None), &None, "/v1", &client);
    let reply = refused.unwrap_err();
    assert_eq!(reply.status, 503);
    assert!(reply.body.contains("No active account"));
}
