use codex_switcher::account::{
    Account, AccountStore, AppSettings, CachedQuota, DiskAuth, KeepaliveState, TokenResponse,
};
use codex_switcher::clock::Timestamp;
use codex_switcher::json::parse;
use codex_switcher::lifecycle::{
    detect_lan_ipv4, get_proxy_status, run, update_settings, update_tray_menu, Running,
    ServiceAction,
};
use codex_switcher::proxy::{
    count_on, error_response, exhausted_message, forward_with_token, get_current_token,
    get_upstream, hand_on, health_response, is_websocket_upgrade, listen_address,
    mark_account_quota_depleted, mark_current_banned, mark_current_logged_out,
    mark_current_quota_depleted, route_request, upstream_headers, websocket_url, Header,
    HeaderWay, ProxyStats, Route,
};
use codex_switcher::quota::Persist;
use codex_switcher::scheduler::{
    collect_targets, start, KeepaliveAction, KeepaliveEvent, KeepalivePhase,
};
use codex_switcher::switch::SwitchReason;

fn settings() -> AppSettings {
    AppSettings {
        background_refresh: false,
        refresh_interval_minutes: 30,
        inactive_refresh_days: 7,
        proxy_enabled: false,
        proxy_port: 18080,
        proxy_allow_lan: false,
        proxy_threshold_5h: 0,
        proxy_threshold_weekly: 0,
        proxy_free_guard: 0,
        quota_refresh_enabled: false,
        quota_refresh_interval: 5,
        quota_refresh_batch: 3,
        allow_auto_switch_to_free: false,
        notify_on_switch: true,
        inject_switch_message: false,
    }
}

fn quota(five: i32, week: i32) -> CachedQuota {
    CachedQuota {
        five_hour_left: five,
        five_hour_reset: String::new(),
        five_hour_reset_at: None,
        five_hour_label: String::new(),
        weekly_left: week,
        weekly_reset: String::new(),
        weekly_reset_at: None,
        weekly_label: String::new(),
        plan_type: "plus".to_string(),
        is_valid_for_cli: true,
        updated_at: Timestamp { secs: 0, nanos: 0 },
    }
}

fn account(id: &str, five: i32) -> Account {
    Account {
        id: id.to_string(),
        name: format!("name {}", id),
        auth_json: parse(&format!(
            "{{\"tokens\":{{\"access_token\":\"eyJ-{}\",\"account_id\":\"acct-{}\"}}}}",
            id, id
        ))
        .unwrap(),
        email: None,
        refresh_token: Some(format!("rt-{}", id)),
        created_at: Timestamp { secs: 0, nanos: 0 },
        last_used: None,
        notes: None,
        cached_quota: Some(quota(five, 90)),
        keepalive: KeepaliveState {
            inactive_refresh_enabled: false,
            last_attempt: None,
            last_error: None,
        },
        is_banned: false,
        is_token_invalid: false,
        is_logged_out: false,
    }
}

fn store_of(accounts: Vec<Account>, current: Option<&str>) -> AccountStore {
    AccountStore { accounts, current: current.map(|c| c.to_string()), settings: settings() }
}

fn header(name: &str, value: &str) -> Header {
    (name.to_string(), value.as_bytes().to_vec())
}

#[test]
fn tokens_come_from_the_active_account() {
    let mut store = store_of(vec![account("a", 1)], Some("a"));
    assert_eq!(get_current_token(&mut store, &None), (Ok(("eyJ-a".to_string(), true)), false));
    let disk = DiskAuth {
        auth: parse("{\"tokens\":{\"access_token\":\"sk-1\",\"account_id\":\"acct-a\"}}").unwrap(),
        email: None,
    };
    assert_eq!(
        get_current_token(&mut store, &Some(disk)),
        (Ok(("sk-1".to_string(), false)), true)
    );
    let other = DiskAuth {
        auth: parse("{\"tokens\":{\"access_token\":\"x\",\"account_id\":\"acct-b\"}}").unwrap(),
        email: None,
    };
    assert_eq!(
        get_current_token(&mut store, &Some(other)),
        (Ok(("sk-1".to_string(), false)), false)
    );
    store.current = None;
    assert_eq!(
        get_current_token(&mut store, &None),
        (Err("No active account".to_string()), false)
    );
}

#[test]
fn upstream_depends_on_the_token() {
    assert_eq!(
        get_upstream(true, "/v1/responses?x=1"),
        (
            "https://chatgpt.com/backend-api/codex/responses?x=1".to_string(),
            "chatgpt.com".to_string()
        )
    );
    assert_eq!(get_upstream(true, "/models").0, "https://chatgpt.com/backend-api/codex/models");
    assert_eq!(
        get_upstream(false, "/v1/responses"),
        ("https://api.openai.com/v1/responses".to_string(), "api.openai.com".to_string())
    );
    assert_eq!(websocket_url(true, "/v1/r"), "wss://chatgpt.com/backend-api/codex/r");
    assert_eq!(
        websocket_url(false, "/v1?u=http://x/https://y"),
        "wss://api.openai.com/v1?u=ws://x/https://y"
    );
}

#[test]
fn headers_are_handed_on() {
    let client = vec![
        header("host", "127.0.0.1"),
        header("Authorization", "Bearer theirs"),
        header("accept", "a"),
        header("accept", "b"),
    ];
    let base = upstream_headers(&client, "chatgpt.com");
    assert_eq!(
        base,
        vec![header("accept", "a"), header("accept", "b"), header("host", "chatgpt.com")]
    );
    let sent = forward_with_token(&base, "tok");
    assert_eq!(sent[3], header("authorization", "Bearer tok"));
    let renewed = forward_with_token(&sent, "tok2");
    assert_eq!(renewed.len(), 4);
    assert_eq!(renewed[3], header("authorization", "Bearer tok2"));
    assert_eq!(forward_with_token(&base, "a\nb"), base);
    assert_eq!(forward_with_token(&base, "a\tb é")[3], header("authorization", "Bearer a\tb é"));

    let answer = vec![
        header("content-length", "3"),
        header("transfer-encoding", "chunked"),
        header("connection", "close"),
        header("trailer", "x"),
        header("upgrade", "x"),
        header("content-type", "text/event-stream"),
    ];
    assert_eq!(
        hand_on(HeaderWay::Answer, &answer),
        vec![header("content-type", "text/event-stream")]
    );
}

#[test]
fn requests_are_counted_and_sorted() {
    let mut stats = ProxyStats::default();
    assert_eq!((stats.total_requests, stats.auto_switches), (0, 0));
    match route_request(&mut stats, "GET", "/health", Some("websocket")) {
        Route::Health(r) => {
            assert_eq!(r.status, 200);
            assert_eq!(r.body, "{\"auto_switches\":0,\"status\":\"ok\",\"total_requests\":1}");
        }
        _ => panic!("the health is asked for"),
    }
    assert!(matches!(route_request(&mut stats, "POST", "/health", None), Route::Relay));
    assert!(matches!(route_request(&mut stats, "GET", "/v1", Some("WebSocket")), Route::Socket));
    assert!(matches!(route_request(&mut stats, "GET", "/v1", Some("h2c")), Route::Relay));
    assert_eq!(stats.total_requests, 4);
    assert_eq!(count_on(u64::MAX), 0);
    assert!(!is_websocket_upgrade(None));
    assert_eq!(
        health_response(&ProxyStats { total_requests: 12, auto_switches: 3 }).body,
        "{\"auto_switches\":3,\"status\":\"ok\",\"total_requests\":12}"
    );
}

#[test]
fn errors_are_told_as_documents() {
    let r = error_response(503, "a \"b\"\n");
    assert_eq!(r.status, 503);
    assert_eq!(
        r.body,
        "{\"error\":{\"code\":503,\"message\":\"a \\\"b\\\"\\n\",\"type\":\"proxy_error\"}}"
    );
    assert_eq!(exhausted_message(None), "All account quotas exhausted");
    assert_eq!(
        exhausted_message(Some("12:30")),
        "All account quotas exhausted, earliest recovery: 12:30"
    );
}

#[test]
fn accounts_are_marked() {
    let mut store = store_of(vec![account("a", 5), account("b", 6)], Some("b"));
    assert!(mark_account_quota_depleted(&mut store, "a"));
    assert_eq!(store.accounts[0].cached_quota.as_ref().unwrap().five_hour_left, 0);
    assert_eq!(store.accounts[0].cached_quota.as_ref().unwrap().weekly_left, 90);
    assert!(!mark_account_quota_depleted(&mut store, "x"));
    assert!(mark_current_quota_depleted(&mut store));
    assert_eq!(store.accounts[1].cached_quota.as_ref().unwrap().five_hour_left, 0);
    assert!(mark_current_logged_out(&mut store));
    assert!(store.accounts[1].is_logged_out && !store.accounts[0].is_logged_out);
    assert_eq!(mark_current_banned(&mut store).unwrap().name, "name b");
    store.current = None;
    assert!(mark_current_banned(&mut store).is_none());
    assert!(!mark_current_logged_out(&mut store));
    assert!(!mark_current_quota_depleted(&mut store));
}

#[test]
fn services_follow_the_settings() {
    let idle = Running { scheduler: false, proxy: false, quota_refresh: false };
    let busy = Running { scheduler: true, proxy: true, quota_refresh: true };
    let mut store = store_of(vec![], None);
    let mut on = settings();
    on.background_refresh = true;
    on.proxy_enabled = true;
    on.quota_refresh_enabled = true;
    let plan = update_settings(&mut store, on, idle);
    assert_eq!(plan.scheduler, ServiceAction::Start);
    assert_eq!(plan.proxy, ServiceAction::Start);
    assert_eq!(plan.quota_refresh, ServiceAction::Start);
    assert!(store.settings.proxy_enabled);
    let plan = update_settings(&mut store, on, busy);
    assert_eq!(plan.proxy, ServiceAction::Keep);
    let mut moved = on;
    moved.proxy_port = 19000;
    assert_eq!(update_settings(&mut store, moved, busy).proxy, ServiceAction::Restart);
    moved.proxy_allow_lan = true;
    assert_eq!(update_settings(&mut store, moved, busy).proxy, ServiceAction::Restart);
    let plan = update_settings(&mut store, settings(), busy);
    assert_eq!(plan.scheduler, ServiceAction::Stop);
    assert_eq!(plan.proxy, ServiceAction::Stop);
    assert_eq!(plan.quota_refresh, ServiceAction::Stop);
    assert_eq!(run(&on).proxy, ServiceAction::Start);
    assert_eq!(run(&settings()).proxy, ServiceAction::Keep);
    assert_eq!(listen_address(false), [127, 0, 0, 1]);
    assert_eq!(listen_address(true), [0, 0, 0, 0]);
}

#[test]
fn the_status_of_the_proxy() {
    let mut s = settings();
    let stats = ProxyStats { total_requests: 7, auto_switches: 2 };
    let status = get_proxy_status(&s, true, Some([192, 168, 1, 20]), &stats);
    assert!(status.is_running && !status.enabled && !status.allow_lan);
    assert_eq!(status.base_url, "http://localhost:18080/v1");
    assert_eq!(status.lan_base_url, None);
    assert_eq!((status.total_requests, status.auto_switches), (7, 2));
    s.proxy_allow_lan = true;
    let status = get_proxy_status(&s, false, Some([192, 168, 1, 20]), &stats);
    assert_eq!(status.lan_base_url.as_deref(), Some("http://192.168.1.20:18080/v1"));
    assert_eq!(detect_lan_ipv4(Some([127, 0, 0, 1])), None);
    assert_eq!(detect_lan_ipv4(Some([10, 0, 0, 1])), Some([10, 0, 0, 1]));
    assert_eq!(detect_lan_ipv4(None), None);
}

#[test]
fn the_tooltip_shows_the_active_account() {
    let store = store_of(vec![account("a", 42)], Some("a"));
    let tip = update_tray_menu(&store);
    assert_eq!(tip, "Codex Switcher - name a | 5H: 42%  Wk: 90%");
    assert_eq!(update_tray_menu(&store_of(vec![], Some("a"))), "Codex Switcher");
    assert_eq!(update_tray_menu(&store_of(vec![], None)), "Codex Switcher - Not signed in");
}

#[test]
fn idle_accounts_are_kept_alive() {
    let mut store = store_of(vec![account("a", 1), account("b", 1), account("c", 1)], Some("a"));
    store.accounts[2].refresh_token = None;
    let due = vec!["a".to_string(), "b".to_string(), "c".to_string()];
    let targets = collect_targets(&store, &due);
    assert_eq!(targets.len(), 1);
    assert_eq!(targets[0].id, "b");
    assert_eq!(targets[0].refresh_token, "rt-b");

    let now = Timestamp { secs: 5_000, nanos: 0 };
    store.settings.background_refresh = true;
    store.accounts[1].keepalive.inactive_refresh_enabled = true;
    let (mut round, first) = start(&store);
    assert!(matches!(first, KeepaliveAction::ReadDisk));
    let out = round.step(&mut store, KeepaliveEvent::DiskRead(None, due), now);
    assert!(matches!(out.next, KeepaliveAction::Refresh { ref refresh_token } if refresh_token == "rt-b"));
    let out = round.step(
        &mut store,
        KeepaliveEvent::Refreshed(Err("refresh_token_reused".to_string())),
        now,
    );
    assert_eq!(store.accounts[1].keepalive.last_error.as_deref(), Some("refresh_token_reused"));
    assert!(!store.accounts[1].keepalive.inactive_refresh_enabled);
    assert_eq!(out.failed.unwrap().account_name, "name b");
    assert!(matches!(out.next, KeepaliveAction::Again { seconds: 1_800, .. }));
    assert_eq!(round.phase, KeepalivePhase::Done);
    assert!(out.entry.is_none());
}

#[test]
fn a_renewal_is_written_down() {
    let mut store = store_of(vec![account("a", 1), account("b", 1)], Some("a"));
    store.settings.background_refresh = true;
    store.settings.refresh_interval_minutes = 0;
    store.accounts[1].keepalive.inactive_refresh_enabled = true;
    let now = Timestamp { secs: 5_000, nanos: 0 };
    let (mut round, _) = start(&store);
    let disk = DiskAuth {
        auth: parse("{\"tokens\":{\"access_token\":\"x\",\"account_id\":\"acct-a\"}}").unwrap(),
        email: None,
    };
    let out = round.step(
        &mut store,
        KeepaliveEvent::DiskRead(Some(disk), vec!["b".to_string()]),
        now,
    );
    assert_eq!(out.save, Persist::BestEffort);
    assert_eq!(
        AccountStore::extract_access_token(&store.accounts[0].auth_json),
        Some("x".to_string())
    );
    let tokens = || TokenResponse {
        access_token: "fresh".to_string(),
        refresh_token: None,
        id_token: None,
        expires_in: None,
        email: None,
    };
    let out = round.step(&mut store, KeepaliveEvent::Refreshed(Ok(tokens())), now);
    let entry = out.entry.unwrap();
    assert_eq!(entry.to_name, "name b");
    assert_eq!(entry.reason, SwitchReason::BackgroundKeepalive);
    assert!(out.failed.is_none());
    assert!(matches!(out.next, KeepaliveAction::Again { seconds: 1_800, news: true }));
    assert_eq!(store.accounts[1].keepalive.last_attempt, Some(now));
    assert_eq!(
        AccountStore::extract_access_token(&store.accounts[1].auth_json),
        Some("fresh".to_string())
    );

    store.accounts[1].keepalive.inactive_refresh_enabled = false;
    let (mut round, _) = start(&store);
    round.step(&mut store, KeepaliveEvent::DiskRead(None, vec!["b".to_string()]), now);
    let out = round.step(&mut store, KeepaliveEvent::Refreshed(Ok(tokens())), now);
    assert!(out.entry.is_none());
    assert_eq!(out.save, Persist::No);
}

#[test]
fn signed_out_accounts_are_marked() {
    let mut store = store_of(vec![account("a", 1), account("b", 1)], Some("a"));
    store.settings.background_refresh = true;
    store.accounts[1].keepalive.inactive_refresh_enabled = true;
    let now = Timestamp { secs: 5_000, nanos: 0 };
    let (mut round, _) = start(&store);
    round.step(&mut store, KeepaliveEvent::DiskRead(None, vec!["b".to_string()]), now);
    round.step(&mut store, KeepaliveEvent::Refreshed(Err("Logged Out".to_string())), now);
    assert!(store.accounts[1].is_logged_out && !store.accounts[1].is_token_invalid);
    assert!(!store.accounts[1].keepalive.inactive_refresh_enabled);

    let mut store = store_of(vec![account("a", 1), account("b", 1)], Some("a"));
    store.settings.background_refresh = true;
    store.accounts[1].keepalive.inactive_refresh_enabled = true;
    let (mut round, _) = start(&store);
    round.step(&mut store, KeepaliveEvent::DiskRead(None, vec!["b".to_string()]), now);
    round.step(&mut store, KeepaliveEvent::Refreshed(Err("timeout".to_string())), now);
    assert!(store.accounts[1].keepalive.inactive_refresh_enabled);
    assert!(!store.accounts[1].is_token_invalid);
}

#[test]
fn a_sleeping_keepalive_looks_again_in_a_minute() {
    let (_, first) = start(&store_of(vec![], None));
    assert!(matches!(first, KeepaliveAction::Again { seconds: 60, news: false }));
}
