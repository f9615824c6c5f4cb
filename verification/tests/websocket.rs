use codex_switcher::account::{
    Account, AccountStore, AppSettings, CachedQuota, KeepaliveState,
};
use codex_switcher::clock::Timestamp;
use codex_switcher::json::parse;
use codex_switcher::quota::Persist;
use codex_switcher::switch::SwitchReason;
use codex_switcher::usage::UsageDisplay;
use codex_switcher::websocket::{
    bridge_from_client, bridge_from_upstream, detect_ws_banned, detect_ws_rate_limit,
    handle_websocket, inject_frame, is_limit_hit, socket_address, socket_headers,
    upgrade_headers, SocketAction, SocketError, SocketEvent, SocketMessage, SocketPhase,
};

const NOW: Timestamp = Timestamp { secs: 1_000, nanos: 0 };

fn settings() -> AppSettings {
    AppSettings {
        background_refresh: false,
        refresh_interval_minutes: 30,
        inactive_refresh_days: 7,
        proxy_enabled: false,
        proxy_port: 18080,
        proxy_allow_lan: false,
        proxy_threshold_5h: 0,
        proxy_threshold_weekly: 0,
        proxy_free_guard: 0,
        quota_refresh_enabled: false,
        quota_refresh_interval: 5,
        quota_refresh_batch: 3,
        allow_auto_switch_to_free: false,
        notify_on_switch: true,
        inject_switch_message: false,
    }
}

fn quota(five: i32, week: i32) -> CachedQuota {
    CachedQuota {
        five_hour_left: five,
        five_hour_reset: String::new(),
        five_hour_reset_at: None,
        five_hour_label: String::new(),
        weekly_left: week,
        weekly_reset: String::new(),
        weekly_reset_at: None,
        weekly_label: String::new(),
        plan_type: "plus".to_string(),
        is_valid_for_cli: true,
        updated_at: Timestamp { secs: 0, nanos: 0 },
    }
}

fn account(id: &str, five: i32) -> Account {
    Account {
        id: id.to_string(),
        name: format!("name {}", id),
        auth_json: parse(&format!(
            "{{\"tokens\":{{\"access_token\":\"eyJ-{}\",\"account_id\":\"acct-{}\"}}}}",
            id, id
        ))
        .unwrap(),
        email: None,
        refresh_token: Some(format!("rt-{}", id)),
        created_at: Timestamp { secs: 0, nanos: 0 },
        last_used: None,
        notes: None,
        cached_quota: Some(quota(five, 90)),
        keepalive: KeepaliveState {
            inactive_refresh_enabled: false,
            last_attempt: None,
            last_error: None,
        },
        is_banned: false,
        is_token_invalid: false,
        is_logged_out: false,
    }
}

fn store_of(accounts: Vec<Account>, current: Option<&str>) -> AccountStore {
    AccountStore { accounts, current: current.map(|c| c.to_string()), settings: settings() }
}

fn usage(five: i32, week: i32) -> UsageDisplay {
    UsageDisplay {
        plan_type: "plus".to_string(),
        five_hour_used: 100 - five,
        five_hour_left: five,
        five_hour_label: String::new(),
        five_hour_reset: String::new(),
        five_hour_reset_at: None,
        weekly_used: 100 - week,
        weekly_left: week,
        weekly_label: String::new(),
        weekly_reset: String::new(),
        weekly_reset_at: None,
        credits_balance: None,
        has_credits: false,
        is_valid_for_cli: true,
    }
}

fn text(t: &str) -> SocketMessage {
    SocketMessage::Text(t.to_string())
}

#[test]
fn limits_are_seen() {
    assert!(detect_ws_rate_limit(&text("{\"type\":\"response.failed\",\"m\":\"RATE_LIMIT\"}")));
    assert!(detect_ws_rate_limit(&text("{\"type\":\"error\",\"m\":\"usage limit\"}")));
    assert!(detect_ws_rate_limit(&text("{\"response\":{\"error\":\"insufficient_quota\"}}")));
    assert!(detect_ws_rate_limit(&text("{\"error\":{},\"m\":\"tokens per min\"}")));
    assert!(detect_ws_rate_limit(&text("{\"detail\":\"Too many requests\"}")));
    assert!(detect_ws_rate_limit(&text("Too Many Requests")));
    assert!(detect_ws_rate_limit(&text("you hit your usage limit")));
    assert!(!detect_ws_rate_limit(&text("{\"type\":\"delta\",\"rate_limit\":1}")));
    assert!(!detect_ws_rate_limit(&text("{\"type\":\"error\"}")));
    assert!(!detect_ws_rate_limit(&text("rate_limit")));
    assert!(!detect_ws_rate_limit(&SocketMessage::Close));
    assert!(!detect_ws_rate_limit(&SocketMessage::Other));
    assert!(is_limit_hit("rate limit reached", &None));
}

#[test]
fn ordinary_messages_are_no_errors() {
    let created = "{\"type\":\"response.created\",\"response\":{\"error\":null,\"rate_limit\":1}}";
    assert!(!detect_ws_rate_limit(&text(created)));
    let quoted = "{\"type\":\"response.output_text.delta\",\"delta\":\"too many requests\"}";
    assert!(!detect_ws_rate_limit(&text(quoted)));
    assert!(!detect_ws_rate_limit(&text("{\"error\":null,\"m\":\"tokens per min\"}")));
    assert!(!detect_ws_rate_limit(&text("{\"response\":{\"error\":null},\"rate_limit\":1}")));
    assert!(!detect_ws_banned(&text("{\"type\":\"response.created\",\"m\":\"banned\"}")));
    assert!(!detect_ws_banned(&text("{\"m\":\"banned\"}")));
}

#[test]
fn a_field_for_an_error_tells_of_a_ban() {
    let told = "{\"type\":\"response.created\",\"response\":{\"error\":null},\"m\":\"banned\"}";
    assert!(detect_ws_banned(&text(told)));
    let told = "{\"type\":\"response.done\",\"error\":{\"code\":\"account_deactivated\"}}";
    assert!(detect_ws_banned(&text(told)));
    assert!(detect_ws_banned(&text("{\"error\":null,\"m\":\"banned\"}")));
    assert!(detect_ws_banned(&text("{\"response\":{\"error\":\"suspended\"}}")));
    assert!(!detect_ws_banned(&text("{\"response\":\"error\",\"m\":\"banned\"}")));
    assert!(detect_ws_banned(&text("{\"type\":\"response.failed\",\"m\":\"banned\"}")));
}

#[test]
fn bans_are_seen() {
    assert!(detect_ws_banned(&text("{\"type\":\"error\",\"m\":\"Suspended\"}")));
    assert!(detect_ws_banned(&text("{\"error\":\"account_deactivated\"}")));
    assert!(!detect_ws_banned(&text("{\"type\":\"delta\",\"m\":\"banned\"}")));
    assert!(!detect_ws_banned(&text("banned")));
    assert!(!detect_ws_banned(&SocketMessage::Other));
}

#[test]
fn the_bridge_breaks_off_at_a_limit() {
    let mut store = store_of(vec![account("a", 50), account("b", 10)], Some("a"));
    let out = bridge_from_upstream(&mut store, &text("too many requests"), 1_000);
    assert!(out.stop && out.ban.is_none());
    assert_eq!(out.save, Persist::BestEffort);
    assert_eq!(store.accounts[0].cached_quota.as_ref().unwrap().five_hour_left, 0);
    assert!(matches!(out.switch, Some((ref id, SwitchReason::WebSocketRateLimit)) if id == "b"));
}

#[test]
fn the_bridge_breaks_off_at_a_ban() {
    let mut store = store_of(vec![account("a", 50)], Some("a"));
    let out = bridge_from_upstream(&mut store, &text("{\"error\":\"banned\"}"), 1_000);
    assert!(out.stop && out.switch.is_none());
    assert_eq!(out.ban.unwrap().name, "name a");
    assert!(store.accounts[0].is_banned);
}

#[test]
fn the_bridge_goes_on_otherwise() {
    let mut store = store_of(vec![account("a", 50)], Some("a"));
    let out = bridge_from_upstream(&mut store, &text("hello"), 1_000);
    assert!(!out.stop && out.switch.is_none() && out.ban.is_none());
    assert_eq!(out.save, Persist::No);
    assert!(bridge_from_upstream(&mut store, &SocketMessage::Close, 1_000).stop);
    assert!(bridge_from_client(&SocketMessage::Close));
    assert!(!bridge_from_client(&text("banned too many requests")));
}

#[test]
fn a_connection_is_made_with_the_active_account() {
    let mut store = store_of(vec![account("a", 50)], Some("a"));
    let (mut k, start) = handle_websocket(&mut store, &None, 1_000);
    assert!(matches!(start.next, SocketAction::Connect { ref token } if token == "eyJ-a"));
    let out = k.step(&mut store, SocketEvent::Connected(Ok(())), NOW);
    assert!(matches!(out.next, SocketAction::Upgrade));
    assert_eq!(k.phase, SocketPhase::Done);
    assert!(matches!(
        k.step(&mut store, SocketEvent::Connected(Ok(())), NOW).next,
        SocketAction::Wait
    ));
}

#[test]
fn a_connection_needs_a_token() {
    let (_, start) = handle_websocket(&mut store_of(vec![], None), &None, 1_000);
    assert!(matches!(start.next, SocketAction::Reply(ref r)
        if r.status == 503 && r.body.contains("No active account")));
    let (_, start) = handle_websocket(&mut store_of(vec![], Some("a")), &None, 1_000);
    assert!(matches!(start.next, SocketAction::Reply(ref r)
        if r.body.contains("Current account does not exist")));
    let mut a = account("a", 1);
    a.auth_json = parse("{}").unwrap();
    let (_, start) = handle_websocket(&mut store_of(vec![a], Some("a")), &None, 1_000);
    assert!(matches!(start.next, SocketAction::Reply(ref r)
        if r.body.contains("Current account missing access_token")));
}

#[test]
fn candidates_are_asked_before_a_spent_account_is_left() {
    let mut store = store_of(vec![account("a", 0), account("b", 70), account("c", 30)], Some("a"));
    let (mut k, start) = handle_websocket(&mut store, &None, 1_000);
    assert!(matches!(start.next, SocketAction::Fetch { ref access_token, ref account_id, ref refresh_token, allow_local_refresh: false }
        if access_token == "eyJ-b" && account_id.as_deref() == Some("acct-b")
            && refresh_token.as_deref() == Some("rt-b")));
    let out = k.step(&mut store, SocketEvent::Fetched(Ok(usage(20, 0))), NOW);
    assert_eq!(out.save, Persist::BestEffort);
    let q = store.accounts[1].cached_quota.as_ref().unwrap();
    assert_eq!((q.five_hour_left, q.weekly_left), (0, 0));
    assert!(matches!(out.next, SocketAction::Fetch { ref access_token, .. } if access_token == "eyJ-c"));
    let out = k.step(&mut store, SocketEvent::Fetched(Ok(usage(20, 40))), NOW);
    assert!(matches!(out.next, SocketAction::Switch { ref id } if id == "c"));
    let out = k.step(&mut store, SocketEvent::Switched(Ok(())), NOW);
    assert!(matches!(out.next, SocketAction::Connect { ref token } if token == "eyJ-c"));
}

#[test]
fn without_a_candidate_the_spent_account_is_used() {
    let mut store = store_of(vec![account("a", 0), account("b", 70)], Some("a"));
    let (mut k, _) = handle_websocket(&mut store, &None, 1_000);
    let out = k.step(&mut store, SocketEvent::Fetched(Err("x".to_string())), NOW);
    assert_eq!(store.accounts[1].cached_quota.as_ref().unwrap().five_hour_left, 0);
    assert!(matches!(out.next, SocketAction::Connect { ref token } if token == "eyJ-a"));

    let mut store = store_of(vec![account("a", 0), account("b", 70)], Some("a"));
    let (mut k, _) = handle_websocket(&mut store, &None, 1_000);
    k.step(&mut store, SocketEvent::Fetched(Ok(usage(1, 1))), NOW);
    let out = k.step(&mut store, SocketEvent::Switched(Err("x".to_string())), NOW);
    assert!(matches!(out.next, SocketAction::Connect { ref token } if token == "eyJ-a"));
}

#[test]
fn a_refused_connection_is_tried_with_others() {
    let mut store = store_of(vec![account("a", 50), account("b", 70)], Some("a"));
    let (mut k, _) = handle_websocket(&mut store, &None, 1_000);
    let refused = || SocketEvent::Connected(Err(SocketError::Connect("HTTP error: 401 Unauthorized".to_string())));
    let out = k.step(&mut store, refused(), NOW);
    assert_eq!(out.save, Persist::BestEffort);
    assert!(matches!(out.next, SocketAction::Switch { ref id } if id == "b"));
    let out = k.step(&mut store, SocketEvent::Switched(Ok(())), NOW);
    assert!(matches!(out.next, SocketAction::Connect { ref token } if token == "eyJ-b"));
    let out = k.step(&mut store, refused(), NOW);
    assert!(matches!(out.next, SocketAction::Switch { .. }));
    let out = k.step(&mut store, SocketEvent::Switched(Err("x".to_string())), NOW);
    assert!(matches!(out.next, SocketAction::Switch { .. }));
    let out = k.step(&mut store, SocketEvent::Switched(Err("x".to_string())), NOW);
    assert!(matches!(out.next, SocketAction::Reply(ref r)
        if r.status == 502 && r.body.contains("All account WebSocket connections failed")));
}

#[test]
fn other_failures_of_a_connection_are_told() {
    let mut store = store_of(vec![account("a", 50)], Some("a"));
    let (mut k, _) = handle_websocket(&mut store, &None, 1_000);
    let out = k.step(
        &mut store,
        SocketEvent::Connected(Err(SocketError::Connect("reset".to_string()))),
        NOW,
    );
    assert!(matches!(out.next, SocketAction::Reply(ref r)
        if r.body.contains("WebSocket upstream connection failed: reset")));
    let (mut k, _) = handle_websocket(&mut store, &None, 1_000);
    let out = k.step(
        &mut store,
        SocketEvent::Connected(Err(SocketError::Build("url 401".to_string()))),
        NOW,
    );
    assert!(matches!(out.next, SocketAction::Reply(ref r)
        if r.body.contains("WebSocket request build failed: url 401")));
}

#[test]
fn the_handshake_is_answered() {
    let upstream = vec![
        ("sec-websocket-accept".to_string(), b"other".to_vec()),
        ("x-codex-turn-state".to_string(), b"s".to_vec()),
    ];
    let h = upgrade_headers("dGhlIHNhbXBsZSBub25jZQ==", &upstream);
    assert_eq!(h.len(), 4);
    assert_eq!(h[0], ("upgrade".to_string(), b"websocket".to_vec()));
    assert_eq!(h[1], ("connection".to_string(), b"Upgrade".to_vec()));
    assert_eq!(
        h[2],
        ("sec-websocket-accept".to_string(), b"s3pPLMBiTxaQ9kYGzzhZRbK+xOo=".to_vec())
    );
    assert_eq!(h[3], ("x-codex-turn-state".to_string(), b"s".to_vec()));
}

#[test]
fn the_handshake_carries_the_headers_of_the_client() {
    let own = vec![
        ("host".to_string(), b"chatgpt.com".to_vec()),
        ("sec-websocket-key".to_string(), b"own".to_vec()),
    ];
    let client = vec![
        ("host".to_string(), b"127.0.0.1".to_vec()),
        ("sec-websocket-key".to_string(), b"theirs".to_vec()),
        ("authorization".to_string(), b"Bearer theirs".to_vec()),
        ("openai-beta".to_string(), b"1".to_vec()),
        ("openai-beta".to_string(), b"2".to_vec()),
    ];
    let h = socket_headers(own, &client, "tok");
    assert_eq!(
        h,
        vec![
            ("host".to_string(), b"chatgpt.com".to_vec()),
            ("sec-websocket-key".to_string(), b"own".to_vec()),
            ("openai-beta".to_string(), b"2".to_vec()),
            ("authorization".to_string(), b"Bearer tok".to_vec()),
        ]
    );
}

#[test]
fn a_notice_is_put_into_the_conversation() {
    assert_eq!(
        inject_frame("say \"hi\""),
        "{\"delta\":\"\\nsay \\\"hi\\\"\\n\",\"type\":\"response.output_text.delta\"}"
    );
}

#[test]
fn the_address_depends_on_the_token() {
    assert_eq!(
        socket_address("eyJ-a", "/v1/responses"),
        "wss://chatgpt.com/backend-api/codex/responses"
    );
    assert_eq!(socket_address("sk-a", "/v1/responses"), "wss://api.openai.com/v1/responses");
}
