use codex_switcher::account::{AccountStore, KeepaliveState, TokenResponse};
use codex_switcher::clock::Timestamp;
use codex_switcher::oauth_server::{
    auth_url, bind_failed, code_from_pairs, extract_oauth_code_from_request,
    finalize_oauth_login, generate_state, handle_callback, redirect_uri, target_of, LoginFlow,
    UserInfo, DEFAULT_PORT,
};

fn keepalive() -> KeepaliveState {
    KeepaliveState { inactive_refresh_enabled: true, last_attempt: None, last_error: None }
}

fn tokens(refresh: Option<&str>) -> TokenResponse {
    TokenResponse {
        access_token: "at".to_string(),
        refresh_token: refresh.map(|r| r.to_string()),
        id_token: Some("it".to_string()),
        expires_in: Some(60),
        email: None,
    }
}

#[test]
fn extract_code_success_when_state_matches() {
    let req = "GET /auth/callback?code=abc123&state=s1 HTTP/1.1\r\nHost: localhost\r\n\r\n";
    assert_eq!(extract_oauth_code_from_request(req, "s1"), Some("abc123".to_string()));
}

#[test]
fn extract_code_returns_none_when_state_mismatch() {
    let req = "GET /auth/callback?code=abc123&state=s2 HTTP/1.1\r\nHost: localhost\r\n\r\n";
    assert_eq!(extract_oauth_code_from_request(req, "s1"), None);
}

#[test]
fn extract_code_returns_none_when_invalid_request_line() {
    let req = "INVALID\r\nHost: localhost\r\n\r\n";
    assert_eq!(extract_oauth_code_from_request(req, "s1"), None);
}

#[test]
fn escapes_in_a_query_are_undone() {
    let req = "GET /auth/callback?code=a%2Fb+c&state=s%201 HTTP/1.1\r\n\r\n";
    assert_eq!(extract_oauth_code_from_request(req, "s 1"), Some("a/b c".to_string()));
}

#[test]
fn of_several_values_the_last_counts() {
    let pairs = vec![
        ("state".to_string(), "x".to_string()),
        ("code".to_string(), "1".to_string()),
        ("state".to_string(), "s".to_string()),
        ("code".to_string(), "2".to_string()),
    ];
    assert_eq!(code_from_pairs(&pairs, "s"), Some("2".to_string()));
    assert_eq!(code_from_pairs(&pairs, "x"), None);
    assert_eq!(code_from_pairs(&vec![("state".to_string(), "s".to_string())], "s"), None);
    assert_eq!(
        extract_oauth_code_from_request("GET /?code=1&state=a&state=s&code=2 HTTP/1.1", "s"),
        Some("2".to_string())
    );
}

#[test]
fn a_target_that_makes_no_address_has_no_code() {
    assert_eq!(target_of("GET :99999999/?code=1&state=s HTTP/1.1"), Some(
        ":99999999/?code=1&state=s".to_string()
    ));
    assert_eq!(extract_oauth_code_from_request("GET :99999999/?code=1&state=s HTTP/1.1", "s"), None);
    assert_eq!(extract_oauth_code_from_request("", "s"), None);
}

#[test]
fn states_are_random_and_url_safe() {
    let a = generate_state();
    let b = generate_state();
    assert_eq!(a.len(), 43);
    assert_ne!(a, b);
    assert!(a.chars().all(|c| c.is_ascii_alphanumeric() || c == '-' || c == '_'));
}

#[test]
fn the_address_of_the_sign_in_page() {
    let redirect = redirect_uri(DEFAULT_PORT);
    assert_eq!(redirect, "http://localhost:1455/auth/callback");
    assert_eq!(
        auth_url("https://auth", "cid", &redirect, "ch", "st"),
        "https://auth?response_type=code&client_id=cid&redirect_uri=http://localhost:1455/auth/callback&scope=openid profile email offline_access&code_challenge=ch&code_challenge_method=S256&id_token_add_organizations=true&codex_cli_simplified_flow=true&state=st&originator=codex_vscode"
    );
    assert_eq!(
        bind_failed("in use"),
        "Cannot bind to local port 1455: in use. Close the process using this port and retry."
    );
}

#[test]
fn a_sign_in_is_completed_once() {
    let mut flow = LoginFlow { pending: None };
    assert_eq!(flow.complete_oauth_login(), Err("Login flow expired or not started".to_string()));
    flow.start_oauth_login("first".to_string(), 1);
    flow.start_oauth_login("second".to_string(), 1455);
    assert_eq!(
        flow.complete_oauth_login(),
        Ok(("second".to_string(), "http://localhost:1455/auth/callback".to_string()))
    );
    assert!(flow.complete_oauth_login().is_err());
}

#[test]
fn callbacks_are_answered() {
    let good = handle_callback(b"GET /auth/callback?code=c&state=s HTTP/1.1\r\n\r\n", "s");
    assert_eq!(good.code, Some("c".to_string()));
    assert!(good.response.unwrap().starts_with("HTTP/1.1 200 OK\r\n"));
    let bad = handle_callback(b"GET /auth/callback?code=c&state=x HTTP/1.1\r\n\r\n", "s");
    assert_eq!(bad.code, None);
    assert_eq!(
        bad.response.unwrap(),
        "HTTP/1.1 400 Bad Request\r\n\r\nAuthorization failed: State verification failed or missing parameters"
    );
    let empty = handle_callback(b"", "s");
    assert!(empty.code.is_none() && empty.response.is_none());
}

#[test]
fn a_sign_in_becomes_an_account() {
    let user = Some(UserInfo { email: "me@x".to_string(), account_id: Some("acct".to_string()) });
    let now = Timestamp { secs: 0, nanos: 0 };
    let a = finalize_oauth_login(&tokens(Some("rt")), &user, "id-1", keepalive(), now).unwrap();
    assert_eq!(a.id, "id-1");
    assert_eq!(a.name, "me@x");
    assert_eq!(a.notes.as_deref(), Some("OpenAI OAuth Login"));
    assert_eq!(a.created_at, now);
    assert_eq!(a.refresh_token, Some("rt".to_string()));
    assert_eq!(AccountStore::extract_access_token(&a.auth_json), Some("at".to_string()));
    assert_eq!(AccountStore::extract_refresh_token(&a.auth_json), Some("rt".to_string()));
    assert_eq!(AccountStore::extract_account_id(&a.auth_json), Some("acct".to_string()));
    assert_eq!(
        a.auth_json.get("tokens").unwrap().get("expires_at").unwrap().as_str(),
        Some("1970-01-01T00:01:00+00:00")
    );
}

#[test]
fn a_sign_in_without_what_it_needs_is_refused() {
    let user = Some(UserInfo { email: "me@x".to_string(), account_id: None });
    let now = Timestamp { secs: 0, nanos: 0 };
    assert_eq!(
        finalize_oauth_login(&tokens(None), &user, "i", keepalive(), now).unwrap_err(),
        "OAuth did not return refresh_token, cannot auto-renew"
    );
    assert_eq!(
        finalize_oauth_login(&tokens(Some("r")), &None, "i", keepalive(), now).unwrap_err(),
        "Failed to parse user info from authorization response (Missing ID Token)"
    );
}
