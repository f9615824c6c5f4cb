use codex_switcher::account::TokenResponse;
use codex_switcher::clock::Timestamp;
use codex_switcher::json::parse;
use codex_switcher::signals::{
    is_logged_out_error, is_reused_or_revoked_error, quota_trouble, QuotaTrouble,
};
use codex_switcher::usage::{
    build_usage_headers, is_window_in_range, usage_fields, usage_to_cached, usage_url,
    FetchAction, FetchEvent, FetchPhase, UsageFetcher, WindowNumbers,
};

const NOW: Timestamp = Timestamp { secs: 1_000_000, nanos: 0 };

fn tokens() -> TokenResponse {
    TokenResponse {
        access_token: "new".to_string(),
        refresh_token: None,
        id_token: None,
        expires_in: None,
        email: None,
    }
}

#[test]
fn windows_have_labels() {
    assert_eq!(UsageFetcher::get_limits_label(18_000), "5H Limit");
    assert_eq!(UsageFetcher::get_limits_label(18_600), "5H Limit");
    assert_eq!(UsageFetcher::get_limits_label(18_601), "24H Limit");
    assert_eq!(UsageFetcher::get_limits_label(87_000), "24H Limit");
    assert_eq!(UsageFetcher::get_limits_label(87_001), "Weekly Limit");
    assert_eq!(UsageFetcher::get_limits_label(608_400), "Weekly Limit");
    assert_eq!(UsageFetcher::get_limits_label(608_401), "170H Limit");
    assert_eq!(UsageFetcher::get_limits_label(-5), "5H Limit");
}

#[test]
fn durations_are_put_into_words() {
    assert_eq!(UsageFetcher::format_duration(0), "Reset soon");
    assert_eq!(UsageFetcher::format_duration(-100_000), "Reset soon");
    assert_eq!(UsageFetcher::format_duration(59), "Reset soon");
    assert_eq!(UsageFetcher::format_duration(60), "Resets in 1m");
    assert_eq!(UsageFetcher::format_duration(3_599), "Resets in 59m");
    assert_eq!(UsageFetcher::format_duration(3_600), "Resets in 1h 0m");
    assert_eq!(UsageFetcher::format_duration(89_999), "Resets in 24h 59m");
    assert_eq!(UsageFetcher::format_duration(90_000), "Resets in 1 days");
    assert_eq!(UsageFetcher::format_duration(864_000), "Resets in 10 days");
    assert_eq!(UsageFetcher::format_chrono_duration(7_260), "Resets in 2h 1m");
}

#[test]
fn resets_are_put_into_words() {
    assert_eq!(UsageFetcher::format_reset_at(0, NOW), "Unknown");
    assert_eq!(UsageFetcher::format_reset_at(1_003_600, NOW), "Resets in 1h 0m");
    let later = Timestamp { secs: 1_000_000, nanos: 1 };
    assert_eq!(UsageFetcher::format_reset_at(1_003_600, later), "Resets in 59m");
    assert_eq!(UsageFetcher::format_reset_at(5, NOW), "Reset soon");
    assert_eq!(UsageFetcher::format_reset_at(i64::MAX, NOW), "Reset soon");
    assert_eq!(UsageFetcher::format_reset(0), "Unknown");
    assert_eq!(UsageFetcher::format_reset(1), "Reset soon");
    assert!(UsageFetcher::format_reset(7_000_000_000).contains(" days"));
}

#[test]
fn integers_are_read_from_numbers_and_strings() {
    let read = |t: &str| UsageFetcher::parse_int(&parse(t).unwrap());
    assert_eq!(read("12"), Some(12));
    assert_eq!(read("4294967297"), Some(1));
    assert_eq!(read("1.5"), None);
    assert_eq!(read("\"-7\""), Some(-7));
    assert_eq!(read("\"+7\""), Some(7));
    assert_eq!(read("\"2147483647\""), Some(2147483647));
    assert_eq!(read("\"2147483648\""), None);
    assert_eq!(read("\"-2147483648\""), Some(-2147483648));
    assert_eq!(read("\"\""), None);
    assert_eq!(read("\"-\""), None);
    assert_eq!(read("\" 7\""), None);
    assert_eq!(read("true"), None);
}

#[test]
fn a_report_is_read() {
    let report = parse(
        "{\"plan_type\":\"plus\",\"rate_limit\":{\"primary_window\":{\"used_percent\":12.6,\"reset_at\":\"1003600\",\"limit_window_seconds\":18000},\"secondary_window\":{\"used_percent\":\"3\",\"reset_after_sec\":120}},\"credits\":{\"unlimited\":true,\"balance\":\"1.5\"}}",
    )
    .unwrap();
    let f = usage_fields(&report);
    assert_eq!(f.plan_type, "plus");
    let p = f.primary.as_ref().unwrap();
    assert_eq!(p.used_percent.as_deref(), Some("12.6"));
    assert_eq!(p.reset_at.as_deref(), Some("1003600"));
    assert_eq!(p.limit_window_seconds.as_deref(), Some("18000"));
    assert_eq!(p.reset_after, None);
    let s = f.secondary.as_ref().unwrap();
    assert_eq!(s.used_percent.as_deref(), Some("3"));
    assert_eq!(s.reset_after.as_deref(), Some("120"));
    assert!(f.has_credits);
    assert_eq!(f.balance.as_deref(), Some("1.5"));

    let primary = Some(WindowNumbers {
        used_percent: Some(13),
        reset_at: Some(1_003_600),
        limit_window_seconds: Some(18_000),
        reset_after: None,
    });
    let secondary = Some(WindowNumbers {
        used_percent: Some(3),
        reset_at: None,
        limit_window_seconds: None,
        reset_after: Some(120),
    });
    let d = UsageFetcher::parse_usage_response(f, primary, secondary, Some(1), NOW).unwrap();
    assert_eq!(d.five_hour_used, 13);
    assert_eq!(d.five_hour_left, 87);
    assert_eq!(d.five_hour_label, "5H Limit");
    assert_eq!(d.five_hour_reset, "Resets in 1h 0m");
    assert_eq!(d.five_hour_reset_at, Some(1_003_600));
    assert_eq!(d.weekly_left, 97);
    assert_eq!(d.weekly_label, "Weekly Limit");
    assert_eq!(d.weekly_reset, "Resets in 2m");
    assert_eq!(d.weekly_reset_at, None);
    assert_eq!(d.credits_balance, Some(1));
    assert!(d.is_valid_for_cli);
    let q = usage_to_cached(&d, NOW);
    assert_eq!(q.five_hour_left, 87);
    assert_eq!(q.plan_type, "plus");
    assert_eq!(q.updated_at, NOW);
}

#[test]
fn an_empty_report_shows_the_defaults() {
    let f = usage_fields(&parse("{}").unwrap());
    assert_eq!(f.plan_type, "unknown");
    assert!(f.primary.is_none() && f.secondary.is_none() && !f.has_credits && f.balance.is_none());
    let d = UsageFetcher::parse_usage_response(f, None, None, None, NOW).unwrap();
    assert_eq!(d.five_hour_left, 100);
    assert_eq!(d.five_hour_label, "5H Limit");
    assert_eq!(d.weekly_label, "Weekly Limit");
    assert_eq!(d.weekly_reset, "Unknown");
}

#[test]
fn a_window_with_odd_numbers() {
    let w = |reset_at, reset_after| {
        UsageFetcher::parse_window(
            Some(WindowNumbers {
                used_percent: None,
                reset_at,
                limit_window_seconds: Some(0),
                reset_after,
            }),
            "L",
            NOW,
        )
    };
    assert_eq!(w(Some(-1), Some(90)), (0, "Unknown".to_string(), "L".to_string(), Some(-1)));
    assert_eq!(w(None, Some(0)), (0, "Unknown".to_string(), "L".to_string(), None));
    assert_eq!(w(None, Some(90)), (0, "Resets in 1m".to_string(), "L".to_string(), None));
    assert!(!is_window_in_range(&Some(WindowNumbers {
        used_percent: Some(i32::MIN),
        reset_at: None,
        limit_window_seconds: None,
        reset_after: None,
    })));
    assert!(is_window_in_range(&None));
}

#[test]
fn a_query_that_is_answered_shows_its_report() {
    let (mut q, action) = UsageFetcher::fetch_usage_direct("at", None, false);
    assert!(matches!(action, FetchAction::Send { ref access_token } if access_token == "at"));
    assert!(matches!(q.step(FetchEvent::Answered(Ok(200))), FetchAction::ReadReport));
    let shown = q.step(FetchEvent::ReportRead(Ok("{\"plan_type\":\"pro\"}".to_string())));
    assert!(matches!(shown, FetchAction::Show(ref f) if f.plan_type == "pro"));
    assert_eq!(q.phase, FetchPhase::Done);
    assert!(matches!(q.step(FetchEvent::Answered(Ok(200))), FetchAction::Wait));
}

#[test]
fn a_refused_query_refreshes_once_where_it_may() {
    let (mut q, _) = UsageFetcher::fetch_usage_direct("at", Some("rt".to_string()), true);
    assert!(matches!(q.step(FetchEvent::Answered(Ok(401))),
        FetchAction::Refresh { ref refresh_token } if refresh_token == "rt"));
    assert!(matches!(q.step(FetchEvent::Refreshed(Ok(tokens()))),
        FetchAction::Send { ref access_token } if access_token == "new"));
    assert_eq!(q.new_tokens.as_ref().unwrap().access_token, "new");
    assert!(matches!(q.step(FetchEvent::Answered(Ok(403))), FetchAction::ReadRefusal));
    assert!(matches!(q.step(FetchEvent::RefusalRead("nope".to_string())), FetchAction::Fail(ref m)
        if m == "TOKEN_INVALID:Authorization expired, please delete this account and sign in again"));
}

#[test]
fn a_query_that_may_not_refresh_says_so() {
    let (mut q, _) = UsageFetcher::fetch_usage_direct("at", Some("rt".to_string()), false);
    assert!(matches!(q.step(FetchEvent::Answered(Ok(401))), FetchAction::ReadRefusal));
    assert!(matches!(q.step(FetchEvent::RefusalRead(String::new())), FetchAction::Fail(ref m)
        if m.starts_with("Current active account quota API returned 401/403")));
}

#[test]
fn refusals_tell_bans_and_logouts() {
    let (mut q, _) = UsageFetcher::fetch_usage_direct("at", None, true);
    q.step(FetchEvent::Answered(Ok(403)));
    assert!(matches!(q.step(FetchEvent::RefusalRead("Account SUSPENDED".to_string())),
        FetchAction::Fail(ref m) if m == "ACCOUNT_BANNED:This account has been banned"));

    let (mut q, _) = UsageFetcher::fetch_usage_direct("at", Some("rt".to_string()), true);
    q.step(FetchEvent::Answered(Ok(403)));
    assert!(matches!(q.step(FetchEvent::Refreshed(Err("Invalid_Grant".to_string()))),
        FetchAction::Fail(ref m) if m.starts_with("ACCOUNT_LOGGED_OUT:")));

    let (mut q, _) = UsageFetcher::fetch_usage_direct("at", Some("rt".to_string()), true);
    q.step(FetchEvent::Answered(Ok(403)));
    assert!(matches!(q.step(FetchEvent::Refreshed(Err("timeout".to_string()))), FetchAction::ReadRefusal));
}

#[test]
fn failures_of_a_query_are_told() {
    let (mut q, _) = UsageFetcher::fetch_usage_direct("at", None, true);
    assert!(matches!(q.step(FetchEvent::Answered(Err("dns".to_string()))),
        FetchAction::Fail(ref m) if m == "Network request failed: dns"));

    let (mut q, _) = UsageFetcher::fetch_usage_direct("at", Some("rt".to_string()), true);
    q.step(FetchEvent::Answered(Ok(401)));
    q.step(FetchEvent::Refreshed(Ok(tokens())));
    assert!(matches!(q.step(FetchEvent::Answered(Err("dns".to_string()))),
        FetchAction::Fail(ref m) if m == "Retry after refresh failed: dns"));

    let (mut q, _) = UsageFetcher::fetch_usage_direct("at", None, true);
    q.step(FetchEvent::Answered(Ok(200)));
    assert!(matches!(q.step(FetchEvent::ReportRead(Err("cut".to_string()))),
        FetchAction::Fail(ref m) if m == "Failed to read response body: cut"));

    let (mut q, _) = UsageFetcher::fetch_usage_direct("at", None, true);
    q.step(FetchEvent::Answered(Ok(200)));
    assert!(matches!(q.step(FetchEvent::ReportRead(Ok("{".to_string()))),
        FetchAction::Fail(ref m) if m.starts_with("Failed to parse JSON response: EOF")));

    let (mut q, _) = UsageFetcher::fetch_usage_direct("at", None, true);
    q.step(FetchEvent::Answered(Ok(200)));
    assert!(matches!(
        q.step(FetchEvent::ReportRead(Ok(
            "{\"detail\":{\"code\":\"Deactivated_Workspace\"}}".to_string()
        ))),
        FetchAction::Fail(ref m)
            if m == "ACCOUNT_BANNED:This account has been banned (workspace deactivated)"
    ));
}

#[test]
fn a_report_is_asked_for_with_these_headers() {
    assert_eq!(usage_url(), "https://chatgpt.com/backend-api/wham/usage");
    let h = build_usage_headers("t", &Some("acct".to_string()), "1.2.3");
    assert_eq!(h[0], ("Authorization".to_string(), "Bearer t".to_string()));
    assert_eq!(h[1].1, "codex_cli_rs/1.2.3 (Mac OS; x86_64) codex-cli");
    assert_eq!(h[4], ("ChatGPT-Account-Id".to_string(), "acct".to_string()));
    assert_eq!(build_usage_headers("t", &None, "1").len(), 4);
}

#[test]
fn messages_are_understood() {
    assert_eq!(quota_trouble("x ACCOUNT_BANNED TOKEN_INVALID"), QuotaTrouble::Banned);
    assert_eq!(quota_trouble("TOKEN_INVALID ACCOUNT_LOGGED_OUT"), QuotaTrouble::TokenInvalid);
    assert_eq!(quota_trouble("ACCOUNT_LOGGED_OUT"), QuotaTrouble::LoggedOut);
    assert_eq!(quota_trouble("account_banned"), QuotaTrouble::Other);
    for m in [
        "Refresh_Token_Reused",
        "refresh_token_invalidated",
        "refresh_token_expired",
        "deactivated",
        "UNAUTHORIZED",
        "invalid_grant",
    ] {
        assert!(is_reused_or_revoked_error(m));
        assert!(!is_logged_out_error(m));
    }
    assert!(is_logged_out_error("You have Logged Out"));
    assert!(is_logged_out_error("signed in to another account"));
    assert!(!is_reused_or_revoked_error("logged out"));
}
