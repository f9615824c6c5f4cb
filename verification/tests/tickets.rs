use codex_switcher::account::{AccountStore, AppSettings};
use codex_switcher::clock::Timestamp;
use codex_switcher::state::{AppState, QuarantineFixTicket};
use codex_switcher::token_tracker::UsageStats;

fn settings() -> AppSettings {
    AppSettings {
        background_refresh: false,
        refresh_interval_minutes: 30,
        inactive_refresh_days: 7,
        proxy_enabled: false,
        proxy_port: 18080,
        proxy_allow_lan: false,
        proxy_threshold_5h: 0,
        proxy_threshold_weekly: 0,
        proxy_free_guard: 0,
        quota_refresh_enabled: false,
        quota_refresh_interval: 5,
        quota_refresh_batch: 3,
        allow_auto_switch_to_free: false,
        notify_on_switch: false,
        inject_switch_message: false,
    }
}

fn present() -> Timestamp {
    let t = chrono::Utc::now();
    Timestamp { secs: t.timestamp(), nanos: t.timestamp_subsec_nanos() }
}

fn fresh_state() -> AppState {
    let store = AccountStore { accounts: Vec::new(), current: None, settings: settings() };
    AppState::new(store, None, present())
}

#[test]
fn quarantine_fix_ticket_can_only_be_used_once() {
    let mut state = fresh_state();
    let ticket = state.issue_quarantine_fix_ticket().unwrap();

    assert!(state.consume_quarantine_fix_ticket(&ticket).is_ok());
    assert!(state.consume_quarantine_fix_ticket(&ticket).is_err());
}

#[test]
fn quarantine_fix_ticket_rejects_mismatch() {
    let mut state = fresh_state();
    let _ticket = state.issue_quarantine_fix_ticket().unwrap();

    assert!(state.consume_quarantine_fix_ticket("wrong-ticket").is_err());
}

#[test]
fn quarantine_fix_ticket_rejects_expired_ticket() {
    let mut state = fresh_state();
    let now = present();
    state.quarantine_fix_ticket = Some(QuarantineFixTicket {
        value: "expired".to_string(),
        expires_at: Timestamp { secs: now.secs - 1, nanos: now.nanos },
    });

    let err = state
        .consume_quarantine_fix_ticket("expired")
        .expect_err("expired ticket should be rejected");
    assert!(err.contains("expired"));
}

#[test]
fn a_ticket_has_the_form_of_a_uuid() {
    let mut state = fresh_state();
    let a = state.issue_quarantine_fix_ticket().unwrap();
    let b = state.issue_quarantine_fix_ticket().unwrap();
    assert_eq!(a.len(), 36);
    assert_ne!(a, b);
    assert_eq!(a.chars().filter(|c| *c == '-').count(), 4);
    // The second ticket has taken the place of the first.
    assert!(state.consume_quarantine_fix_ticket(&a).is_err());
}

#[test]
fn a_ticket_is_good_up_to_its_last_instant() {
    let mut state = fresh_state();
    let t = Timestamp { secs: 1_000, nanos: 5 };
    assert!(state.issue_ticket_at("v", t));
    let end = Timestamp { secs: 1_120, nanos: 5 };
    assert_eq!(state.consume_ticket_at("v", end), Ok(()));

    assert!(state.issue_ticket_at("v", t));
    let past = Timestamp { secs: 1_120, nanos: 6 };
    assert_eq!(
        state.consume_ticket_at("v", past),
        Err("Security confirmation expired, please click fix again".to_string())
    );
    assert_eq!(
        state.consume_ticket_at("v", end),
        Err("Missing security confirmation, please click fix again".to_string())
    );
    assert!(state.issue_ticket_at("v", t));
    assert_eq!(
        state.consume_ticket_at("w", end),
        Err("Security confirmation invalid, please click fix again".to_string())
    );
}

#[test]
fn no_ticket_outlasts_the_calendar() {
    let mut state = fresh_state();
    let last = Timestamp { secs: codex_switcher::clock::LAST_SECOND, nanos: 0 };
    assert!(!state.issue_ticket_at("v", last));
    assert!(state.quarantine_fix_ticket.is_none());
}

#[test]
fn a_state_begins_with_nothing_running() {
    let state = fresh_state();
    assert!(!state.running.scheduler && !state.running.proxy && !state.running.quota_refresh);
    assert_eq!(state.proxy_stats.total_requests, 0);
    assert_eq!(state.proxy_stats.auto_switches, 0);
    assert_eq!(state.token_tracker.stats.total_tokens, 0);
}

#[test]
fn a_state_goes_on_with_the_statistics_of_the_month() {
    let now = Timestamp { secs: 1_700_000_000, nanos: 0 };
    let mut kept = UsageStats::begin(Timestamp { secs: 1_699_900_000, nanos: 0 });
    kept.total_tokens = 42;
    let store = AccountStore { accounts: Vec::new(), current: None, settings: settings() };
    let state = AppState::new(store, Some(kept), now);
    assert_eq!(state.token_tracker.stats.total_tokens, 42);
}
