use codex_switcher::clock::{seconds_until, shift, Timestamp, FIRST_SECOND, LAST_SECOND};
use codex_switcher::token_tracker::{
    cost_at, extract_usage_from_sse, extract_usage_from_text, get_pricing, usage_of_event,
    ModelPricing, RequestUsage, TokenHistoryEntry, TokenTracker, UsageStats,
};

// 2023-11-14, 2023-11-30 and 2023-12-01.
const NOW: Timestamp = Timestamp { secs: 1_700_000_000, nanos: 0 };
const LATER: Timestamp = Timestamp { secs: 1_701_388_799, nanos: 0 };
const NEXT_MONTH: Timestamp = Timestamp { secs: 1_701_388_800, nanos: 0 };

fn usage(input: i64, cached: i64, output: i64, model: &str) -> RequestUsage {
    RequestUsage {
        input_tokens: input,
        cached_input_tokens: cached,
        output_tokens: output,
        total_tokens: input + output,
        model: model.to_string(),
    }
}

fn entry(secs: i64) -> TokenHistoryEntry {
    TokenHistoryEntry {
        timestamp: Timestamp { secs, nanos: 0 },
        model: String::new(),
        input_tokens: 0,
        output_tokens: 0,
        cost: 0,
    }
}

#[test]
fn models_have_prices() {
    let price = |input, cached_input, output| ModelPricing { input, cached_input, output };
    assert_eq!(get_pricing("O3-pro"), price(2000, 1000, 8000));
    assert_eq!(get_pricing("o4-MINI"), price(1100, 275, 4400));
    assert_eq!(get_pricing("codex-mini-latest"), price(1500, 375, 6000));
    assert_eq!(get_pricing("gpt-4.1"), price(2000, 500, 8000));
    assert_eq!(get_pricing("gpt-4.1-mini"), price(2000, 500, 8000));
    assert_eq!(get_pricing("gpt-5"), price(2000, 500, 8000));
    assert_eq!(get_pricing(""), price(2000, 500, 8000));
}

#[test]
fn a_request_has_its_cost() {
    let u = usage(1_000, 400, 50, "o4-mini");
    // 600 * 1100 + 400 * 275 + 50 * 4400
    assert_eq!(cost_at(&u, get_pricing("o4-mini")), 990_000);
    assert_eq!(cost_at(&usage(1_000_000, 0, 0, ""), get_pricing("")), 2_000_000_000);
}

#[test]
fn usage_is_added_up() {
    let mut t = TokenTracker::new(None, NOW);
    let e = t.record(usage(1_000, 400, 50, "o4-mini"), NOW);
    assert_eq!(e.cost, 990_000);
    assert_eq!(e.model, "o4-mini");
    assert_eq!(e.timestamp, NOW);
    t.record_if_room(usage(10, 0, 1, "gpt-5"), NOW).unwrap();
    t.record_if_room(usage(10, 0, 1, "o4-mini"), NOW).unwrap();
    let s = t.get_stats();
    assert_eq!(s.total_input_tokens, 1_020);
    assert_eq!(s.total_cached_input_tokens, 400);
    assert_eq!(s.total_output_tokens, 52);
    assert_eq!(s.total_tokens, 1_072);
    assert_eq!(s.total_requests, 3);
    assert_eq!(s.total_cost, 990_000 + 28_000 + 15_400);
    assert_eq!(s.by_model.len(), 2);
    assert_eq!(s.by_model[0].0, "o4-mini");
    assert_eq!(s.by_model[0].1.input_tokens, 1_010);
    assert_eq!(s.by_model[0].1.cost, 990_000 + 15_400);
    assert_eq!(s.by_model[1].1.output_tokens, 1);
    let sum: i128 = s.by_model.iter().map(|m| m.1.cost).sum();
    assert_eq!(sum, s.total_cost);
}

#[test]
fn what_does_not_fit_is_not_added() {
    let mut t = TokenTracker::new(None, NOW);
    let mut u = usage(0, 0, 0, "m");
    u.total_tokens = i64::MAX;
    assert!(t.record_if_room(u, NOW).is_some());
    assert!(t.record_if_room(usage(1, 0, 0, "m"), NOW).is_none());
    let mut t = TokenTracker::new(None, NOW);
    t.stats.total_cost = i128::MAX;
    assert!(t.record_if_room(usage(1, 0, 0, "m"), NOW).is_none());
    assert!(t.record_if_room(usage(0, 0, 0, "m"), NOW).is_some());
    assert_eq!(t.get_stats().total_requests, 1);
}

#[test]
fn a_month_is_kept_and_the_next_begins_anew() {
    let mut t = TokenTracker::new(None, NOW);
    t.record(usage(5, 0, 5, "m"), NOW);
    let t = TokenTracker::new(Some(t.stats), LATER);
    assert_eq!(t.stats.total_tokens, 10);
    assert_eq!(t.stats.since, NOW);
    let t = TokenTracker::new(Some(t.stats), NEXT_MONTH);
    assert_eq!(t.stats.total_tokens, 0);
    assert_eq!(t.stats.since, NEXT_MONTH);
    assert_eq!(t.stats.last_month_tokens, Some(10));
    assert_eq!(t.stats.last_month_cost, Some(50_000));
    assert!(t.stats.by_model.is_empty());
    let year = Timestamp { secs: NOW.secs + 366 * 86_400, nanos: 0 };
    assert_eq!(TokenTracker::new(Some(UsageStats::begin(NOW)), year).stats.since, year);
}

#[test]
fn a_reset_remembers_what_was() {
    let mut t = TokenTracker::new(None, NOW);
    assert_eq!(t.stats.last_month_cost, None);
    t.record(usage(5, 0, 5, "m"), NOW);
    t.reset(LATER);
    assert_eq!(t.stats.total_cost, 0);
    assert_eq!(t.stats.since, LATER);
    assert_eq!(t.stats.last_month_tokens, Some(10));
}

#[test]
fn the_history_is_cut_off() {
    let day = 86_400;
    let all = || vec![entry(NOW.secs - 2 * day), entry(NOW.secs - day), entry(NOW.secs - day + 1)];
    let recent = TokenTracker::get_history(all(), 1, NOW);
    assert_eq!(recent.len(), 1);
    assert_eq!(recent[0].timestamp.secs, NOW.secs - day + 1);
    assert_eq!(TokenTracker::get_history(all(), 3, NOW).len(), 3);
    assert_eq!(TokenTracker::get_history(all(), 0, NOW).len(), 0);
}

#[test]
fn usage_is_found_in_a_stream() {
    let stream = b"event: x\r\ndata: {\"type\":\"response.created\"}\r\n\r\n  data:data: {\"type\":\"response.completed\",\"response\":{\"model\":\"gpt-5\",\"usage\":{\"input_tokens\":12,\"input_tokens_details\":{\"cached_tokens\":4},\"output_tokens\":3,\"total_tokens\":15}}}\n";
    let u = extract_usage_from_sse(stream, "hint").unwrap();
    assert_eq!(u.input_tokens, 12);
    assert_eq!(u.cached_input_tokens, 4);
    assert_eq!(u.output_tokens, 3);
    assert_eq!(u.total_tokens, 15);
    assert_eq!(u.model, "gpt-5");

    let mut t = TokenTracker::new(None, NOW);
    assert!(t.record_stream(stream, NOW).is_some());
    assert_eq!(t.stats.total_tokens, 15);
    assert!(t.record_stream(b"", NOW).is_none());
    assert_eq!(t.stats.total_requests, 1);
}

#[test]
fn usage_is_filled_in() {
    let u = extract_usage_from_text(
        "data: {\"m\":\"response.completed\",\"response\":{\"usage\":{\"input_tokens\":2,\"output_tokens\":3}}}",
        "hint",
    )
    .unwrap();
    assert_eq!(u.total_tokens, 5);
    assert_eq!(u.cached_input_tokens, 0);
    assert_eq!(u.model, "hint");
}

#[test]
fn what_is_no_usage_is_passed_over() {
    let done = "{\"type\":\"response.completed\",\"response\":{\"usage\":{\"total_tokens\":7}}}";
    let zero = "data: {\"type\":\"response.completed\",\"response\":{\"usage\":{}}}\n";
    let broken = "data: {response.completed\n";
    let text = format!("{}{}data: {}", zero, broken, done);
    assert_eq!(extract_usage_from_text(&text, "").unwrap().total_tokens, 7);
    assert!(extract_usage_from_text(done, "").is_none());
    assert!(extract_usage_from_text("data: {\"type\":\"x\"}", "").is_none());
    let bare = format!("data: {{\"type\":\"response.completed\"}}\ndata: {}", done);
    assert_eq!(extract_usage_from_text(&bare, "").unwrap().total_tokens, 7);
    let doc = codex_switcher::json::parse("{\"response\":{}}").unwrap();
    assert!(usage_of_event(&doc, "").is_none());
    let other = "data: {\"type\":\"response.output_text.delta\",\"delta\":\"response.completed\",\"response\":{\"usage\":{\"total_tokens\":9}}}\n";
    assert!(extract_usage_from_text(other, "").is_none());
}

#[test]
fn a_text_that_names_the_event_is_not_the_event() {
    let text = "data: {\"type\":\"response.output_text.delta\",\"delta\":\"response.completed\"}\ndata: {\"type\":\"response.completed\",\"response\":{\"model\":\"o3\",\"usage\":{\"input_tokens\":1,\"output_tokens\":2}}}";
    let u = extract_usage_from_sse(text.as_bytes(), "m").unwrap();
    assert_eq!((u.input_tokens, u.cached_input_tokens), (1, 0));
    assert_eq!((u.output_tokens, u.total_tokens), (2, 3));
    assert_eq!(u.model, "o3");
}

#[test]
fn bytes_that_are_no_text_do_no_harm() {
    let mut stream = b"data: \xff\xfe response.completed\n".to_vec();
    stream.extend_from_slice(
        b"data: {\"type\":\"response.completed\",\"response\":{\"usage\":{\"total_tokens\":1}}}",
    );
    assert_eq!(extract_usage_from_sse(&stream, "").unwrap().total_tokens, 1);
}

#[test]
fn instants_are_ordered_and_shifted() {
    let a = Timestamp { secs: 5, nanos: 3 };
    assert!(a.is_before(&Timestamp { secs: 5, nanos: 4 }));
    assert!(a.is_before(&Timestamp { secs: 6, nanos: 0 }));
    assert!(!a.is_before(&a));
    assert_eq!(seconds_until(10, a), 4);
    assert_eq!(seconds_until(10, Timestamp { secs: 5, nanos: 0 }), 5);
    assert_eq!(seconds_until(2, a), -3);
    assert_eq!(shift(a, 10), Some(Timestamp { secs: 15, nanos: 3 }));
    assert_eq!(shift(a, LAST_SECOND), None);
    assert_eq!(shift(a, i64::MIN), None);
    assert_eq!(shift(a, FIRST_SECOND - 5), Some(Timestamp { secs: FIRST_SECOND, nanos: 3 }));
}
