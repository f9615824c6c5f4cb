//! The usage report of an account: asking for it, reading it, and putting it into words.
use crate::account::{CachedQuota, TokenResponse};
use crate::clock::{seconds_until, Timestamp};
use crate::json::{get_of, string_of, truth_of, Json, JsonView};
use crate::signals::{is_ban_reply, is_logout_reply};
use crate::text::{concat2, concat3, contains, parse_i32, show_i64, to_lowercase};
use vstd::prelude::*;

verus! {

/// What is shown of the usage of an account.
#[derive(Debug)]
pub struct UsageDisplay {
    /// The plan.
    pub plan_type: String,
    /// What is used of the five hour window, in per cent.
    pub five_hour_used: i32,
    /// What is left of the five hour window, in per cent.
    pub five_hour_left: i32,
    /// The label of the five hour window.
    pub five_hour_label: String,
    /// When the five hour window is reset, in words.
    pub five_hour_reset: String,
    /// The second at which the five hour window is reset.
    pub five_hour_reset_at: Option<i64>,
    /// What is used of the weekly window, in per cent.
    pub weekly_used: i32,
    /// What is left of the weekly window, in per cent.
    pub weekly_left: i32,
    /// The label of the weekly window.
    pub weekly_label: String,
    /// When the weekly window is reset, in words.
    pub weekly_reset: String,
    /// The second at which the weekly window is reset.
    pub weekly_reset_at: Option<i64>,
    /// The balance of credits, as the bits of a double precision number.
    pub credits_balance: Option<u64>,
    /// There are credits.
    pub has_credits: bool,
    /// The token is good for the command line.
    pub is_valid_for_cli: bool,
}

/// Asks for usage reports and reads them.
pub struct UsageFetcher;

// ---------------------------------------------------------------------------
// Words for times
// ---------------------------------------------------------------------------

/// The label of a window of so many seconds.
pub open spec fn label_text(seconds: int) -> Seq<char> {
    if seconds <= 5 * 3600 + 600 {
        "5H Limit"@
    } else if seconds <= 24 * 3600 + 600 {
        "24H Limit"@
    } else if seconds <= 7 * 24 * 3600 + 3600 {
        "Weekly Limit"@
    } else {
        crate::text::decimal(((seconds + 3599) / 3600) as nat) + "H Limit"@
    }
}

/// The words for a reset in so many seconds.
pub open spec fn reset_text(seconds: int) -> Seq<char> {
    if seconds >= 25 * 3600 {
        "Resets in "@ + crate::text::decimal((seconds / 86400) as nat) + " days"@
    } else if seconds >= 3600 {
        "Resets in "@ + crate::text::decimal((seconds / 3600) as nat) + "h "@
            + crate::text::decimal(((seconds % 3600) / 60) as nat) + "m"@
    } else if seconds >= 60 {
        "Resets in "@ + crate::text::decimal((seconds / 60) as nat) + "m"@
    } else {
        "Reset soon"@
    }
}

/// The words for a reset at a second, seen at `now`. A second that the calendar cannot name counts
/// as the present.
pub open spec fn reset_at_text(reset_at: int, now: Timestamp) -> Seq<char> {
    if reset_at == 0 {
        "Unknown"@
    } else if crate::clock::FIRST_SECOND <= reset_at <= crate::clock::LAST_SECOND {
        reset_text(crate::clock::whole_seconds(reset_at, now))
    } else {
        "Reset soon"@
    }
}

impl UsageFetcher {
    /// The label of a window of so many seconds.
    pub fn get_limits_label(seconds: i64) -> (label: String)
        requires
            seconds <= i64::MAX - 3599,
        ensures
            label@ == label_text(seconds as int),
    {
        if seconds <= 3600 * 5 + 600 {
            "5H Limit".to_owned()
        } else if seconds <= 24 * 3600 + 600 {
            "24H Limit".to_owned()
        } else if seconds <= 7 * 24 * 3600 + 3600 {
            "Weekly Limit".to_owned()
        } else {
            let hours: i64 = (seconds + 3599) / 3600;
            concat2(show_i64(hours).as_str(), "H Limit")
        }
    }

    /// The words for a reset in so many seconds.
    pub fn format_duration(seconds: i64) -> (words: String)
        ensures
            words@ == reset_text(seconds as int),
    {
        if seconds < 60 {
            return "Reset soon".to_owned();
        }
        let hours: i64 = seconds / 3600;
        let minutes: i64 = (seconds % 3600) / 60;
        if hours > 24 {
            let days: i64 = hours / 24;
            assert(days == seconds / 86400);
            concat3("Resets in ", show_i64(days).as_str(), " days")
        } else if hours > 0 {
            let mut words: String = concat3("Resets in ", show_i64(hours).as_str(), "h ");
            words.append(show_i64(minutes).as_str());
            words.append("m");
            words
        } else {
            assert(minutes == seconds / 60);
            concat3("Resets in ", show_i64(minutes).as_str(), "m")
        }
    }

    /// The words for a reset at the second `reset_at`, seen at `now`.
    pub fn format_reset_at(reset_at: i64, now: Timestamp) -> (words: String)
        requires
            now.in_calendar(),
        ensures
            words@ == reset_at_text(reset_at as int, now),
    {
        if reset_at == 0 {
            return "Unknown".to_owned();
        }
        if crate::clock::FIRST_SECOND <= reset_at && reset_at <= crate::clock::LAST_SECOND {
            Self::format_chrono_duration(seconds_until(reset_at, now))
        } else {
            "Reset soon".to_owned()
        }
    }

    /// The words for a reset at the second `reset_at`, seen now.
    pub fn format_reset(reset_at: i64) -> (words: String)
        ensures
            exists|now: Timestamp|
                now.in_calendar() && now.secs >= 0 && words@ == #[trigger] reset_at_text(
                    reset_at as int,
                    now,
                ),
    {
        let now: Timestamp = crate::clock::now();
        Self::format_reset_at(reset_at, now)
    }

    /// The words for a reset after a span of so many whole seconds.
    pub fn format_chrono_duration(seconds: i64) -> (words: String)
        ensures
            words@ == reset_text(seconds as int),
    {
        Self::format_duration(seconds)
    }
}

// ---------------------------------------------------------------------------
// Reading a report
// ---------------------------------------------------------------------------

/// The text of a number, where it is written as a number or as a string.
pub open spec fn number_text(v: Option<JsonView>) -> Option<Seq<char>> {
    match v {
        Some(JsonView::Number(text, _)) => Some(text),
        Some(JsonView::Str(text)) => Some(text),
        _ => None,
    }
}

/// What a report says of a window: the texts of its numbers.
#[derive(Debug)]
pub struct WindowFields {
    pub used_percent: Option<String>,
    pub reset_at: Option<String>,
    pub limit_window_seconds: Option<String>,
    pub reset_after: Option<String>,
}

/// What a report says of a window: its numbers, the percentage rounded, the others cut off to
/// whole ones.
#[derive(Debug, Clone, Copy)]
pub struct WindowNumbers {
    pub used_percent: Option<i32>,
    pub reset_at: Option<i64>,
    pub limit_window_seconds: Option<i64>,
    pub reset_after: Option<i64>,
}

/// What a report says.
#[derive(Debug)]
pub struct UsageFields {
    pub plan_type: String,
    pub primary: Option<WindowFields>,
    pub secondary: Option<WindowFields>,
    pub has_credits: bool,
    pub balance: Option<String>,
}

/// The fields of a window are those that `window` holds.
pub open spec fn fields_of_window(window: JsonView, f: WindowFields) -> bool {
    &&& crate::json::opt_text(f.used_percent) == number_text(
        crate::json::field(window, "used_percent"@),
    )
    &&& crate::json::opt_text(f.reset_at) == number_text(crate::json::field(window, "reset_at"@))
    &&& crate::json::opt_text(f.limit_window_seconds) == number_text(
        crate::json::field(window, "limit_window_seconds"@),
    )
    &&& crate::json::opt_text(f.reset_after) == number_text(
        match crate::json::field(window, "reset_after_seconds"@) {
            Some(v) => Some(v),
            None => crate::json::field(window, "reset_after_sec"@),
        },
    )
}

/// The fields are those of the window `name` of a report.
pub open spec fn window_read(report: JsonView, name: Seq<char>, f: Option<WindowFields>) -> bool {
    match crate::json::field_of(crate::json::field(report, "rate_limit"@), name) {
        Some(w) => f matches Some(fields) && fields_of_window(w, fields),
        None => f is None,
    }
}

/// A truth value of the credits of a report, false where it is missing.
pub open spec fn credit_flag(report: JsonView, name: Seq<char>) -> bool {
    crate::json::bool_of(crate::json::field_of(crate::json::field(report, "credits"@), name)) == Some(
        true,
    )
}

/// The fields are those of a report.
pub open spec fn report_read(report: JsonView, f: UsageFields) -> bool {
    &&& f.plan_type@ == match crate::json::text_of(crate::json::field(report, "plan_type"@)) {
        Some(p) => p,
        None => "unknown"@,
    }
    &&& window_read(report, "primary_window"@, f.primary)
    &&& window_read(report, "secondary_window"@, f.secondary)
    &&& f.has_credits == (credit_flag(report, "has_credits"@) || credit_flag(report, "unlimited"@))
    &&& crate::json::opt_text(f.balance) == number_text(
        crate::json::field_of(crate::json::field(report, "credits"@), "balance"@),
    )
}

/// The text of a number, where it is written as a number or as a string.
pub fn text_of_number(v: Option<&Json>) -> (text: Option<String>)
    ensures
        crate::json::opt_text(text) == number_text(crate::json::seen(v)),
{
    match v {
        Some(Json::Number(n)) => Some(n.text.clone()),
        Some(Json::Str(s)) => Some(s.clone()),
        _ => None,
    }
}

fn window_fields(window: Option<&Json>) -> (fields: Option<WindowFields>)
    ensures
        match crate::json::seen(window) {
            Some(w) => fields matches Some(f) && fields_of_window(w, f),
            None => fields is None,
        },
{
    match window {
        None => None,
        Some(w) => {
            let after: Option<&Json> = match w.get("reset_after_seconds") {
                Some(v) => Some(v),
                None => w.get("reset_after_sec"),
            };
            Some(
                WindowFields {
                    used_percent: text_of_number(w.get("used_percent")),
                    reset_at: text_of_number(w.get("reset_at")),
                    limit_window_seconds: text_of_number(w.get("limit_window_seconds")),
                    reset_after: text_of_number(after),
                },
            )
        },
    }
}

/// The fields of a report.
pub fn usage_fields(report: &Json) -> (fields: UsageFields)
    ensures
        report_read(report@, fields),
{
    let plan_type: String = match string_of(report.get("plan_type")) {
        Some(p) => p,
        None => "unknown".to_owned(),
    };
    let rate_limit: Option<&Json> = report.get("rate_limit");
    let credits: Option<&Json> = report.get("credits");
    let has: bool = match truth_of(get_of(credits, "has_credits")) {
        Some(b) => b,
        None => false,
    };
    let unlimited: bool = match truth_of(get_of(credits, "unlimited")) {
        Some(b) => b,
        None => false,
    };
    UsageFields {
        plan_type,
        primary: window_fields(get_of(rate_limit, "primary_window")),
        secondary: window_fields(get_of(rate_limit, "secondary_window")),
        has_credits: has || unlimited,
        balance: text_of_number(get_of(credits, "balance")),
    }
}

/// What is shown of a window: what is used of it, the words for its reset, its label, and the
/// second of its reset.
pub type WindowView = (int, Seq<char>, Seq<char>, Option<i64>);

/// What is shown of a window with the numbers `n`, seen at `now`.
pub open spec fn window_shown(
    n: Option<WindowNumbers>,
    default_label: Seq<char>,
    now: Timestamp,
) -> WindowView {
    match n {
        None => (0, "Unknown"@, default_label, None),
        Some(w) => (
            match w.used_percent {
                Some(p) => p as int,
                None => 0,
            },
            match w.reset_at {
                Some(at) => if at > 0 {
                    reset_at_text(at as int, now)
                } else {
                    "Unknown"@
                },
                None => match w.reset_after {
                    Some(after) => if after > 0 {
                        reset_text(after as int)
                    } else {
                        "Unknown"@
                    },
                    None => "Unknown"@,
                },
            },
            match w.limit_window_seconds {
                Some(size) => if size > 0 {
                    label_text(size as int)
                } else {
                    default_label
                },
                None => default_label,
            },
            w.reset_at,
        ),
    }
}

/// The numbers of a window stay within what can be computed with.
pub open spec fn window_in_range(n: Option<WindowNumbers>) -> bool {
    n matches Some(w) ==> {
        &&& w.used_percent matches Some(p) ==> 100 - p <= i32::MAX
        &&& w.limit_window_seconds matches Some(size) ==> size <= i64::MAX - 3599
    }
}

/// Whether the numbers of a window stay within what can be computed with.
pub fn is_window_in_range(n: &Option<WindowNumbers>) -> (b: bool)
    ensures
        b == window_in_range(*n),
{
    match n {
        None => true,
        Some(w) => {
            let used: bool = match w.used_percent {
                Some(p) => p >= -2_147_483_547,
                None => true,
            };
            let size: bool = match w.limit_window_seconds {
                Some(s) => s <= i64::MAX - 3599,
                None => true,
            };
            used && size
        },
    }
}

/// A report is shown as `d`.
pub open spec fn usage_shown(
    f: UsageFields,
    primary: Option<WindowNumbers>,
    secondary: Option<WindowNumbers>,
    balance: Option<u64>,
    now: Timestamp,
    d: UsageDisplay,
) -> bool {
    let p = window_shown(primary, "5H Limit"@, now);
    let s = window_shown(secondary, "Weekly Limit"@, now);
    &&& d.plan_type == f.plan_type
    &&& d.five_hour_used == p.0 && d.five_hour_left == 100 - p.0
    &&& d.five_hour_reset@ == p.1 && d.five_hour_label@ == p.2 && d.five_hour_reset_at == p.3
    &&& d.weekly_used == s.0 && d.weekly_left == 100 - s.0
    &&& d.weekly_reset@ == s.1 && d.weekly_label@ == s.2 && d.weekly_reset_at == s.3
    &&& d.credits_balance == balance
    &&& d.has_credits == f.has_credits
    &&& d.is_valid_for_cli
}

impl UsageFetcher {
    /// What is shown of a window, seen at `now`.
    pub fn parse_window(
        window: Option<WindowNumbers>,
        default_label: &str,
        now: Timestamp,
    ) -> (shown: (i32, String, String, Option<i64>))
        requires
            window_in_range(window),
            now.in_calendar(),
        ensures
            (shown.0 as int, shown.1@, shown.2@, shown.3) == window_shown(
                window,
                default_label@,
                now,
            ),
    {
        let w: WindowNumbers = match window {
            Some(w) => w,
            None => return (0, "Unknown".to_owned(), default_label.to_owned(), None),
        };
        let used: i32 = match w.used_percent {
            Some(p) => p,
            None => 0,
        };
        let size: i64 = match w.limit_window_seconds {
            Some(s) => s,
            None => 0,
        };
        let label: String = if size > 0 {
            Self::get_limits_label(size)
        } else {
            default_label.to_owned()
        };
        let reset: String = match w.reset_at {
            Some(at) => if at > 0 {
                Self::format_reset_at(at, now)
            } else {
                "Unknown".to_owned()
            },
            None => {
                let after: i64 = match w.reset_after {
                    Some(a) => a,
                    None => 0,
                };
                if after > 0 {
                    Self::format_duration(after)
                } else {
                    "Unknown".to_owned()
                }
            },
        };
        (used, reset, label, w.reset_at)
    }

    /// What is shown of a report whose numbers are given, seen at `now`.
    pub fn parse_usage_response(
        fields: UsageFields,
        primary: Option<WindowNumbers>,
        secondary: Option<WindowNumbers>,
        balance: Option<u64>,
        now: Timestamp,
    ) -> (display: Result<UsageDisplay, String>)
        requires
            window_in_range(primary),
            window_in_range(secondary),
            now.in_calendar(),
        ensures
            display matches Ok(d) && usage_shown(fields, primary, secondary, balance, now, d),
    {
        let p: (i32, String, String, Option<i64>) = Self::parse_window(primary, "5H Limit", now);
        let s: (i32, String, String, Option<i64>) = Self::parse_window(
            secondary,
            "Weekly Limit",
            now,
        );
        Ok(
            UsageDisplay {
                plan_type: fields.plan_type,
                five_hour_used: p.0,
                five_hour_left: 100 - p.0,
                five_hour_label: p.2,
                five_hour_reset: p.1,
                five_hour_reset_at: p.3,
                weekly_used: s.0,
                weekly_left: 100 - s.0,
                weekly_label: s.2,
                weekly_reset: s.1,
                weekly_reset_at: s.3,
                credits_balance: balance,
                has_credits: fields.has_credits,
                is_valid_for_cli: true,
            },
        )
    }

    /// An integer that is written as a number, cut to 32 bits, or as a string.
    pub fn parse_int(v: &Json) -> (n: Option<i32>)
        ensures
            match v@ {
                JsonView::Number(_, Some(whole)) => n == Some(whole as i32),
                JsonView::Str(text) => match n {
                    Some(i) => crate::text::written_int(text) == Some(i as int),
                    None => crate::text::written_int(text) matches Some(i) ==> !(i32::MIN <= i
                        <= i32::MAX),
                },
                _ => n is None,
            },
    {
        match v {
            Json::Number(n) => match n.whole {
                Some(whole) => Some(
                    #[verifier::truncate]
                    (whole as i32),
                ),
                None => None,
            },
            Json::Str(s) => parse_i32(s.as_str()),
            _ => None,
        }
    }
}

/// What is remembered of a report that was seen at `now`.
pub open spec fn cached_of(u: UsageDisplay, now: Timestamp) -> CachedQuota {
    CachedQuota {
        five_hour_left: u.five_hour_left,
        five_hour_reset: u.five_hour_reset,
        five_hour_reset_at: u.five_hour_reset_at,
        five_hour_label: u.five_hour_label,
        weekly_left: u.weekly_left,
        weekly_reset: u.weekly_reset,
        weekly_reset_at: u.weekly_reset_at,
        weekly_label: u.weekly_label,
        plan_type: u.plan_type,
        is_valid_for_cli: u.is_valid_for_cli,
        updated_at: now,
    }
}

/// What is remembered of a report that was seen at `now`.
pub fn usage_to_cached(u: &UsageDisplay, now: Timestamp) -> (q: CachedQuota)
    ensures
        q == cached_of(*u, now),
{
    CachedQuota {
        five_hour_left: u.five_hour_left,
        five_hour_reset: u.five_hour_reset.clone(),
        five_hour_reset_at: u.five_hour_reset_at,
        five_hour_label: u.five_hour_label.clone(),
        weekly_left: u.weekly_left,
        weekly_reset: u.weekly_reset.clone(),
        weekly_reset_at: u.weekly_reset_at,
        weekly_label: u.weekly_label.clone(),
        plan_type: u.plan_type.clone(),
        is_valid_for_cli: u.is_valid_for_cli,
        updated_at: now,
    }
}

/// What is used of a window and what is left of it make a whole.
pub proof fn used_and_left_make_a_whole(
    f: UsageFields,
    primary: Option<WindowNumbers>,
    secondary: Option<WindowNumbers>,
    balance: Option<u64>,
    now: Timestamp,
    d: UsageDisplay,
)
    requires
        usage_shown(f, primary, secondary, balance, now, d),
    ensures
        d.five_hour_used + d.five_hour_left == 100,
        d.weekly_used + d.weekly_left == 100,
{
}

// ---------------------------------------------------------------------------
// Asking for a report
// ---------------------------------------------------------------------------

/// Where a query for a usage report stands.
#[derive(Debug, Clone, Copy, PartialEq, Eq, Structural)]
pub enum FetchPhase {
    /// The first request is on its way.
    First,
    /// A refresh is on its way, after the first request was refused.
    Refreshing,
    /// The second request, with the new token, is on its way.
    Second,
    /// The body of a refusal is being read.
    Refusal,
    /// The body of a report is being read.
    Report,
    /// There is nothing more to do.
    Done,
}

/// A query for a usage report.
#[derive(Debug)]
pub struct UsageFetch {
    pub refresh_token: Option<String>,
    pub allow_local_refresh: bool,
    pub phase: FetchPhase,
    /// The tokens that a refresh brought on the way.
    pub new_tokens: Option<TokenResponse>,
}

/// What has happened to a query.
#[derive(Debug)]
pub enum FetchEvent {
    /// A request was answered with a status, or failed.
    Answered(Result<u16, String>),
    /// A refresh came back.
    Refreshed(Result<TokenResponse, String>),
    /// The body of a refusal was read; a failure to read it reads as nothing.
    RefusalRead(String),
    /// The body of a report was read.
    ReportRead(Result<String, String>),
}

/// What is to be done for a query.
#[derive(Debug)]
pub enum FetchAction {
    /// Send the request with this access token.
    Send { access_token: String },
    /// Exchange this refresh token for new tokens.
    Refresh { refresh_token: String },
    /// Read the body of the refusal.
    ReadRefusal,
    /// Read the body of the report.
    ReadReport,
    /// The query is over: this is what the report says.
    Show(UsageFields),
    /// The query is over, and has failed.
    Fail(String),
    /// Nothing: the event does not belong to where the query stands.
    Wait,
}

/// The status refuses a request.
pub open spec fn refused(status: u16) -> bool {
    status == 401 || status == 403
}

/// The request is over, and the phase and the action are those that follow a status.
pub open spec fn after_status(status: u16, after: FetchPhase, action: FetchAction) -> bool {
    if refused(status) {
        after == FetchPhase::Refusal && action is ReadRefusal
    } else {
        after == FetchPhase::Report && action is ReadReport
    }
}

/// The query is over, and has failed with this message.
pub open spec fn failed_with(
    after: FetchPhase,
    action: FetchAction,
    message: Seq<char>,
) -> bool {
    after == FetchPhase::Done && (action matches FetchAction::Fail(m) && m@ == message)
}

/// A report names the account as shut down.
pub open spec fn report_bans(report: JsonView) -> bool {
    match crate::json::text_of(
        crate::json::field_of(crate::json::field(report, "detail"@), "code"@),
    ) {
        Some(code) => code_bans(crate::text::lowered(code)),
        None => false,
    }
}

/// A code, in lower case, names the account as shut down.
pub open spec fn code_bans(lower: Seq<char>) -> bool {
    ||| crate::text::occurs(lower, "deactivated"@)
    ||| crate::text::occurs(lower, "banned"@)
    ||| crate::text::occurs(lower, "suspended"@)
}

/// Whether a code, in lower case, names the account as shut down.
pub fn is_ban_code(lower: &str) -> (b: bool)
    ensures
        b == code_bans(lower@),
{
    contains(lower, "deactivated") || contains(lower, "banned") || contains(lower, "suspended")
}

/// What follows when the body of a refusal is read.
pub open spec fn refusal_message(body: Seq<char>, allow_local_refresh: bool) -> Seq<char> {
    if crate::signals::tells_ban(crate::text::lowered(body)) {
        "ACCOUNT_BANNED:This account has been banned"@
    } else if !allow_local_refresh {
        "Current active account quota API returned 401/403; local refresh_token refresh is disabled, please retry later or trigger a request in Codex"@
    } else {
        "TOKEN_INVALID:Authorization expired, please delete this account and sign in again"@
    }
}

/// What follows when the body of a report is read.
pub open spec fn report_step(
    body: Seq<char>,
    after: FetchPhase,
    action: FetchAction,
) -> bool {
    match crate::json::json_read(body) {
        Err(e) => failed_with(after, action, "Failed to parse JSON response: "@ + e),
        Ok(report) => if report_bans(report) {
            failed_with(
                after,
                action,
                "ACCOUNT_BANNED:This account has been banned (workspace deactivated)"@,
            )
        } else {
            after == FetchPhase::Done && (action matches FetchAction::Show(f) && report_read(
                report,
                f,
            ))
        },
    }
}

/// One step of a query.
pub open spec fn fetch_step(
    before: UsageFetch,
    event: FetchEvent,
    after: UsageFetch,
    action: FetchAction,
) -> bool {
    &&& after.refresh_token == before.refresh_token
    &&& after.allow_local_refresh == before.allow_local_refresh
    &&& match (before.phase, event) {
        (FetchPhase::Refreshing, FetchEvent::Refreshed(Ok(t))) => after.new_tokens == Some(t),
        _ => after.new_tokens == before.new_tokens,
    }
    &&& match (before.phase, event) {
        (FetchPhase::First, FetchEvent::Answered(Err(e))) => failed_with(
            after.phase,
            action,
            "Network request failed: "@ + e@,
        ),
        (FetchPhase::First, FetchEvent::Answered(Ok(status))) => match before.refresh_token {
            Some(rt) => if before.allow_local_refresh && refused(status) {
                after.phase == FetchPhase::Refreshing && (action matches FetchAction::Refresh {
                    refresh_token,
                } && refresh_token == rt)
            } else {
                after_status(status, after.phase, action)
            },
            None => after_status(status, after.phase, action),
        },
        (FetchPhase::Refreshing, FetchEvent::Refreshed(Ok(t))) => after.phase == FetchPhase::Second
            && (action matches FetchAction::Send { access_token } && access_token == t.access_token),
        (FetchPhase::Refreshing, FetchEvent::Refreshed(Err(e))) => if crate::signals::tells_logout(
            crate::text::lowered(e@),
        ) {
            failed_with(
                after.phase,
                action,
                "ACCOUNT_LOGGED_OUT:You have logged out or signed in to another account, please sign in again"@,
            )
        } else {
            after.phase == FetchPhase::Refusal && action is ReadRefusal
        },
        (FetchPhase::Second, FetchEvent::Answered(Err(e))) => failed_with(
            after.phase,
            action,
            "Retry after refresh failed: "@ + e@,
        ),
        (FetchPhase::Second, FetchEvent::Answered(Ok(status))) => after_status(
            status,
            after.phase,
            action,
        ),
        (FetchPhase::Refusal, FetchEvent::RefusalRead(body)) => failed_with(
            after.phase,
            action,
            refusal_message(body@, before.allow_local_refresh),
        ),
        (FetchPhase::Report, FetchEvent::ReportRead(Err(e))) => failed_with(
            after.phase,
            action,
            "Failed to read response body: "@ + e@,
        ),
        (FetchPhase::Report, FetchEvent::ReportRead(Ok(body))) => report_step(
            body@,
            after.phase,
            action,
        ),
        _ => after.phase == before.phase && action is Wait,
    }
}

fn read_report(body: &str) -> (action: FetchAction)
    ensures
        report_step(body@, FetchPhase::Done, action),
{
    match crate::json::parse(body) {
        Err(e) => FetchAction::Fail(concat2("Failed to parse JSON response: ", e.as_str())),
        Ok(report) => {
            let banned: bool = match string_of(get_of(report.get("detail"), "code")) {
                Some(code) => {
                    let lower: String = to_lowercase(code.as_str());
                    is_ban_code(lower.as_str())
                },
                None => false,
            };
            if banned {
                FetchAction::Fail(
                    "ACCOUNT_BANNED:This account has been banned (workspace deactivated)".to_owned(),
                )
            } else {
                FetchAction::Show(usage_fields(&report))
            }
        },
    }
}

fn refuse(body: &str, allow_local_refresh: bool) -> (message: String)
    ensures
        message@ == refusal_message(body@, allow_local_refresh),
{
    let lower: String = to_lowercase(body);
    if is_ban_reply(lower.as_str()) {
        "ACCOUNT_BANNED:This account has been banned".to_owned()
    } else if !allow_local_refresh {
        "Current active account quota API returned 401/403; local refresh_token refresh is disabled, please retry later or trigger a request in Codex".to_owned()
    } else {
        "TOKEN_INVALID:Authorization expired, please delete this account and sign in again".to_owned()
    }
}

impl UsageFetcher {
    /// Starts a query: the first request is sent with the access token.
    pub fn fetch_usage_direct(
        access_token: &str,
        refresh_token: Option<String>,
        allow_local_refresh: bool,
    ) -> (start: (UsageFetch, FetchAction))
        ensures
            start.0.refresh_token == refresh_token,
            start.0.allow_local_refresh == allow_local_refresh,
            start.0.phase == FetchPhase::First,
            start.0.new_tokens is None,
            start.1 matches FetchAction::Send { access_token: t } && t@ == access_token@,
    {
        (
            UsageFetch {
                refresh_token,
                allow_local_refresh,
                phase: FetchPhase::First,
                new_tokens: None,
            },
            FetchAction::Send { access_token: access_token.to_owned() },
        )
    }
}

/// The place that usage reports are asked for at.
pub fn usage_url() -> (url: String)
    ensures
        url@ == "https://chatgpt.com/backend-api/wham/usage"@,
{
    "https://chatgpt.com/backend-api/wham/usage".to_owned()
}

/// The headers with which a usage report is asked for, by a program of this version.
pub open spec fn usage_headers(
    token: Seq<char>,
    account_id: Option<Seq<char>>,
    version: Seq<char>,
) -> Seq<(Seq<char>, Seq<char>)> {
    let base = seq![
        ("Authorization"@, "Bearer "@ + token),
        ("User-Agent"@, "codex_cli_rs/"@ + version + " (Mac OS; x86_64) codex-cli"@),
        ("originator"@, "codex_cli_rs"@),
        ("Accept"@, "application/json"@),
    ];
    match account_id {
        Some(id) => base.push(("ChatGPT-Account-Id"@, id)),
        None => base,
    }
}

/// What a list of headers says.
pub open spec fn text_headers(list: Seq<(String, String)>) -> Seq<(Seq<char>, Seq<char>)> {
    list.map_values(|h: (String, String)| (h.0@, h.1@))
}

/// The headers with which a usage report is asked for.
pub fn build_usage_headers(token: &str, account_id: &Option<String>, version: &str) -> (list: Vec<
    (String, String),
>)
    ensures
        text_headers(list@) == usage_headers(
            token@,
            crate::json::opt_text(*account_id),
            version@,
        ),
{
    let mut list: Vec<(String, String)> = Vec::new();
    list.push(("Authorization".to_owned(), concat2("Bearer ", token)));
    list.push(
        (
            "User-Agent".to_owned(),
            concat3("codex_cli_rs/", version, " (Mac OS; x86_64) codex-cli"),
        ),
    );
    list.push(("originator".to_owned(), "codex_cli_rs".to_owned()));
    list.push(("Accept".to_owned(), "application/json".to_owned()));
    if let Some(id) = account_id {
        list.push(("ChatGPT-Account-Id".to_owned(), id.clone()));
    }
    assert(text_headers(list@) =~= usage_headers(
        token@,
        crate::json::opt_text(*account_id),
        version@,
    ));
    list
}

impl UsageFetch {
    fn on_status(&mut self, status: u16) -> (action: FetchAction)
        ensures
            after_status(status, final(self).phase, action),
            final(self).refresh_token == old(self).refresh_token,
            final(self).allow_local_refresh == old(self).allow_local_refresh,
            final(self).new_tokens == old(self).new_tokens,
    {
        if status == 401 || status == 403 {
            self.phase = FetchPhase::Refusal;
            FetchAction::ReadRefusal
        } else {
            self.phase = FetchPhase::Report;
            FetchAction::ReadReport
        }
    }

    fn fail(&mut self, message: String) -> (action: FetchAction)
        ensures
            failed_with(final(self).phase, action, message@),
            final(self).refresh_token == old(self).refresh_token,
            final(self).allow_local_refresh == old(self).allow_local_refresh,
            final(self).new_tokens == old(self).new_tokens,
    {
        self.phase = FetchPhase::Done;
        FetchAction::Fail(message)
    }

    /// Takes the query one step on.
    pub fn step(&mut self, event: FetchEvent) -> (action: FetchAction)
        ensures
            fetch_step(*old(self), event, *final(self), action),
    {
        match (self.phase, event) {
            (FetchPhase::First, FetchEvent::Answered(Err(e))) => {
                self.fail(concat2("Network request failed: ", e.as_str()))
            },
            (FetchPhase::First, FetchEvent::Answered(Ok(status))) => {
                if self.allow_local_refresh && (status == 401 || status == 403) {
                    match &self.refresh_token {
                        Some(rt) => {
                            let refresh_token: String = rt.clone();
                            self.phase = FetchPhase::Refreshing;
                            FetchAction::Refresh { refresh_token }
                        },
                        None => self.on_status(status),
                    }
                } else {
                    self.on_status(status)
                }
            },
            (FetchPhase::Refreshing, FetchEvent::Refreshed(Ok(t))) => {
                let access_token: String = t.access_token.clone();
                self.new_tokens = Some(t);
                self.phase = FetchPhase::Second;
                FetchAction::Send { access_token }
            },
            (FetchPhase::Refreshing, FetchEvent::Refreshed(Err(e))) => {
                let lower: String = to_lowercase(e.as_str());
                if is_logout_reply(lower.as_str()) {
                    self.fail(
                        "ACCOUNT_LOGGED_OUT:You have logged out or signed in to another account, please sign in again".to_owned(),
                    )
                } else {
                    self.phase = FetchPhase::Refusal;
                    FetchAction::ReadRefusal
                }
            },
            (FetchPhase::Second, FetchEvent::Answered(Err(e))) => {
                self.fail(concat2("Retry after refresh failed: ", e.as_str()))
            },
            (FetchPhase::Second, FetchEvent::Answered(Ok(status))) => self.on_status(status),
            (FetchPhase::Refusal, FetchEvent::RefusalRead(body)) => {
                let message: String = refuse(body.as_str(), self.allow_local_refresh);
                self.fail(message)
            },
            (FetchPhase::Report, FetchEvent::ReportRead(Err(e))) => {
                self.fail(concat2("Failed to read response body: ", e.as_str()))
            },
            (FetchPhase::Report, FetchEvent::ReportRead(Ok(body))) => {
                self.phase = FetchPhase::Done;
                read_report(body.as_str())
            },
            _ => FetchAction::Wait,
        }
    }
}

/// A query that may not refresh never asks for a refresh.
pub proof fn no_refresh_unless_allowed(
    before: UsageFetch,
    event: FetchEvent,
    after: UsageFetch,
    action: FetchAction,
)
    requires
        fetch_step(before, event, after, action),
        !before.allow_local_refresh,
    ensures
        action !is Refresh,
        before.phase != FetchPhase::Refreshing ==> after.phase != FetchPhase::Refreshing,
{
}

/// How far a query has come.
pub open spec fn fetch_rank(phase: FetchPhase) -> int {
    match phase {
        FetchPhase::First => 0,
        FetchPhase::Refreshing => 1,
        FetchPhase::Second => 2,
        FetchPhase::Refusal => 3,
        FetchPhase::Report => 3,
        FetchPhase::Done => 4,
    }
}

/// A query only moves forward, so that it refreshes at most once and ends after a few steps; it
/// is over exactly when its result is handed out.
pub proof fn fetch_moves_forward(
    before: UsageFetch,
    event: FetchEvent,
    after: UsageFetch,
    action: FetchAction,
)
    requires
        fetch_step(before, event, after, action),
    ensures
        action is Wait <==> after.phase == before.phase,
        action !is Wait ==> fetch_rank(before.phase) < fetch_rank(after.phase),
        action is Refresh ==> before.phase == FetchPhase::First,
        (action is Show || action is Fail) <==> (after.phase == FetchPhase::Done && before.phase
            != FetchPhase::Done),
{
}

// ---------------------------------------------------------------------------
// What is shown of a report
// ---------------------------------------------------------------------------

/// Where a report gives the percentage that is used of a window, that is what is shown as used, and
/// the rest of a hundred as left; where it gives none, nothing is used.
pub proof fn windows_show_the_percentage_reported(
    f: UsageFields,
    primary: Option<WindowNumbers>,
    secondary: Option<WindowNumbers>,
    balance: Option<u64>,
    now: Timestamp,
    d: UsageDisplay,
)
    requires
        usage_shown(f, primary, secondary, balance, now, d),
    ensures
        (primary matches Some(w) && w.used_percent is Some) ==> {
            &&& d.five_hour_used == primary->0.used_percent->0
            &&& d.five_hour_left == 100 - primary->0.used_percent->0
            &&& primary->0.used_percent->0 >= 100 ==> d.five_hour_left <= 0
        },
        !(primary matches Some(w) && w.used_percent is Some) ==> d.five_hour_used == 0
            && d.five_hour_left == 100,
        (secondary matches Some(w) && w.used_percent is Some) ==> {
            &&& d.weekly_used == secondary->0.used_percent->0
            &&& d.weekly_left == 100 - secondary->0.used_percent->0
            &&& secondary->0.used_percent->0 >= 100 ==> d.weekly_left <= 0
        },
        !(secondary matches Some(w) && w.used_percent is Some) ==> d.weekly_used == 0
            && d.weekly_left == 100,
        d.plan_type == f.plan_type,
        d.has_credits == f.has_credits,
        d.credits_balance == balance,
        d.is_valid_for_cli,
{
}

/// The more is used of a window, the less is shown as left of it.
pub proof fn what_is_left_falls_with_what_is_used(
    f: UsageFields,
    p1: WindowNumbers,
    p2: WindowNumbers,
    secondary: Option<WindowNumbers>,
    balance: Option<u64>,
    now: Timestamp,
    d1: UsageDisplay,
    d2: UsageDisplay,
)
    requires
        usage_shown(f, Some(p1), secondary, balance, now, d1),
        usage_shown(f, Some(p2), secondary, balance, now, d2),
        p1.used_percent is Some,
        p2.used_percent is Some,
    ensures
        p1.used_percent->0 < p2.used_percent->0 <==> d2.five_hour_left < d1.five_hour_left,
        d1.weekly_left == d2.weekly_left,
{
}

/// The seconds at which windows are reset are shown as they are reported; the label of a window goes
/// by its length, and by which window it is where that is not reported.
pub proof fn windows_show_their_resets_and_labels(
    f: UsageFields,
    primary: Option<WindowNumbers>,
    secondary: Option<WindowNumbers>,
    balance: Option<u64>,
    now: Timestamp,
    d: UsageDisplay,
)
    requires
        usage_shown(f, primary, secondary, balance, now, d),
    ensures
        d.five_hour_reset_at == (if primary is Some {
            primary->0.reset_at
        } else {
            None
        }),
        d.weekly_reset_at == (if secondary is Some {
            secondary->0.reset_at
        } else {
            None
        }),
        (primary matches Some(w) && (w.limit_window_seconds matches Some(n) && n > 0))
            ==> d.five_hour_label@ == label_text(primary->0.limit_window_seconds->0 as int),
        !(primary matches Some(w) && (w.limit_window_seconds matches Some(n) && n > 0))
            ==> d.five_hour_label@ == "5H Limit"@,
        (secondary matches Some(w) && (w.limit_window_seconds matches Some(n) && n > 0))
            ==> d.weekly_label@ == label_text(secondary->0.limit_window_seconds->0 as int),
        !(secondary matches Some(w) && (w.limit_window_seconds matches Some(n) && n > 0))
            ==> d.weekly_label@ == "Weekly Limit"@,
        (primary matches Some(w) && (w.reset_at matches Some(at) && at > 0)) ==> d.five_hour_reset@
            == reset_at_text(primary->0.reset_at->0 as int, now),
        (primary matches Some(w) && w.reset_at is None && (w.reset_after matches Some(n) && n > 0))
            ==> d.five_hour_reset@ == reset_text(primary->0.reset_after->0 as int),
        (secondary matches Some(w) && (w.reset_at matches Some(at) && at > 0)) ==> d.weekly_reset@
            == reset_at_text(secondary->0.reset_at->0 as int, now),
        primary is None ==> d.five_hour_reset@ == "Unknown"@,
        secondary is None ==> d.weekly_reset@ == "Unknown"@,
{
}

/// Labels name the window that a length is nearest to: five hours, a day and a week each with some
/// minutes of grace, and the hours, rounded up, of anything longer.
pub proof fn labels_name_the_window(hours: nat, extra: nat)
    requires
        extra < 3600,
    ensures
        hours < 5 ==> label_text((3600 * hours + extra) as int) == "5H Limit"@,
        hours == 5 && extra <= 600 ==> label_text((3600 * hours + extra) as int) == "5H Limit"@,
        hours == 5 && extra > 600 ==> label_text((3600 * hours + extra) as int) == "24H Limit"@,
        5 < hours < 24 || (hours == 24 && extra <= 600) ==> label_text((3600 * hours + extra) as int)
            == "24H Limit"@,
        (hours == 24 && extra > 600) || 24 < hours < 169 ==> label_text((3600 * hours + extra) as int)
            == "Weekly Limit"@,
        hours > 169 && extra == 0 ==> label_text((3600 * hours + extra) as int) == crate::text::decimal(hours)
            + "H Limit"@,
        hours >= 169 && extra > 0 ==> label_text((3600 * hours + extra) as int) == crate::text::decimal(
            hours + 1,
        ) + "H Limit"@,
{
    if extra == 0 {
        assert((3600 * hours + extra + 3599) / 3600 == hours);
    } else {
        assert((3600 * hours + extra + 3599) / 3600 == hours + 1);
    }
}

/// The words for a reset name the minutes below an hour, the hours and minutes up to a day, and the
/// whole days beyond it; less than a minute is soon.
pub proof fn words_for_a_reset(days: nat, hours: nat, minutes: nat, seconds: nat)
    requires
        hours < 24,
        minutes < 60,
        seconds < 60,
    ensures
        ({
            let span = 86400 * days + 3600 * hours + 60 * minutes + seconds;
            &&& days == 0 && hours == 0 && minutes == 0 ==> reset_text(span as int)
                == "Reset soon"@
            &&& days == 0 && hours == 0 && minutes > 0 ==> reset_text(span as int)
                == "Resets in "@ + crate::text::decimal(minutes) + "m"@
            &&& days == 0 && hours > 0 ==> reset_text(span as int) == "Resets in "@
                + crate::text::decimal(hours) + "h "@ + crate::text::decimal(minutes) + "m"@
            &&& days == 1 && hours == 0 ==> reset_text(span as int) == "Resets in "@
                + crate::text::decimal(24) + "h "@ + crate::text::decimal(minutes) + "m"@
            &&& days > 1 || (days == 1 && hours > 0) ==> reset_text(span as int) == "Resets in "@
                + crate::text::decimal(days) + " days"@
        }),
{
    let span = 86400 * days + 3600 * hours + 60 * minutes + seconds;
    assert(span / 86400 == days);
    if days == 0 {
        assert(span / 3600 == hours);
        assert(span % 3600 == 60 * minutes + seconds);
        assert((span % 3600) / 60 == minutes);
        if hours == 0 {
            assert(span / 60 == minutes);
        }
    }
    if days == 1 && hours == 0 {
        assert(span / 3600 == 24);
        assert(span % 3600 == 60 * minutes + seconds);
        assert((span % 3600) / 60 == minutes);
    }
}

/// The words for a reset at a second are those for the time until then: soon where it has come, and
/// unknown only where no second is named.
pub proof fn words_for_a_second(reset_at: int, now: Timestamp)
    requires
        now.in_calendar(),
        crate::clock::FIRST_SECOND <= reset_at <= crate::clock::LAST_SECOND,
    ensures
        reset_at == 0 ==> reset_at_text(reset_at, now) == "Unknown"@,
        reset_at != 0 && reset_at <= now.secs ==> reset_at_text(reset_at, now) == "Reset soon"@,
        reset_at != 0 && now.nanos == 0 ==> reset_at_text(reset_at, now) == reset_text(
            reset_at - now.secs,
        ),
        reset_at != 0 && now.nanos > 0 && reset_at > now.secs ==> reset_at_text(reset_at, now)
            == reset_text(reset_at - now.secs - 1),
{
}

/// What is remembered of a report is what it shows, with the time at which it was seen.
pub proof fn reports_are_remembered_as_shown(u: UsageDisplay, now: Timestamp)
    ensures
        ({
            let q = cached_of(u, now);
            &&& q.five_hour_left == u.five_hour_left
            &&& q.five_hour_reset_at == u.five_hour_reset_at
            &&& q.five_hour_reset == u.five_hour_reset
            &&& q.five_hour_label == u.five_hour_label
            &&& q.weekly_left == u.weekly_left
            &&& q.weekly_reset_at == u.weekly_reset_at
            &&& q.weekly_reset == u.weekly_reset
            &&& q.weekly_label == u.weekly_label
            &&& q.plan_type == u.plan_type
            &&& q.is_valid_for_cli == u.is_valid_for_cli
            &&& q.updated_at == now
        }),
{
}

/// A number is read where a report writes it, as a number or as a string, and nowhere else.
pub proof fn numbers_are_read_either_way(text: Seq<char>, whole: Option<i64>, b: bool)
    ensures
        number_text(Some(JsonView::Number(text, whole))) == Some(text),
        number_text(Some(JsonView::Str(text))) == Some(text),
        number_text(Some(JsonView::Bool(b))) is None,
        number_text(Some(JsonView::Null)) is None,
        number_text(None) is None,
{
}

/// The five hour window is the primary one of a report and the weekly window the secondary one; what
/// is read of each is what stands under the names that reports use.
pub proof fn windows_are_read_by_name(report: JsonView, f: UsageFields, limits: JsonView)
    requires
        report_read(report, f),
        crate::json::field(report, "rate_limit"@) == Some(limits),
    ensures
        crate::json::field(limits, "primary_window"@) is None ==> f.primary is None,
        crate::json::field(limits, "secondary_window"@) is None ==> f.secondary is None,
        crate::json::field(limits, "primary_window"@) matches Some(w) ==> (f.primary matches Some(p)
            && crate::json::opt_text(p.used_percent) == number_text(
            crate::json::field(w, "used_percent"@),
        ) && crate::json::opt_text(p.reset_at) == number_text(crate::json::field(w, "reset_at"@))
            && crate::json::opt_text(p.limit_window_seconds) == number_text(
            crate::json::field(w, "limit_window_seconds"@),
        ) && (crate::json::field(w, "reset_after_seconds"@) is Some ==> crate::json::opt_text(
            p.reset_after,
        ) == number_text(crate::json::field(w, "reset_after_seconds"@))) && (crate::json::field(
            w,
            "reset_after_seconds"@,
        ) is None ==> crate::json::opt_text(p.reset_after) == number_text(
            crate::json::field(w, "reset_after_sec"@),
        ))),
        crate::json::field(limits, "secondary_window"@) matches Some(w) ==> (
        f.secondary matches Some(p) && crate::json::opt_text(p.used_percent) == number_text(
            crate::json::field(w, "used_percent"@),
        ) && crate::json::opt_text(p.reset_at) == number_text(crate::json::field(w, "reset_at"@))
            && crate::json::opt_text(p.limit_window_seconds) == number_text(
            crate::json::field(w, "limit_window_seconds"@),
        )),
{
}

/// The plan is the one that the report names, else unknown; there are credits where it says so, or
/// where they are without limit.
pub proof fn plans_and_credits_are_read(report: JsonView, f: UsageFields, plan: Seq<char>)
    requires
        report_read(report, f),
    ensures
        crate::json::field(report, "plan_type"@) == Some(JsonView::Str(plan)) ==> f.plan_type@
            == plan,
        crate::json::field(report, "plan_type"@) is None ==> f.plan_type@ == "unknown"@,
        crate::json::field(report, "credits"@) is None ==> !f.has_credits && f.balance is None,
        crate::json::field(report, "credits"@) matches Some(c) ==> {
            &&& crate::json::field(c, "has_credits"@) == Some(JsonView::Bool(true))
                ==> f.has_credits
            &&& crate::json::field(c, "unlimited"@) == Some(JsonView::Bool(true)) ==> f.has_credits
            &&& f.has_credits ==> crate::json::field(c, "has_credits"@) == Some(
                JsonView::Bool(true),
            ) || crate::json::field(c, "unlimited"@) == Some(JsonView::Bool(true))
            &&& crate::json::opt_text(f.balance) == number_text(crate::json::field(c, "balance"@))
        },
{
}

/// A report that was accepted still tells of a ban by the code of its details: where it has one of
/// three words in it.
pub proof fn reports_tell_of_bans_by_their_code(report: JsonView, details: JsonView, code: Seq<char>)
    ensures
        crate::json::field(report, "detail"@) is None ==> !report_bans(report),
        crate::json::field(report, "detail"@) == Some(details) && crate::json::field(
            details,
            "code"@,
        ) == Some(JsonView::Str(code)) ==> (report_bans(report) <==> crate::text::occurs(
            crate::text::lowered(code),
            "deactivated"@,
        ) || crate::text::occurs(crate::text::lowered(code), "banned"@) || crate::text::occurs(
            crate::text::lowered(code),
            "suspended"@,
        )),
        crate::json::field(report, "detail"@) == Some(details) && crate::json::field(
            details,
            "code"@,
        ) is None ==> !report_bans(report),
{
}

/// A refusal is a status of 401 or 403: a query that may refresh and can then does so, with its
/// refresh token, and any other one reads why it was refused. Everything else is read as a report.
pub proof fn what_statuses_lead_to(
    before: UsageFetch,
    status: u16,
    after: UsageFetch,
    action: FetchAction,
)
    requires
        before.phase == FetchPhase::First,
        fetch_step(before, FetchEvent::Answered(Ok(status)), after, action),
    ensures
        status != 401 && status != 403 ==> action is ReadReport,
        (status == 401 || status == 403) && before.allow_local_refresh ==> (
        before.refresh_token matches Some(rt) ==> (action matches FetchAction::Refresh {
            refresh_token,
        } && refresh_token == rt)),
        (status == 401 || status == 403) && (!before.allow_local_refresh
            || before.refresh_token is None) ==> action is ReadRefusal,
        after.new_tokens == before.new_tokens,
{
}

/// After a refresh the request is sent once more, with the new access token, and the new tokens are
/// kept; where the refresh tells of a sign-out, the query ends with that.
pub proof fn what_refreshes_lead_to(
    before: UsageFetch,
    result: Result<TokenResponse, String>,
    after: UsageFetch,
    action: FetchAction,
)
    requires
        before.phase == FetchPhase::Refreshing,
        fetch_step(before, FetchEvent::Refreshed(result), after, action),
    ensures
        result matches Ok(t) ==> after.new_tokens == Some(t) && (action matches FetchAction::Send {
            access_token,
        } && access_token == t.access_token),
        result matches Err(e) ==> {
            &&& after.new_tokens == before.new_tokens
            &&& crate::signals::tells_logout(crate::text::lowered(e@)) ==> (
            action matches FetchAction::Fail(m) && crate::signals::trouble_in(m@)
                == crate::signals::QuotaTrouble::LoggedOut)
            &&& !crate::signals::tells_logout(crate::text::lowered(e@)) ==> action is ReadRefusal
        },
{
    if let Err(e) = result {
        if crate::signals::tells_logout(crate::text::lowered(e@)) {
            lemma_logged_out_message();
        }
    }
}

proof fn lemma_logged_out_message()
    ensures
        crate::signals::trouble_in(
            "ACCOUNT_LOGGED_OUT:You have logged out or signed in to another account, please sign in again"@,
        ) == crate::signals::QuotaTrouble::LoggedOut,
{
    let m =
        "ACCOUNT_LOGGED_OUT:You have logged out or signed in to another account, please sign in again"@;
    reveal_strlit(
        "ACCOUNT_LOGGED_OUT:You have logged out or signed in to another account, please sign in again",
    );
    reveal_strlit("ACCOUNT_LOGGED_OUT");
    reveal_strlit("ACCOUNT_BANNED");
    reveal_strlit("TOKEN_INVALID");
    assert(m.subrange(0, 18) =~= "ACCOUNT_LOGGED_OUT"@);
    assert(crate::text::stands_at(m, "ACCOUNT_LOGGED_OUT"@, 0));
    assert forall|at: int| !#[trigger] crate::text::stands_at(m, "ACCOUNT_BANNED"@, at) by {
        if crate::text::stands_at(m, "ACCOUNT_BANNED"@, at) {
            assert(m.subrange(at, at + 14)[0] == 'A' && m.subrange(at, at + 14)[8] == 'B');
            assert(m[at] == 'A' && m[at + 8] == 'B');
        }
    }
    assert forall|at: int| !#[trigger] crate::text::stands_at(m, "TOKEN_INVALID"@, at) by {
        if crate::text::stands_at(m, "TOKEN_INVALID"@, at) {
            assert(m.subrange(at, at + 13)[0] == 'T' && m.subrange(at, at + 13)[1] == 'O');
            assert(m[at] == 'T' && m[at + 1] == 'O');
        }
    }
}

/// What a refusal says of the account: a ban where its body tells of one; else, where a refresh was
/// allowed, that the token is invalid.
pub proof fn what_refusals_say(body: Seq<char>, allow: bool)
    ensures
        crate::signals::tells_ban(crate::text::lowered(body)) ==> crate::signals::trouble_in(
            refusal_message(body, allow),
        ) == crate::signals::QuotaTrouble::Banned,
        !crate::signals::tells_ban(crate::text::lowered(body)) && allow
            ==> crate::signals::trouble_in(refusal_message(body, allow))
            == crate::signals::QuotaTrouble::TokenInvalid,
        !crate::signals::tells_ban(crate::text::lowered(body)) && !allow
            ==> crate::signals::trouble_in(refusal_message(body, allow))
            == crate::signals::QuotaTrouble::Other,
{
    lemma_refusal_messages();
}

proof fn lemma_refusal_messages()
    ensures
        crate::signals::trouble_in("ACCOUNT_BANNED:This account has been banned"@)
            == crate::signals::QuotaTrouble::Banned,
        crate::signals::trouble_in(
            "TOKEN_INVALID:Authorization expired, please delete this account and sign in again"@,
        ) == crate::signals::QuotaTrouble::TokenInvalid,
        crate::signals::trouble_in(
            "Current active account quota API returned 401/403; local refresh_token refresh is disabled, please retry later or trigger a request in Codex"@,
        ) == crate::signals::QuotaTrouble::Other,
{
    reveal_strlit("ACCOUNT_BANNED");
    reveal_strlit("TOKEN_INVALID");
    reveal_strlit("ACCOUNT_LOGGED_OUT");
    let a = "ACCOUNT_BANNED:This account has been banned"@;
    reveal_strlit("ACCOUNT_BANNED:This account has been banned");
    assert(a.subrange(0, 14) =~= "ACCOUNT_BANNED"@);
    assert(crate::text::stands_at(a, "ACCOUNT_BANNED"@, 0));
    let b = "TOKEN_INVALID:Authorization expired, please delete this account and sign in again"@;
    reveal_strlit(
        "TOKEN_INVALID:Authorization expired, please delete this account and sign in again",
    );
    assert(b.subrange(0, 13) =~= "TOKEN_INVALID"@);
    assert(crate::text::stands_at(b, "TOKEN_INVALID"@, 0));
    assert forall|at: int| !#[trigger] crate::text::stands_at(b, "ACCOUNT_BANNED"@, at) by {
        if crate::text::stands_at(b, "ACCOUNT_BANNED"@, at) {
            assert(b.subrange(at, at + 14)[0] == 'A' && b.subrange(at, at + 14)[1] == 'C');
            assert(b[at] == 'A' && b[at + 1] == 'C');
        }
    }
    let c =
        "Current active account quota API returned 401/403; local refresh_token refresh is disabled, please retry later or trigger a request in Codex"@;
    reveal_strlit(
        "Current active account quota API returned 401/403; local refresh_token refresh is disabled, please retry later or trigger a request in Codex",
    );
    assert forall|at: int| !#[trigger] crate::text::stands_at(c, "ACCOUNT_BANNED"@, at) by {
        if crate::text::stands_at(c, "ACCOUNT_BANNED"@, at) {
            assert(c.subrange(at, at + 14)[0] == 'A' && c.subrange(at, at + 14)[1] == 'C');
            assert(c[at] == 'A' && c[at + 1] == 'C');
        }
    }
    assert forall|at: int| !#[trigger] crate::text::stands_at(c, "ACCOUNT_LOGGED_OUT"@, at) by {
        if crate::text::stands_at(c, "ACCOUNT_LOGGED_OUT"@, at) {
            assert(c.subrange(at, at + 18)[0] == 'A' && c.subrange(at, at + 18)[1] == 'C');
            assert(c[at] == 'A' && c[at + 1] == 'C');
        }
    }
    assert forall|at: int| !#[trigger] crate::text::stands_at(c, "TOKEN_INVALID"@, at) by {
        if crate::text::stands_at(c, "TOKEN_INVALID"@, at) {
            assert(c.subrange(at, at + 13)[0] == 'T');
            assert(c[at] == 'T');
        }
    }
}

/// A report that was read is shown, unless it is no document or tells of a ban: then the query fails.
pub proof fn what_reports_lead_to(
    before: UsageFetch,
    body: String,
    after: UsageFetch,
    action: FetchAction,
)
    requires
        before.phase == FetchPhase::Report,
        fetch_step(before, FetchEvent::ReportRead(Ok(body)), after, action),
    ensures
        crate::json::json_read(body@) is Err ==> action is Fail,
        crate::json::json_read(body@) matches Ok(report) ==> {
            &&& report_bans(report) ==> action is Fail
            &&& !report_bans(report) ==> (action matches FetchAction::Show(f) && report_read(
                report,
                f,
            ))
        },
        after.new_tokens == before.new_tokens,
{
}


/// The numbers of a window can be computed with unless what is left or the hours of the window,
/// rounded up, would go beyond what their types hold.
pub proof fn what_can_be_computed_with(w: WindowNumbers)
    ensures
        window_in_range(None),
        window_in_range(Some(w)) <==> {
            &&& w.used_percent matches Some(p) ==> 100 - p <= 2147483647
            &&& w.limit_window_seconds matches Some(size) ==> size + 3599 <= 9223372036854775807
        },
{
}

} // verus!
