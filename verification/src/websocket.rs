//! WebSocket connections through the proxy: finding an account that can carry one, connecting,
//! and watching what comes back.
use crate::account::{copy_opt, Account, AccountStore, DiskAuth};
use crate::clock::Timestamp;
use crate::json::{get_of, quote, string_of, Json, JsonView};
use crate::proxy::{
    error_response, forward_with_token, get_current_token, hand_on, is_chatgpt_token,
    mark_current_banned, mark_current_quota_depleted, set_headers, websocket_url, BanNotice,
    Header, HeaderWay, PlainReply,
};
use crate::quota::Persist;
use crate::selection::{is_spent, pick_next_account_at, PickResult};
use crate::switch::SwitchReason;
use crate::text::{concat2, concat3, contains, eq_str, to_lowercase};
use crate::usage::{usage_to_cached, UsageDisplay};
use vstd::prelude::*;

verus! {

// ---------------------------------------------------------------------------
// What comes back
// ---------------------------------------------------------------------------

/// A message of a WebSocket, as far as the proxy looks at it.
#[derive(Debug)]
pub enum SocketMessage {
    Text(String),
    Close,
    Other,
}

/// A message, in lower case, has a word for a limit in it.
pub open spec fn limit_word(lower: Seq<char>) -> bool {
    ||| crate::text::occurs(lower, "rate_limit"@)
    ||| crate::text::occurs(lower, "rate limit"@)
    ||| crate::text::occurs(lower, "usage_limit"@)
    ||| crate::text::occurs(lower, "usage limit"@)
    ||| crate::text::occurs(lower, "too many requests"@)
    ||| crate::text::occurs(lower, "insufficient_quota"@)
    ||| crate::text::occurs(lower, "billing_hard_limit"@)
    ||| crate::text::occurs(lower, "tokens per min"@)
    ||| crate::text::occurs(lower, "requests per min"@)
}

/// A message, in lower case, says outright that a limit was hit.
pub open spec fn limit_phrase(lower: Seq<char>) -> bool {
    ||| crate::text::occurs(lower, "hit your usage limit"@)
    ||| crate::text::occurs(lower, "rate limit reached"@)
    ||| crate::text::occurs(lower, "too many requests"@)
}

/// A message, in lower case, has a word for a ban in it.
pub open spec fn ban_word(lower: Seq<char>) -> bool {
    ||| crate::text::occurs(lower, "deactivated"@)
    ||| crate::text::occurs(lower, "banned"@)
    ||| crate::text::occurs(lower, "suspended"@)
    ||| crate::text::occurs(lower, "account_deactivated"@)
    ||| crate::text::occurs(lower, "deactivated_workspace"@)
}

/// The type that the document of a message gives.
pub open spec fn kind_of(doc: JsonView) -> Option<Seq<char>> {
    crate::json::text_of(crate::json::field(doc, "type"@))
}

/// An error is given: the field is there, and it is not null.
pub open spec fn error_given(error: Option<JsonView>) -> bool {
    error matches Some(e) && e != JsonView::Null
}

/// The type of the message is that of an error.
pub open spec fn error_kind(doc: JsonView) -> bool {
    kind_of(doc) == Some("response.failed"@) || kind_of(doc) == Some("error"@)
}

/// The error that a response in the document gives.
pub open spec fn response_error(doc: JsonView) -> Option<JsonView> {
    crate::json::field_of(crate::json::field(doc, "response"@), "error"@)
}

/// The document of a message reports an error that may be a limit. Where it gives a type, the type
/// decides: other messages may have fields for an error or for limits in them. One without a type
/// reports an error by giving one.
pub open spec fn reports_error(doc: JsonView) -> bool {
    error_kind(doc) || (kind_of(doc) is None && (error_given(response_error(doc)) || error_given(
        crate::json::field(doc, "error"@),
    )))
}

/// The document of a message may tell of a ban: its type is that of an error, or it has a field for
/// one, whatever its type is and whatever the field holds.
pub open spec fn has_error(doc: JsonView) -> bool {
    error_kind(doc) || response_error(doc) is Some || crate::json::field(doc, "error"@) is Some
}

/// A message says that a limit was hit: `lower` is its text in lower case, `doc` its document
/// where it has one. Without a document that gives a type, the text alone may say so.
pub open spec fn limit_hit(lower: Seq<char>, doc: Option<JsonView>) -> bool {
    limit_word(lower) && match doc {
        Some(d) => reports_error(d) || (kind_of(d) is None && limit_phrase(lower)),
        None => limit_phrase(lower),
    }
}

/// A message says that the account is banned.
pub open spec fn ban_told(lower: Seq<char>, doc: Option<JsonView>) -> bool {
    ban_word(lower) && (doc matches Some(d) && has_error(d))
}

/// The document of a text, where it has one.
pub open spec fn document(text: Seq<char>) -> Option<JsonView> {
    match crate::json::json_read(text) {
        Ok(d) => Some(d),
        Err(_) => None,
    }
}

/// A message of the server says that a limit was hit.
pub open spec fn message_limits(m: SocketMessage) -> bool {
    match m {
        SocketMessage::Text(t) => limit_hit(crate::text::lowered(t@), document(t@)),
        _ => false,
    }
}

/// A message of the server says that the account is banned.
pub open spec fn message_bans(m: SocketMessage) -> bool {
    match m {
        SocketMessage::Text(t) => ban_told(crate::text::lowered(t@), document(t@)),
        _ => false,
    }
}

fn has_limit_word(lower: &str) -> (b: bool)
    ensures
        b == limit_word(lower@),
{
    contains(lower, "rate_limit") || contains(lower, "rate limit") || contains(lower, "usage_limit")
        || contains(lower, "usage limit") || contains(lower, "too many requests") || contains(
        lower,
        "insufficient_quota",
    ) || contains(lower, "billing_hard_limit") || contains(lower, "tokens per min") || contains(
        lower,
        "requests per min",
    )
}

fn has_ban_word(lower: &str) -> (b: bool)
    ensures
        b == ban_word(lower@),
{
    contains(lower, "deactivated") || contains(lower, "banned") || contains(lower, "suspended")
        || contains(lower, "account_deactivated") || contains(lower, "deactivated_workspace")
}

fn is_error_given(error: Option<&Json>) -> (b: bool)
    ensures
        b == error_given(crate::json::seen(error)),
{
    match error {
        Some(Json::Null) => false,
        Some(_) => true,
        None => false,
    }
}

fn is_error_kind(doc: &Json) -> (b: bool)
    ensures
        b == error_kind(doc@),
{
    match string_of(doc.get("type")) {
        Some(kind) => eq_str(kind.as_str(), "response.failed") || eq_str(kind.as_str(), "error"),
        None => false,
    }
}

/// Whether the document of a message reports an error that may be a limit.
pub fn is_error_report(doc: &Json) -> (b: bool)
    ensures
        b == reports_error(doc@),
{
    is_error_kind(doc) || (string_of(doc.get("type")).is_none() && (is_error_given(
        get_of(doc.get("response"), "error"),
    ) || is_error_given(doc.get("error"))))
}

/// Whether the document of a message may tell of a ban.
pub fn may_tell_ban(doc: &Json) -> (b: bool)
    ensures
        b == has_error(doc@),
{
    is_error_kind(doc) || get_of(doc.get("response"), "error").is_some() || doc.get(
        "error",
    ).is_some()
}

/// Whether a message says that a limit was hit, from its text in lower case and its document.
pub fn is_limit_hit(lower: &str, doc: &Option<Json>) -> (b: bool)
    ensures
        b == limit_hit(
            lower@,
            match *doc {
                Some(d) => Some(d@),
                None => None,
            },
        ),
{
    if !has_limit_word(lower) {
        return false;
    }
    if let Some(d) = doc {
        if is_error_report(d) {
            return true;
        }
        if string_of(d.get("type")).is_some() {
            return false;
        }
    }
    contains(lower, "hit your usage limit") || contains(lower, "rate limit reached") || contains(
        lower,
        "too many requests",
    )
}

/// Whether a message says that the account is banned, from its text in lower case and its
/// document.
pub fn is_ban_told(lower: &str, doc: &Option<Json>) -> (b: bool)
    ensures
        b == ban_told(
            lower@,
            match *doc {
                Some(d) => Some(d@),
                None => None,
            },
        ),
{
    if !has_ban_word(lower) {
        return false;
    }
    match doc {
        Some(d) => may_tell_ban(d),
        None => false,
    }
}

/// The document of a text, where it has one.
fn read_document(text: &str) -> (doc: Option<Json>)
    ensures
        document(text@) == match doc {
            Some(d) => Some(d@),
            None => None,
        },
{
    match crate::json::parse(text) {
        Ok(d) => Some(d),
        Err(_) => None,
    }
}

/// Whether a message of the server says that a limit was hit.
pub fn detect_ws_rate_limit(message: &SocketMessage) -> (b: bool)
    ensures
        b == message_limits(*message),
{
    match message {
        SocketMessage::Text(text) => {
            let lower: String = to_lowercase(text.as_str());
            let doc: Option<Json> = read_document(text.as_str());
            is_limit_hit(lower.as_str(), &doc)
        },
        _ => false,
    }
}

/// Whether a message of the server says that the account is banned.
pub fn detect_ws_banned(message: &SocketMessage) -> (b: bool)
    ensures
        b == message_bans(*message),
{
    match message {
        SocketMessage::Text(text) => {
            let lower: String = to_lowercase(text.as_str());
            let doc: Option<Json> = read_document(text.as_str());
            is_ban_told(lower.as_str(), &doc)
        },
        _ => false,
    }
}

/// A message of another type than those of errors is never taken for a limit, whatever its text and
/// its fields say, and for a ban only where it has a field for an error.
pub proof fn ordinary_messages_are_no_errors(lower: Seq<char>, doc: JsonView)
    requires
        kind_of(doc) matches Some(kind) && kind != "response.failed"@ && kind != "error"@,
    ensures
        !limit_hit(lower, Some(doc)),
        response_error(doc) is None && crate::json::field(doc, "error"@) is None ==> !ban_told(
            lower,
            Some(doc),
        ),
{
}

/// What is done about a message besides handing it on.
#[derive(Debug)]
pub struct BridgeStep {
    pub save: Persist,
    pub ban: Option<BanNotice>,
    /// Make this account the active one, for this reason.
    pub switch: Option<(String, SwitchReason)>,
    /// Break the connection off once the message was handed on.
    pub stop: bool,
}

/// The account that a pick found is switched to; nothing is done where it found none.
pub open spec fn switches_to_pick(
    store: AccountStore,
    now: int,
    reason: SwitchReason,
    switch: Option<(String, SwitchReason)>,
) -> bool {
    exists|pick: PickResult|
        #[trigger] crate::selection::picked(store, now, pick) && match pick {
            PickResult::Found { id, .. } => switch == Some((id, reason)),
            PickResult::Exhausted { .. } => switch is None,
        }
}

/// What is done about a message of the server.
pub open spec fn bridged(
    s0: AccountStore,
    message: SocketMessage,
    now: int,
    s1: AccountStore,
    out: BridgeStep,
) -> bool {
    if message_limits(message) {
        &&& crate::account::current_changed(s0, s1, |a: Account, b: Account| b == a.depleted())
        &&& out.save == crate::relay::save_current(s0)
        &&& out.ban is None
        &&& out.stop
        &&& switches_to_pick(s1, now, SwitchReason::WebSocketRateLimit, out.switch)
    } else if message_bans(message) {
        &&& crate::proxy::ban_noted(s0, s1, out.ban)
        &&& out.save == crate::relay::save_current(s0)
        &&& out.stop
        &&& switches_to_pick(s1, now, SwitchReason::BannedDetected, out.switch)
    } else {
        &&& crate::account::unchanged(s0, s1)
        &&& out.save == Persist::No && out.ban is None && out.switch is None
        &&& out.stop == (message is Close)
    }
}

fn pick_switch(store: &AccountStore, now: i64, reason: SwitchReason) -> (switch: Option<
    (String, SwitchReason),
>)
    ensures
        switches_to_pick(*store, now as int, reason, switch),
{
    match pick_next_account_at(store, now) {
        PickResult::Found { id, .. } => Some((id, reason)),
        PickResult::Exhausted { .. } => None,
    }
}

/// What is done about a message of the server. The message is handed on in any case.
pub fn bridge_from_upstream(store: &mut AccountStore, message: &SocketMessage, now: i64) -> (out:
    BridgeStep)
    ensures
        bridged(*old(store), *message, now as int, *final(store), out),
{
    if detect_ws_rate_limit(message) {
        let found: bool = mark_current_quota_depleted(store);
        let switch: Option<(String, SwitchReason)> = pick_switch(
            store,
            now,
            SwitchReason::WebSocketRateLimit,
        );
        return BridgeStep {
            save: if found {
                Persist::BestEffort
            } else {
                Persist::No
            },
            ban: None,
            switch,
            stop: true,
        };
    }
    if detect_ws_banned(message) {
        let ban: Option<BanNotice> = mark_current_banned(store);
        let switch: Option<(String, SwitchReason)> = pick_switch(
            store,
            now,
            SwitchReason::BannedDetected,
        );
        return BridgeStep {
            save: if ban.is_some() {
                Persist::BestEffort
            } else {
                Persist::No
            },
            ban,
            switch,
            stop: true,
        };
    }
    let stop: bool = match message {
        SocketMessage::Close => true,
        _ => false,
    };
    BridgeStep { save: Persist::No, ban: None, switch: None, stop }
}

/// Whether the connection is broken off once a message of the client was handed on.
pub fn bridge_from_client(message: &SocketMessage) -> (stop: bool)
    ensures
        stop == (*message is Close),
{
    match message {
        SocketMessage::Close => true,
        _ => false,
    }
}

// ---------------------------------------------------------------------------
// Connecting
// ---------------------------------------------------------------------------

/// How many candidates are asked for their quota before a connection, and how many accounts are
/// tried for it.
pub const MAX_SOCKET_TRIES: usize = 3;

/// Where a connection stands.
#[derive(Debug, Clone, Copy, PartialEq, Eq, Structural)]
pub enum SocketPhase {
    /// A candidate is being asked for its quota.
    Checking,
    /// A candidate that has quota is being made active.
    PreSwitching,
    /// The first connection is being made.
    Connecting,
    /// Another account is being made active, after a refusal.
    Switching,
    /// A connection with the token of another account is being made.
    Retrying,
    /// There is nothing more to do.
    Done,
}

/// A WebSocket connection to be made.
#[derive(Debug)]
pub struct Socket {
    pub phase: SocketPhase,
    /// How many candidates were tried before the present one.
    pub attempt: usize,
    /// The present candidate, and its token.
    pub id: String,
    pub candidate_token: String,
    /// The token to connect with.
    pub token: String,
}

/// Why a connection was not made.
#[derive(Debug)]
pub enum SocketError {
    /// The request for it could not be made up.
    Build(String),
    /// It failed.
    Connect(String),
}

/// What has happened to a connection.
#[derive(Debug)]
pub enum SocketEvent {
    /// The usage report of the candidate came back.
    Fetched(Result<UsageDisplay, String>),
    /// The switch is over.
    Switched(Result<(), String>),
    /// The connection was made, or not.
    Connected(Result<(), SocketError>),
}

/// What is to be done for a connection.
#[derive(Debug)]
pub enum SocketAction {
    /// Fetch the usage report, with or without a local refresh where the tokens have run out.
    Fetch {
        access_token: String,
        account_id: Option<String>,
        refresh_token: Option<String>,
        allow_local_refresh: bool,
    },
    /// Make this account the active one.
    Switch { id: String },
    /// Connect upstream with this token.
    Connect { token: String },
    /// The connection stands: tell the client to switch protocols, and bridge the two.
    Upgrade,
    /// Answer with this.
    Reply(PlainReply),
    /// Nothing: the event does not belong to where the connection stands.
    Wait,
}

/// A step of a connection: what to do with the store, and what to do next.
#[derive(Debug)]
pub struct SocketStep {
    pub save: Persist,
    pub next: SocketAction,
}

/// The message of a failed connection, in lower case, is that of a refusal.
pub open spec fn auth_failure(lower: Seq<char>) -> bool {
    ||| crate::text::occurs(lower, "401"@)
    ||| crate::text::occurs(lower, "403"@)
    ||| crate::text::occurs(lower, "unauthorized"@)
    ||| crate::text::occurs(lower, "forbidden"@)
}

/// Whether the message of a failed connection, in lower case, is that of a refusal.
pub fn is_auth_failure(lower: &str) -> (b: bool)
    ensures
        b == auth_failure(lower@),
{
    contains(lower, "401") || contains(lower, "403") || contains(lower, "unauthorized")
        || contains(lower, "forbidden")
}

/// The connection is made with the token that is at hand.
pub open spec fn connects(k: Socket, phase: SocketPhase, next: SocketAction, token: Seq<char>) -> bool {
    k.phase == phase && (next matches SocketAction::Connect { token: t } && t@ == token)
}

/// The client gets an error for an answer.
pub open spec fn socket_fails(k: Socket, next: SocketAction, message: Seq<char>) -> bool {
    k.phase == SocketPhase::Done && (next matches SocketAction::Reply(r) && crate::proxy::is_error(
        r,
        502,
        message,
    ))
}

/// What follows a pick of a candidate that is to be asked for its quota.
pub open spec fn checks_pick(
    n: int,
    store: AccountStore,
    pick: PickResult,
    k: Socket,
    next: SocketAction,
) -> bool {
    match pick {
        PickResult::Found { id, token } => {
            let a = crate::account::lookup(store.accounts@, id@);
            &&& k.phase == SocketPhase::Checking
            &&& k.attempt == n
            &&& k.id == id
            &&& k.candidate_token == token
            &&& a is Some
            &&& next matches SocketAction::Fetch {
                access_token,
                account_id,
                refresh_token,
                allow_local_refresh,
            } && access_token == token && crate::json::opt_text(account_id)
                == crate::account::account_id_in(a->0.auth_json@) && refresh_token
                == a->0.refresh_token && !allow_local_refresh
        },
        PickResult::Exhausted { .. } => connects(k, SocketPhase::Connecting, next, k.token@),
    }
}

/// The next candidate is asked for its quota, after `n` others, as long as there is one and there
/// were not too many; then the connection is made with what is at hand.
pub open spec fn checks_next(
    n: int,
    store: AccountStore,
    now: int,
    k: Socket,
    next: SocketAction,
) -> bool {
    if n >= MAX_SOCKET_TRIES {
        connects(k, SocketPhase::Connecting, next, k.token@)
    } else {
        exists|pick: PickResult|
            #[trigger] crate::selection::picked(store, now, pick) && checks_pick(
                n,
                store,
                pick,
                k,
                next,
            )
    }
}

/// What follows a pick of an account to connect with.
pub open spec fn reconnects_pick(n: int, pick: PickResult, k: Socket, next: SocketAction) -> bool {
    match pick {
        PickResult::Found { id, token } => {
            &&& k.phase == SocketPhase::Switching
            &&& k.attempt == n
            &&& k.id == id
            &&& k.candidate_token == token
            &&& next matches SocketAction::Switch { id: i } && i == id
        },
        PickResult::Exhausted { .. } => socket_fails(
            k,
            next,
            "All account WebSocket connections failed"@,
        ),
    }
}

/// The next account is tried for the connection, after `n` others, as long as there is one and
/// there were not too many.
pub open spec fn reconnects_next(
    n: int,
    store: AccountStore,
    now: int,
    k: Socket,
    next: SocketAction,
) -> bool {
    if n >= MAX_SOCKET_TRIES {
        socket_fails(k, next, "All account WebSocket connections failed"@)
    } else {
        exists|pick: PickResult|
            #[trigger] crate::selection::picked(store, now, pick) && reconnects_pick(
                n,
                pick,
                k,
                next,
            )
    }
}

/// What the usage report of a candidate leaves in its account: the report, and, where it shows
/// nothing to connect with or there is none, a window that is used up.
pub open spec fn candidate_checked(
    a: Account,
    report: Result<UsageDisplay, String>,
    now: Timestamp,
) -> Account {
    match report {
        Ok(u) => {
            let kept = Account { cached_quota: Some(crate::usage::cached_of(u, now)), ..a };
            if u.five_hour_left > 0 && u.weekly_left > 0 {
                kept
            } else {
                kept.depleted()
            }
        },
        Err(_) => a.depleted(),
    }
}

/// One step of a connection.
pub open spec fn socket_step(
    k0: Socket,
    s0: AccountStore,
    event: SocketEvent,
    now: Timestamp,
    k: Socket,
    s1: AccountStore,
    out: SocketStep,
) -> bool {
    &&& match (k0.phase, event) {
        (SocketPhase::PreSwitching, SocketEvent::Switched(Ok(_))) => k.token
            == k0.candidate_token,
        _ => k.token == k0.token,
    }
    &&& match (k0.phase, event) {
        (SocketPhase::Checking, SocketEvent::Fetched(report)) => {
            &&& crate::account::account_changed(
                s0,
                s1,
                k0.id@,
                |a: Account, b: Account| b == candidate_checked(a, report, now),
            )
            &&& out.save == crate::quota::save_if_there(s0, k0.id@)
            &&& if report matches Ok(u) && u.five_hour_left > 0 && u.weekly_left > 0 {
                &&& k.phase == SocketPhase::PreSwitching
                &&& k.candidate_token == k0.candidate_token
                &&& out.next matches SocketAction::Switch { id } && id == k0.id
            } else {
                checks_next(k0.attempt + 1, s1, now.secs as int, k, out.next)
            }
        },
        (SocketPhase::PreSwitching, SocketEvent::Switched(_)) => {
            &&& crate::account::unchanged(s0, s1)
            &&& out.save == Persist::No
            &&& connects(k, SocketPhase::Connecting, out.next, k.token@)
        },
        (SocketPhase::Connecting, SocketEvent::Connected(Ok(_))) => {
            &&& crate::account::unchanged(s0, s1)
            &&& out.save == Persist::No
            &&& k.phase == SocketPhase::Done && out.next is Upgrade
        },
        (SocketPhase::Connecting, SocketEvent::Connected(Err(SocketError::Build(e)))) => {
            &&& crate::account::unchanged(s0, s1)
            &&& out.save == Persist::No
            &&& socket_fails(k, out.next, "WebSocket request build failed: "@ + e@)
        },
        (SocketPhase::Connecting, SocketEvent::Connected(Err(SocketError::Connect(e)))) => {
            if auth_failure(crate::text::lowered(e@)) {
                &&& crate::account::current_changed(
                    s0,
                    s1,
                    |a: Account, b: Account| b == a.depleted(),
                )
                &&& out.save == crate::relay::save_current(s0)
                &&& reconnects_next(0, s1, now.secs as int, k, out.next)
            } else {
                &&& crate::account::unchanged(s0, s1)
                &&& out.save == Persist::No
                &&& socket_fails(k, out.next, "WebSocket upstream connection failed: "@ + e@)
            }
        },
        (SocketPhase::Switching, SocketEvent::Switched(result)) => {
            &&& crate::account::unchanged(s0, s1)
            &&& out.save == Persist::No
            &&& if result is Ok {
                k.attempt == k0.attempt && connects(
                    k,
                    SocketPhase::Retrying,
                    out.next,
                    k0.candidate_token@,
                )
            } else {
                reconnects_next(k0.attempt + 1, s1, now.secs as int, k, out.next)
            }
        },
        (SocketPhase::Retrying, SocketEvent::Connected(result)) => {
            &&& crate::account::unchanged(s0, s1)
            &&& out.save == Persist::No
            &&& if result is Ok {
                k.phase == SocketPhase::Done && out.next is Upgrade
            } else {
                reconnects_next(k0.attempt + 1, s1, now.secs as int, k, out.next)
            }
        },
        _ => {
            &&& crate::account::unchanged(s0, s1)
            &&& k == k0
            &&& out.save == Persist::No
            &&& out.next is Wait
        },
    }
}

/// How a connection begins: with the token of the active account, after the login document on disk
/// was taken over where it is its own. Where that account cannot carry a connection, the
/// candidates are asked for their quota first.
pub open spec fn socket_begun(
    s0: AccountStore,
    disk: Option<DiskAuth>,
    now: int,
    s1: AccountStore,
    k: Socket,
    out: SocketStep,
) -> bool {
    &&& crate::proxy::disk_taken(s0, s1, disk)
    &&& out.save == if crate::proxy::disk_is_current(s0, disk) {
        Persist::BestEffort
    } else {
        Persist::No
    }
    &&& match crate::proxy::current_token(s1) {
        Err(e) => k.phase == SocketPhase::Done && (out.next matches SocketAction::Reply(r)
            && crate::proxy::is_error(r, 503, e)),
        Ok(t) => {
            &&& k.token@ == t.0
            &&& if crate::selection::spent(s1) {
                checks_next(0, s1, now, k, out.next)
            } else {
                connects(k, SocketPhase::Connecting, out.next, t.0)
            }
        },
    }
}

impl Socket {
    fn connect(&mut self) -> (next: SocketAction)
        ensures
            final(self).token == old(self).token,
            connects(*final(self), SocketPhase::Connecting, next, final(self).token@),
    {
        self.phase = SocketPhase::Connecting;
        SocketAction::Connect { token: self.token.clone() }
    }

    fn fail(&mut self, message: &str) -> (next: SocketAction)
        ensures
            final(self).token == old(self).token,
            socket_fails(*final(self), next, message@),
    {
        self.phase = SocketPhase::Done;
        SocketAction::Reply(error_response(502, message))
    }

    /// How many candidates have been tried, the present one among them.
    fn tried(&self) -> (n: usize)
        ensures
            n == self.attempt + 1 || (n >= MAX_SOCKET_TRIES && self.attempt + 1
                >= MAX_SOCKET_TRIES),
    {
        if self.attempt >= MAX_SOCKET_TRIES {
            MAX_SOCKET_TRIES
        } else {
            self.attempt + 1
        }
    }

    fn check_next(&mut self, n: usize, store: &AccountStore, now: i64) -> (next: SocketAction)
        ensures
            final(self).token == old(self).token,
            checks_next(n as int, *store, now as int, *final(self), next),
    {
        if n >= MAX_SOCKET_TRIES {
            return self.connect();
        }
        let pick: PickResult = pick_next_account_at(store, now);
        let ghost picked = pick;
        match pick {
            PickResult::Found { id, token } => {
                let at: Option<usize> = store.find(id.as_str());
                let mut account_id: Option<String> = None;
                let mut refresh_token: Option<String> = None;
                if let Some(i) = at {
                    account_id = AccountStore::extract_account_id(&store.accounts[i].auth_json);
                    refresh_token = copy_opt(&store.accounts[i].refresh_token);
                }
                self.phase = SocketPhase::Checking;
                self.attempt = n;
                self.candidate_token = token.clone();
                self.id = id;
                let next: SocketAction = SocketAction::Fetch {
                    access_token: token,
                    account_id,
                    refresh_token,
                    allow_local_refresh: false,
                };
                assert(checks_pick(n as int, *store, picked, *self, next));
                next
            },
            PickResult::Exhausted { .. } => {
                let next: SocketAction = self.connect();
                assert(checks_pick(n as int, *store, picked, *self, next));
                next
            },
        }
    }

    fn reconnect_next(&mut self, n: usize, store: &AccountStore, now: i64) -> (next: SocketAction)
        ensures
            final(self).token == old(self).token,
            reconnects_next(n as int, *store, now as int, *final(self), next),
    {
        if n >= MAX_SOCKET_TRIES {
            return self.fail("All account WebSocket connections failed");
        }
        let pick: PickResult = pick_next_account_at(store, now);
        let ghost picked = pick;
        match pick {
            PickResult::Found { id, token } => {
                self.phase = SocketPhase::Switching;
                self.attempt = n;
                self.candidate_token = token;
                self.id = id.clone();
                let next: SocketAction = SocketAction::Switch { id };
                assert(reconnects_pick(n as int, picked, *self, next));
                next
            },
            PickResult::Exhausted { .. } => {
                let next: SocketAction = self.fail("All account WebSocket connections failed");
                assert(reconnects_pick(n as int, picked, *self, next));
                next
            },
        }
    }

    /// Takes the connection one step on.
    pub fn step(&mut self, store: &mut AccountStore, event: SocketEvent, now: Timestamp) -> (out:
        SocketStep)
        ensures
            socket_step(*old(self), *old(store), event, now, *final(self), *final(store), out),
    {
        match (self.phase, event) {
            (SocketPhase::Checking, SocketEvent::Fetched(report)) => {
                let mut save: Persist = Persist::No;
                let mut enough: bool = false;
                let at: Option<usize> = store.find(self.id.as_str());
                if let Some(i) = at {
                    save = Persist::BestEffort;
                    if let Ok(u) = &report {
                        store.accounts[i].cached_quota = Some(usage_to_cached(u, now));
                    }
                }
                if let Ok(u) = &report {
                    enough = u.five_hour_left > 0 && u.weekly_left > 0;
                }
                let next: SocketAction = if enough {
                    self.phase = SocketPhase::PreSwitching;
                    SocketAction::Switch { id: self.id.clone() }
                } else {
                    if let Some(i) = at {
                        if let Some(q) = &mut store.accounts[i].cached_quota {
                            q.five_hour_left = 0;
                        }
                    }
                    let n: usize = self.tried();
                    self.check_next(n, store, now.secs)
                };
                SocketStep { save, next }
            },
            (SocketPhase::PreSwitching, SocketEvent::Switched(result)) => {
                if result.is_ok() {
                    self.token = self.candidate_token.clone();
                }
                let next: SocketAction = self.connect();
                SocketStep { save: Persist::No, next }
            },
            (SocketPhase::Connecting, SocketEvent::Connected(Ok(_))) => {
                self.phase = SocketPhase::Done;
                SocketStep { save: Persist::No, next: SocketAction::Upgrade }
            },
            (SocketPhase::Connecting, SocketEvent::Connected(Err(SocketError::Build(e)))) => {
                let message: String = concat2("WebSocket request build failed: ", e.as_str());
                let next: SocketAction = self.fail(message.as_str());
                SocketStep { save: Persist::No, next }
            },
            (SocketPhase::Connecting, SocketEvent::Connected(Err(SocketError::Connect(e)))) => {
                let lower: String = to_lowercase(e.as_str());
                if is_auth_failure(lower.as_str()) {
                    let found: bool = mark_current_quota_depleted(store);
                    let next: SocketAction = self.reconnect_next(0, store, now.secs);
                    SocketStep {
                        save: if found {
                            Persist::BestEffort
                        } else {
                            Persist::No
                        },
                        next,
                    }
                } else {
                    let message: String = concat2(
                        "WebSocket upstream connection failed: ",
                        e.as_str(),
                    );
                    let next: SocketAction = self.fail(message.as_str());
                    SocketStep { save: Persist::No, next }
                }
            },
            (SocketPhase::Switching, SocketEvent::Switched(result)) => {
                let next: SocketAction = if result.is_ok() {
                    self.phase = SocketPhase::Retrying;
                    SocketAction::Connect { token: self.candidate_token.clone() }
                } else {
                    let n: usize = self.tried();
                    self.reconnect_next(n, store, now.secs)
                };
                SocketStep { save: Persist::No, next }
            },
            (SocketPhase::Retrying, SocketEvent::Connected(result)) => {
                let next: SocketAction = if result.is_ok() {
                    self.phase = SocketPhase::Done;
                    SocketAction::Upgrade
                } else {
                    let n: usize = self.tried();
                    self.reconnect_next(n, store, now.secs)
                };
                SocketStep { save: Persist::No, next }
            },
            _ => SocketStep { save: Persist::No, next: SocketAction::Wait },
        }
    }
}

/// Starts a WebSocket connection at the second `now`, with the login document that stands on disk.
pub fn handle_websocket(store: &mut AccountStore, disk: &Option<DiskAuth>, now: i64) -> (start: (
    Socket,
    SocketStep,
))
    ensures
        socket_begun(*old(store), *disk, now as int, *final(store), start.0, start.1),
{
    let token: (Result<(String, bool), String>, bool) = get_current_token(store, disk);
    let save: Persist = if token.1 {
        Persist::BestEffort
    } else {
        Persist::No
    };
    let mut k: Socket = Socket {
        phase: SocketPhase::Done,
        attempt: 0,
        id: String::new(),
        candidate_token: String::new(),
        token: String::new(),
    };
    let next: SocketAction = match token.0 {
        Err(e) => SocketAction::Reply(error_response(503, e.as_str())),
        Ok(t) => {
            k.token = t.0;
            if is_spent(store) {
                k.check_next(0, store, now)
            } else {
                k.connect()
            }
        },
    };
    (k, SocketStep { save, next })
}

/// A connection tries a bounded number of accounts: each switch after a refusal is one more
/// attempt, and none is made after the last.
pub proof fn socket_tries_few_accounts(
    k0: Socket,
    s0: AccountStore,
    event: SocketEvent,
    now: Timestamp,
    k: Socket,
    s1: AccountStore,
    out: SocketStep,
)
    requires
        socket_step(k0, s0, event, now, k, s1, out),
    ensures
        k.phase != k0.phase && k.phase == SocketPhase::Switching ==> k.attempt < MAX_SOCKET_TRIES,
        k.phase == SocketPhase::Switching && k0.phase == SocketPhase::Retrying ==> k.attempt
            == k0.attempt + 1,
        out.next is Fetch ==> k0.phase == SocketPhase::Checking && k.attempt == k0.attempt + 1
            && k.attempt < MAX_SOCKET_TRIES,
{
}

/// Making a connection changes neither which accounts there are nor which one is active, nor the
/// settings: that is left to the switch it asks for.
pub proof fn socket_keeps_the_accounts(
    k0: Socket,
    s0: AccountStore,
    event: SocketEvent,
    now: Timestamp,
    k: Socket,
    s1: AccountStore,
    out: SocketStep,
)
    requires
        socket_step(k0, s0, event, now, k, s1, out),
    ensures
        crate::account::same_ids(s0.accounts@, s1.accounts@),
        s1.current == s0.current,
        s1.settings == s0.settings,
{
    crate::account::lemma_place_from(s0.accounts@, k0.id@, 0);
    if let Some(c) = s0.current {
        crate::account::lemma_place_from(s0.accounts@, c@, 0);
    }
}

/// A candidate is switched to before a connection only when its report shows something left of
/// both windows.
pub proof fn precheck_switches_only_with_quota(
    k0: Socket,
    s0: AccountStore,
    event: SocketEvent,
    now: Timestamp,
    k: Socket,
    s1: AccountStore,
    out: SocketStep,
)
    requires
        socket_step(k0, s0, event, now, k, s1, out),
        k.phase == SocketPhase::PreSwitching,
        k0.phase != SocketPhase::PreSwitching,
    ensures
        event matches SocketEvent::Fetched(report) && (report matches Ok(u) && u.five_hour_left > 0
            && u.weekly_left > 0),
{
}

// ---------------------------------------------------------------------------
// The handshake
// ---------------------------------------------------------------------------

/// The address that is connected to with a token: that of the server which the token is for.
pub fn socket_address(token: &str, path_and_query: &str) -> (url: String)
    ensures
        url@ == crate::proxy::websocket_address(
            crate::proxy::upstream(crate::proxy::chatgpt_token(token@), path_and_query@).0,
        ),
{
    websocket_url(is_chatgpt_token(token), path_and_query)
}

/// The headers of the request upstream: `own` are those of the handshake, and each header of the
/// client that is handed on is set on top of them.
pub fn socket_headers(own: Vec<Header>, client: &Vec<Header>, token: &str) -> (out: Vec<Header>)
    ensures
        crate::proxy::header_list(out@) == crate::proxy::authorized(
            crate::proxy::with_headers(
                crate::proxy::header_list(own@),
                crate::proxy::handed_on(
                    HeaderWay::SocketRequest,
                    crate::proxy::header_list(client@),
                ),
            ),
            token@,
        ),
{
    let more: Vec<Header> = hand_on(HeaderWay::SocketRequest, client);
    let base: Vec<Header> = set_headers(own, &more);
    forward_with_token(&base, token)
}

/// No WebSocket request carries the authorization that the client sent: what goes upstream under
/// that name is the token of the account, as long as the handshake has none of its own.
pub proof fn sockets_never_authorize(
    own: Seq<crate::proxy::HeaderView>,
    client: Seq<crate::proxy::HeaderView>,
    token: Seq<char>,
)
    requires
        forall|i: int| 0 <= i < own.len() ==> (#[trigger] own[i]).0 != "authorization"@,
        forall|i: int|
            0 <= i < client.len() ==> (#[trigger] client[i]).0 == crate::text::ascii_lowered(
                client[i].0,
            ),
    ensures
        ({
            let sent = crate::proxy::authorized(
                crate::proxy::with_headers(
                    own,
                    crate::proxy::handed_on(HeaderWay::SocketRequest, client),
                ),
                token,
            );
            forall|i: int|
                0 <= i < sent.len() && (#[trigger] sent[i]).0 == "authorization"@ ==> sent[i].1
                    == crate::proxy::bytes_of("Bearer "@ + token)
        }),
{
    let more = crate::proxy::handed_on(HeaderWay::SocketRequest, client);
    crate::proxy::lemma_handed_on(HeaderWay::SocketRequest, client);
    assert forall|i: int| 0 <= i < more.len() implies (#[trigger] more[i]).0
        != "authorization"@ by {
        let j = choose|j: int| 0 <= j < client.len() && client[j] == more[i];
        assert(client[j].0 == crate::text::ascii_lowered(client[j].0));
    }
    crate::proxy::lemma_name_stays_away(own, more, "authorization"@);
    let base = crate::proxy::with_headers(own, more);
    crate::proxy::lemma_without_header(base, "authorization"@);
}

/// What the key of a WebSocket request is answered with.
pub uninterp spec fn accept_key(key: Seq<u8>) -> Seq<char>;

/// `tungstenite::handshake::derive_accept_key`: a text that depends on the key alone.
#[verifier::external_body]
pub(crate) fn derive_accept_key(key: &[u8]) -> (text: String)
    ensures
        text@ == accept_key(key@),
{
    tokio_tungstenite::tungstenite::handshake::derive_accept_key(key)
}

/// The headers of the answer that tells the client to switch protocols.
pub open spec fn upgrade_list(
    accept: Seq<char>,
    upstream: Seq<crate::proxy::HeaderView>,
) -> Seq<crate::proxy::HeaderView> {
    seq![
        ("upgrade"@, crate::proxy::bytes_of("websocket"@)),
        ("connection"@, crate::proxy::bytes_of("Upgrade"@)),
        ("sec-websocket-accept"@, crate::proxy::bytes_of(accept)),
    ] + crate::proxy::handed_on(HeaderWay::SocketAnswer, upstream)
}

/// The headers of the answer that tells the client to switch protocols: `accept` answers the key
/// of the request, and `upstream` are the headers of the server's answer.
pub fn upgrade_headers_for(accept: &str, upstream: &Vec<Header>) -> (out: Vec<Header>)
    ensures
        crate::proxy::header_list(out@) == upgrade_list(
            accept@,
            crate::proxy::header_list(upstream@),
        ),
{
    let mut out: Vec<Header> = Vec::new();
    out.push(("upgrade".to_owned(), "websocket".as_bytes_vec()));
    out.push(("connection".to_owned(), "Upgrade".as_bytes_vec()));
    out.push(("sec-websocket-accept".to_owned(), accept.as_bytes_vec()));
    let ghost first = out@;
    let mut more: Vec<Header> = hand_on(HeaderWay::SocketAnswer, upstream);
    let ghost rest = more@;
    out.append(&mut more);
    assert(out@ =~= first + rest);
    assert(crate::proxy::header_list(out@) =~= crate::proxy::header_list(first)
        + crate::proxy::header_list(rest));
    assert(crate::proxy::header_list(first) =~= seq![
        ("upgrade"@, crate::proxy::bytes_of("websocket"@)),
        ("connection"@, crate::proxy::bytes_of("Upgrade"@)),
        ("sec-websocket-accept"@, crate::proxy::bytes_of(accept@)),
    ]);
    out
}

/// The headers of the answer that tells the client to switch protocols, from the key of its
/// request.
pub fn upgrade_headers(key: &str, upstream: &Vec<Header>) -> (out: Vec<Header>)
    ensures
        crate::proxy::header_list(out@) == upgrade_list(
            accept_key(crate::proxy::bytes_of(key@)),
            crate::proxy::header_list(upstream@),
        ),
{
    let accept: String = derive_accept_key(key.as_bytes());
    upgrade_headers_for(accept.as_str(), upstream)
}

/// The message that puts a text into the open conversation.
pub fn inject_frame(text: &str) -> (frame: String)
    ensures
        frame@ == "{\"delta\":"@ + crate::json::json_quoted("\n"@ + text@ + "\n"@)
            + ",\"type\":\"response.output_text.delta\"}"@,
{
    let delta: String = concat3("\n", text, "\n");
    concat3(
        "{\"delta\":",
        quote(delta.as_str()).as_str(),
        ",\"type\":\"response.output_text.delta\"}",
    )
}

// ---------------------------------------------------------------------------
// What messages are taken for
// ---------------------------------------------------------------------------

proof fn lemma_part_of_a_part(whole: Seq<char>, part: Seq<char>, inner: Seq<char>, at: int)
    requires
        crate::text::stands_at(part, inner, at),
        crate::text::occurs(whole, part),
    ensures
        crate::text::occurs(whole, inner),
{
    let k = choose|k: int| #[trigger] crate::text::stands_at(whole, part, k);
    assert(whole.subrange(k + at, k + at + inner.len()) =~= whole.subrange(
        k,
        k + part.len(),
    ).subrange(at, at + inner.len()));
    assert(crate::text::stands_at(whole, inner, k + at));
}

/// A message is taken for a ban only where its text has one of the words `deactivated`, `banned` and
/// `suspended` in it, whatever fields its document has, and only where it is a document at all.
pub proof fn bans_need_a_word_for_them(lower: Seq<char>, doc: Option<JsonView>)
    ensures
        ban_told(lower, doc) ==> doc is Some && (crate::text::occurs(lower, "deactivated"@)
            || crate::text::occurs(lower, "banned"@) || crate::text::occurs(lower, "suspended"@)),
{
    reveal_strlit("deactivated");
    reveal_strlit("account_deactivated");
    reveal_strlit("deactivated_workspace");
    assert("account_deactivated"@.subrange(8, 19) =~= "deactivated"@);
    assert("deactivated_workspace"@.subrange(0, 11) =~= "deactivated"@);
    assert(crate::text::stands_at("account_deactivated"@, "deactivated"@, 8));
    assert(crate::text::stands_at("deactivated_workspace"@, "deactivated"@, 0));
    if crate::text::occurs(lower, "account_deactivated"@) {
        lemma_part_of_a_part(lower, "account_deactivated"@, "deactivated"@, 8);
    }
    if crate::text::occurs(lower, "deactivated_workspace"@) {
        lemma_part_of_a_part(lower, "deactivated_workspace"@, "deactivated"@, 0);
    }
}

/// A document with one of those words is a ban where it is of the type of an error or has a field
/// for one, and else it is none.
pub proof fn words_for_a_ban_need_an_error(lower: Seq<char>, doc: JsonView)
    requires
        crate::text::occurs(lower, "deactivated"@) || crate::text::occurs(lower, "banned"@)
            || crate::text::occurs(lower, "suspended"@),
    ensures
        ban_told(lower, Some(doc)) <==> {
            ||| crate::json::field(doc, "type"@) == Some(JsonView::Str("response.failed"@))
            ||| crate::json::field(doc, "type"@) == Some(JsonView::Str("error"@))
            ||| crate::json::field(doc, "error"@) is Some
            ||| crate::json::field(doc, "response"@) matches Some(r) && crate::json::field(
                r,
                "error"@,
            ) is Some
        },
{
}

/// A message is taken for a limit only where its text has one of the words for limits in it.
pub proof fn limits_need_a_word_for_them(lower: Seq<char>, doc: Option<JsonView>)
    ensures
        limit_hit(lower, doc) ==> {
            ||| crate::text::occurs(lower, "rate_limit"@)
            ||| crate::text::occurs(lower, "rate limit"@)
            ||| crate::text::occurs(lower, "usage_limit"@)
            ||| crate::text::occurs(lower, "usage limit"@)
            ||| crate::text::occurs(lower, "too many requests"@)
            ||| crate::text::occurs(lower, "insufficient_quota"@)
            ||| crate::text::occurs(lower, "billing_hard_limit"@)
            ||| crate::text::occurs(lower, "tokens per min"@)
            ||| crate::text::occurs(lower, "requests per min"@)
        },
{
}

/// Each of these words is a limit in a message of the type of an error, and in one without a type
/// that gives an error.
pub proof fn words_for_a_limit_in_an_error(lower: Seq<char>, doc: JsonView, word: Seq<char>)
    requires
        crate::text::occurs(lower, word),
        word == "rate_limit"@ || word == "rate limit"@ || word == "usage_limit"@ || word
            == "usage limit"@ || word == "too many requests"@ || word == "insufficient_quota"@
            || word == "billing_hard_limit"@ || word == "tokens per min"@ || word
            == "requests per min"@,
    ensures
        crate::json::field(doc, "type"@) == Some(JsonView::Str("response.failed"@)) ==> limit_hit(
            lower,
            Some(doc),
        ),
        crate::json::field(doc, "type"@) == Some(JsonView::Str("error"@)) ==> limit_hit(
            lower,
            Some(doc),
        ),
        crate::json::field(doc, "type"@) is None && (crate::json::field(doc, "error"@) matches Some(
            e,
        ) && e != JsonView::Null) ==> limit_hit(lower, Some(doc)),
        crate::json::field(doc, "type"@) is None && (crate::json::field(
            doc,
            "response"@,
        ) matches Some(r) && (crate::json::field(r, "error"@) matches Some(e) && e
            != JsonView::Null)) ==> limit_hit(lower, Some(doc)),
{
}

/// A text that is no document is taken for a limit exactly where it says so outright.
pub proof fn plain_texts_say_it_outright(lower: Seq<char>)
    ensures
        limit_hit(lower, None) <==> {
            ||| crate::text::occurs(lower, "hit your usage limit"@)
            ||| crate::text::occurs(lower, "rate limit reached"@)
            ||| crate::text::occurs(lower, "too many requests"@)
        },
        !ban_told(lower, None),
{
    reveal_strlit("hit your usage limit");
    reveal_strlit("usage limit");
    reveal_strlit("rate limit reached");
    reveal_strlit("rate limit");
    assert("hit your usage limit"@.subrange(9, 20) =~= "usage limit"@);
    assert("rate limit reached"@.subrange(0, 10) =~= "rate limit"@);
    assert(crate::text::stands_at("hit your usage limit"@, "usage limit"@, 9));
    assert(crate::text::stands_at("rate limit reached"@, "rate limit"@, 0));
    if crate::text::occurs(lower, "hit your usage limit"@) {
        lemma_part_of_a_part(lower, "hit your usage limit"@, "usage limit"@, 9);
    }
    if crate::text::occurs(lower, "rate limit reached"@) {
        lemma_part_of_a_part(lower, "rate limit reached"@, "rate limit"@, 0);
    }
}

/// A message whose text has no word for a ban in it bans nobody: every account stays marked as it
/// was, and there is no notice of a ban.
pub proof fn messages_without_the_word_ban_nobody(
    s0: AccountStore,
    text: String,
    now: int,
    s1: AccountStore,
    out: BridgeStep,
)
    requires
        bridged(s0, SocketMessage::Text(text), now, s1, out),
        !crate::text::occurs(crate::text::lowered(text@), "deactivated"@),
        !crate::text::occurs(crate::text::lowered(text@), "banned"@),
        !crate::text::occurs(crate::text::lowered(text@), "suspended"@),
    ensures
        out.ban is None,
        out.switch matches Some(w) ==> w.1 != SwitchReason::BannedDetected,
        s1.accounts@.len() == s0.accounts@.len(),
        forall|i: int|
            0 <= i < s0.accounts@.len() ==> (#[trigger] s1.accounts@[i]).is_banned
                == s0.accounts@[i].is_banned,
{
    bans_need_a_word_for_them(crate::text::lowered(text@), document(text@));
    if let Some(c) = s0.current {
        crate::account::lemma_place_from(s0.accounts@, c@, 0);
    }
}

/// What a message of the server does to the accounts: at a limit the active one has nothing left of
/// its five hours, at a ban it is marked as banned, and otherwise, as for every other account,
/// nothing changes. Which account is active is not changed here.
pub proof fn what_messages_do_to_accounts(
    s0: AccountStore,
    message: SocketMessage,
    now: int,
    s1: AccountStore,
    out: BridgeStep,
    i: int,
)
    requires
        bridged(s0, message, now, s1, out),
        crate::account::distinct_ids(s0.accounts@),
        0 <= i < s0.accounts@.len(),
    ensures
        s1.accounts@.len() == s0.accounts@.len(),
        s1.current == s0.current,
        s1.settings == s0.settings,
        !(s0.current matches Some(c) && c@ == s0.accounts@[i].id@) ==> s1.accounts@[i]
            == s0.accounts@[i],
        (s0.current matches Some(c) && c@ == s0.accounts@[i].id@) ==> {
            &&& message_limits(message) ==> {
                &&& s1.accounts@[i].is_banned == s0.accounts@[i].is_banned
                &&& s0.accounts@[i].cached_quota is Some ==> (
                s1.accounts@[i].cached_quota matches Some(q) && q.five_hour_left == 0
                    && q.weekly_left == s0.accounts@[i].cached_quota->0.weekly_left)
                &&& out.save == Persist::BestEffort
            }
            &&& !message_limits(message) && message_bans(message) ==> {
                &&& s1.accounts@[i] == Account { is_banned: true, ..s0.accounts@[i] }
                &&& out.save == Persist::BestEffort
            }
            &&& !message_limits(message) && !message_bans(message) ==> s1.accounts@[i]
                == s0.accounts@[i]
        },
{
    if let Some(c) = s0.current {
        crate::account::lemma_place_from(s0.accounts@, c@, 0);
        let p = crate::account::place_from(s0.accounts@, c@, 0);
        if p < i {
            assert(s0.accounts@[p].id@ != s0.accounts@[i].id@);
        }
    }
}

/// The connection is broken off at a limit, at a ban and at a close, and at nothing else; only a
/// limit or a ban leads to a switch, each with its reason, and never to the active account.
pub proof fn when_the_bridge_breaks_off(
    s0: AccountStore,
    message: SocketMessage,
    now: int,
    s1: AccountStore,
    out: BridgeStep,
)
    requires
        bridged(s0, message, now, s1, out),
    ensures
        out.stop <==> message_limits(message) || message_bans(message) || message is Close,
        out.switch matches Some(w) ==> {
            &&& message_limits(message) ==> w.1 == SwitchReason::WebSocketRateLimit
            &&& !message_limits(message) ==> message_bans(message) && w.1
                == SwitchReason::BannedDetected
            &&& s0.current matches Some(c) ==> w.0@ != c@
        },
        message !is Text ==> out.switch is None && out.ban is None && s1.accounts@ == s0.accounts@,
{
    if let Some(w) = out.switch {
        let reason = w.1;
        let pick = choose|pick: PickResult|
            #[trigger] crate::selection::picked(s1, now, pick) && match pick {
                PickResult::Found { id, .. } => out.switch == Some((id, reason)),
                PickResult::Exhausted { .. } => out.switch is None,
            };
        crate::selection::ranking_is_of_accounts(s1, now, 0);
    }
}

// ---------------------------------------------------------------------------
// What a connection comes to
// ---------------------------------------------------------------------------

/// A failed connection is a refusal where its message names one of the two statuses or says so in
/// words.
pub proof fn refusals_are_told_by_their_words(lower: Seq<char>)
    ensures
        auth_failure(lower) <==> {
            ||| crate::text::occurs(lower, "401"@)
            ||| crate::text::occurs(lower, "403"@)
            ||| crate::text::occurs(lower, "unauthorized"@)
            ||| crate::text::occurs(lower, "forbidden"@)
        },
{
}

/// No more than three candidates are asked for their quota, and no more than three accounts are
/// switched to after a refusal.
pub proof fn three_tries_and_no_more(
    k0: Socket,
    s0: AccountStore,
    event: SocketEvent,
    now: Timestamp,
    k: Socket,
    s1: AccountStore,
    out: SocketStep,
)
    requires
        socket_step(k0, s0, event, now, k, s1, out),
    ensures
        out.next is Fetch ==> k.attempt == k0.attempt + 1 && k.attempt <= 2,
        out.next is Switch && k.phase == SocketPhase::Switching ==> k.attempt <= 2 && (k0.phase
            == SocketPhase::Connecting || k.attempt == k0.attempt + 1),
        k0.phase == SocketPhase::Retrying && (event matches SocketEvent::Connected(r) && r is Err)
            && k0.attempt < 2 && (forall|pick: PickResult|
            #[trigger] crate::selection::picked(s1, now.secs as int, pick) ==> pick is Found)
            ==> out.next is Switch,
{
}

/// The client is told to switch protocols exactly when a connection upstream was made.
pub proof fn upgrades_follow_connections(
    k0: Socket,
    s0: AccountStore,
    event: SocketEvent,
    now: Timestamp,
    k: Socket,
    s1: AccountStore,
    out: SocketStep,
)
    requires
        socket_step(k0, s0, event, now, k, s1, out),
    ensures
        out.next is Upgrade <==> (event matches SocketEvent::Connected(r) && r is Ok) && (k0.phase
            == SocketPhase::Connecting || k0.phase == SocketPhase::Retrying),
        out.next is Upgrade ==> k.phase == SocketPhase::Done && s1.accounts@ == s0.accounts@,
{
}

/// A connection is made with the token of the account that has become active: that of the candidate
/// once the switch to it has succeeded, and else the one at hand.
pub proof fn which_token_a_connection_uses(
    k0: Socket,
    s0: AccountStore,
    event: SocketEvent,
    now: Timestamp,
    k: Socket,
    s1: AccountStore,
    out: SocketStep,
)
    requires
        socket_step(k0, s0, event, now, k, s1, out),
    ensures
        out.next matches SocketAction::Connect { token } ==> {
            &&& (event matches SocketEvent::Switched(r) && r is Ok) ==> token@
                == k0.candidate_token@
            &&& !(event matches SocketEvent::Switched(r) && r is Ok) ==> token@ == k0.token@
        },
        k0.phase == SocketPhase::PreSwitching && event is Switched ==> out.next is Connect,
        k0.phase == SocketPhase::Switching && (event matches SocketEvent::Switched(r) && r is Ok)
            ==> out.next is Connect,
{
}

/// What the report of a candidate leaves: a candidate with something left of both windows is
/// switched to and keeps what was reported; of any other nothing is left of the five hours.
pub proof fn reports_decide_on_candidates(
    a: Account,
    report: Result<UsageDisplay, String>,
    now: Timestamp,
)
    ensures
        ({
            let b = candidate_checked(a, report, now);
            &&& report matches Ok(u) ==> {
                &&& b.cached_quota matches Some(q) && q.weekly_left == u.weekly_left
                    && q.updated_at == now && q.plan_type@ == u.plan_type@
                    && q.five_hour_reset_at == u.five_hour_reset_at
                &&& u.five_hour_left > 0 && u.weekly_left > 0 ==> b.cached_quota->0.five_hour_left
                    == u.five_hour_left
                &&& u.five_hour_left <= 0 || u.weekly_left <= 0
                    ==> b.cached_quota->0.five_hour_left == 0
            }
            &&& report is Err && a.cached_quota is Some ==> b.cached_quota->0.five_hour_left == 0
                && b.cached_quota->0.weekly_left == a.cached_quota->0.weekly_left
            &&& report is Err && a.cached_quota is None ==> b.cached_quota is None
            &&& b == Account { cached_quota: b.cached_quota, ..a }
        }),
{
}

/// After a refusal the active account has nothing left of its five hours and others are tried; any
/// other failure is told to the client at once and changes nobody.
pub proof fn what_failed_connections_do(
    k0: Socket,
    s0: AccountStore,
    message: String,
    now: Timestamp,
    k: Socket,
    s1: AccountStore,
    out: SocketStep,
)
    requires
        k0.phase == SocketPhase::Connecting,
        socket_step(
            k0,
            s0,
            SocketEvent::Connected(Err(SocketError::Connect(message))),
            now,
            k,
            s1,
            out,
        ),
    ensures
        crate::text::occurs(crate::text::lowered(message@), "401"@) || crate::text::occurs(
            crate::text::lowered(message@),
            "403"@,
        ) ==> {
            &&& out.next is Switch || out.next is Reply
            &&& (s0.current_account() matches Some(a) && a.cached_quota is Some) ==> (
            s1.current_account() matches Some(b) && (b.cached_quota matches Some(q)
                && q.five_hour_left == 0))
        },
        !auth_failure(crate::text::lowered(message@)) ==> {
            &&& s1.accounts@ == s0.accounts@
            &&& k.phase == SocketPhase::Done
            &&& out.next matches SocketAction::Reply(r) && r.status == 502 && r.body@
                == crate::proxy::error_body(
                502,
                "WebSocket upstream connection failed: "@ + message@,
            )
        },
{
    if let Some(c) = s0.current {
        crate::account::lemma_place_from(s0.accounts@, c@, 0);
        crate::account::lemma_place_from(s1.accounts@, c@, 0);
        let p = crate::account::place_from(s0.accounts@, c@, 0);
        let q = crate::account::place_from(s1.accounts@, c@, 0);
        if q < p {
            assert(s1.accounts@[q].id@ == s0.accounts@[q].id@);
        }
        if p < q {
            assert(s1.accounts@[p].id@ == s0.accounts@[p].id@);
        }
    }
}

/// A connection begins with the token of the active account. Where that account can carry it, it is
/// made at once; where there is no token, the client gets an error and nothing is connected.
pub proof fn how_connections_begin(
    s0: AccountStore,
    disk: Option<DiskAuth>,
    now: int,
    s1: AccountStore,
    k: Socket,
    out: SocketStep,
)
    requires
        socket_begun(s0, disk, now, s1, k, out),
    ensures
        crate::proxy::current_token(s1) matches Ok(t) ==> {
            &&& k.token@ == t.0
            &&& !crate::selection::spent(s1) ==> (out.next matches SocketAction::Connect { token }
                && token@ == t.0)
            &&& crate::selection::spent(s1) ==> out.next is Fetch || out.next is Connect
        },
        crate::proxy::current_token(s1) matches Err(e) ==> (out.next matches SocketAction::Reply(r)
            && r.status == 503),
        s1.current == s0.current,
        s1.settings == s0.settings,
{
}

/// The answer that tells the client to switch protocols says so, answers its key, and holds the
/// headers of the server but for those of the handshake and of the length of a body.
pub proof fn what_an_upgrade_answers(
    accept: Seq<char>,
    upstream: Seq<crate::proxy::HeaderView>,
)
    ensures
        ({
            let list = upgrade_list(accept, upstream);
            &&& list[0] == ("upgrade"@, crate::proxy::bytes_of("websocket"@))
            &&& list[1] == ("connection"@, crate::proxy::bytes_of("Upgrade"@))
            &&& list[2] == ("sec-websocket-accept"@, crate::proxy::bytes_of(accept))
            &&& list.skip(3) == upstream.filter(
                |h: crate::proxy::HeaderView|
                    {
                        let name = crate::text::ascii_lowered(h.0);
                        &&& name != "upgrade"@
                        &&& name != "connection"@
                        &&& name != "sec-websocket-accept"@
                        &&& name != "sec-websocket-extensions"@
                        &&& name != "content-length"@
                        &&& name != "transfer-encoding"@
                    },
            )
        }),
{
    crate::proxy::socket_answers_keep_their_headers(upstream);
    let list = upgrade_list(accept, upstream);
    assert(list.skip(3) =~= crate::proxy::handed_on(HeaderWay::SocketAnswer, upstream));
}


/// The store is written only where a candidate was asked for its quota or the active account was
/// refused; an account changes in no other step, and the active one stays the same.
pub proof fn connections_write_changes_only(
    k0: Socket,
    s0: AccountStore,
    event: SocketEvent,
    now: Timestamp,
    k: Socket,
    s1: AccountStore,
    out: SocketStep,
)
    requires
        socket_step(k0, s0, event, now, k, s1, out),
    ensures
        s1.current == s0.current,
        s1.settings == s0.settings,
        s1.accounts@ != s0.accounts@ ==> out.save == Persist::BestEffort,
        out.save != Persist::No ==> (k0.phase == SocketPhase::Checking && event is Fetched) || (
        k0.phase == SocketPhase::Connecting && (event matches SocketEvent::Connected(x) && x is Err)
            && s0.current_account() is Some),
        out.next is Wait ==> k == k0 && s1.accounts@ == s0.accounts@ && out.save == Persist::No,
{
    crate::account::lemma_place_from(s0.accounts@, k0.id@, 0);
    if s0.current_account() is None && k0.phase == SocketPhase::Connecting {
        assert(s1.accounts@ =~= s0.accounts@);
    }
    if crate::account::place(s0.accounts@, k0.id@) is None && k0.phase == SocketPhase::Checking {
        assert(s1.accounts@ =~= s0.accounts@);
    }
}


/// A candidate whose report shows something left of both windows is switched to; any other is
/// passed over for the next one, or for a connection with what is at hand.
pub proof fn candidates_with_something_left_are_taken(
    k0: Socket,
    s0: AccountStore,
    report: Result<UsageDisplay, String>,
    now: Timestamp,
    k: Socket,
    s1: AccountStore,
    out: SocketStep,
)
    requires
        socket_step(k0, s0, SocketEvent::Fetched(report), now, k, s1, out),
        k0.phase == SocketPhase::Checking,
    ensures
        k.token == k0.token,
        (report matches Ok(u) && u.five_hour_left >= 1 && u.weekly_left >= 1) ==> k.phase
            == SocketPhase::PreSwitching && k.candidate_token == k0.candidate_token && (
        out.next matches SocketAction::Switch { id } && id == k0.id),
        (report is Err || (report matches Ok(u) && (u.five_hour_left <= 0 || u.weekly_left <= 0)))
            ==> (k.phase == SocketPhase::Checking && out.next is Fetch && k.attempt == k0.attempt
            + 1) || (k.phase == SocketPhase::Connecting && (
        out.next matches SocketAction::Connect { token } && token@ == k0.token@)),
{
}

/// The candidate that is asked for its quota is the one that was picked, with the tokens that it
/// has; it is remembered so that its own report decides on it.
pub proof fn picked_candidates_are_remembered(
    n: int,
    store: AccountStore,
    pick: PickResult,
    k: Socket,
    next: SocketAction,
)
    requires
        checks_pick(n, store, pick, k, next) || reconnects_pick(n, pick, k, next),
        pick is Found,
    ensures
        k.id == pick->id,
        k.candidate_token == pick->token,
        k.attempt == n,
        next matches SocketAction::Fetch { access_token, allow_local_refresh, .. } ==> access_token
            == pick->token && !allow_local_refresh,
        next matches SocketAction::Switch { id } ==> id == pick->id,
        next is Fetch || next is Switch,
{
}

} // verus!
