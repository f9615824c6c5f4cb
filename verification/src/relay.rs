//! Handing a request on: the answers that make the proxy refresh a token, mark an account, switch
//! to another one and try again.
use crate::account::{copy_opt, Account, AccountStore, DiskAuth, TokenResponse};
use crate::clock::Timestamp;
use crate::proxy::{
    error_response, get_current_token, get_upstream, mark_current_banned, mark_current_logged_out,
    mark_current_quota_depleted, upstream_headers, BanNotice, Header, HeaderWay, PlainReply,
};
use crate::quota::Persist;
use crate::selection::{pick_next_account_at, PickResult};
use crate::signals::{is_ban_reply, is_logout_reply};
use crate::text::{concat2, from_utf8_lossy, to_lowercase};
use vstd::prelude::*;

verus! {

/// How often another account is tried for one request.
pub const MAX_429_RETRIES: usize = 5;

/// Where a request stands.
#[derive(Debug, Clone, Copy, PartialEq, Eq, Structural)]
pub enum RelayPhase {
    /// It is on its way for the first time.
    First,
    /// The body of a refusal is being read.
    Refusal,
    /// A refresh is on its way.
    Refreshing,
    /// It is on its way with a renewed token.
    Renewed,
    /// The right to switch accounts is being claimed.
    Claiming,
    /// Another request is switching accounts, and is being waited for.
    Pausing,
    /// It is on its way with the token that the other request has left.
    Waited,
    /// Another account is being made active.
    Switching,
    /// It is on its way with the token of another account.
    Retried,
    /// There is nothing more to do.
    Done,
}

/// A request that is handed on.
#[derive(Debug)]
pub struct Relay {
    pub phase: RelayPhase,
    /// The status of the first answer.
    pub status: u16,
    /// How many accounts were tried before the present one.
    pub attempt: usize,
    /// The right to switch accounts is held.
    pub claimed: bool,
    /// The token of the account that is being switched to.
    pub token: String,
}

/// What has happened to a request.
#[derive(Debug)]
pub enum RelayEvent {
    /// The request was answered with a status, or failed.
    Answered(Result<u16, String>),
    /// The body of a refusal was read; a failure to read it reads as nothing.
    RefusalRead(Vec<u8>),
    /// A refresh came back.
    Refreshed(Result<TokenResponse, String>),
    /// The right to switch accounts was claimed, or somebody else holds it.
    Claimed(bool),
    /// The pause is over, and this login document stands on disk.
    Paused(Option<DiskAuth>),
    /// The switch is over.
    Switched(Result<(), String>),
}

/// What is to be done for a request.
#[derive(Debug)]
pub enum RelayAction {
    /// Send the request with this token.
    Send { token: String },
    /// Read the body of the refusal.
    ReadRefusal,
    /// Exchange this refresh token for new tokens.
    Refresh { refresh_token: String },
    /// Claim the right to switch accounts.
    Claim,
    /// Wait for half a second, then read the login document on disk.
    Pause,
    /// Make this account the active one.
    Switch { id: String },
    /// Stream the latest answer to the client; where asked for, see in the background whether the
    /// active account should be left.
    Stream { preempt: bool },
    /// Answer with the status and the body of the first answer.
    Buffered { status: u16 },
    /// Answer with this.
    Reply(PlainReply),
    /// Nothing: the event does not belong to where the request stands.
    Wait,
}

/// A step of a request: what to do besides, and what to do next.
#[derive(Debug)]
pub struct RelayStep {
    pub save: Persist,
    /// The active account was found to be banned.
    pub ban: Option<BanNotice>,
    /// No account has quota left; this is when the first window is reset, where that is known.
    pub exhausted: Option<Option<i64>>,
    /// Give the right to switch accounts back.
    pub release: bool,
    pub next: RelayAction,
}

// ---------------------------------------------------------------------------
// What a step does
// ---------------------------------------------------------------------------

/// Nothing but what comes next is to be done.
pub open spec fn quiet(out: RelayStep) -> bool {
    out.save == Persist::No && out.ban is None && out.exhausted is None && !out.release
}

/// A best effort write where there is an active account, and none where there is not.
pub open spec fn save_current(store: AccountStore) -> Persist {
    if store.current_account() is Some {
        Persist::BestEffort
    } else {
        Persist::No
    }
}

/// The request ends with the first answer that it got.
pub open spec fn gives_up(r: Relay, out: RelayStep) -> bool {
    &&& r.phase == RelayPhase::Done
    &&& out.release == r.claimed
    &&& out.next matches RelayAction::Buffered { status } && status == r.status
}

/// The request is sent with a token.
pub open spec fn sends(r: Relay, phase: RelayPhase, out: RelayStep, token: Seq<char>) -> bool {
    &&& r.phase == phase
    &&& !out.release
    &&& out.next matches RelayAction::Send { token: t } && t@ == token
}

/// The latest answer is streamed to the client.
pub open spec fn streams(r: Relay, out: RelayStep, preempt: bool) -> bool {
    &&& r.phase == RelayPhase::Done
    &&& out.release == r.claimed
    &&& out.next matches RelayAction::Stream { preempt: p } && p == preempt
}

/// What follows a pick.
pub open spec fn tries_pick(n: int, pick: PickResult, r: Relay, out: RelayStep) -> bool {
    match pick {
        PickResult::Found { id, token } => {
            &&& r.phase == RelayPhase::Switching
            &&& r.attempt == n
            &&& r.token == token
            &&& !out.release
            &&& out.exhausted is None
            &&& out.next matches RelayAction::Switch { id: i } && i == id
        },
        PickResult::Exhausted { earliest_reset } => gives_up(r, out) && out.exhausted == Some(
            earliest_reset,
        ),
    }
}

/// The next account is tried, after `n` others, as long as there is one and there were not too
/// many.
pub open spec fn tries_next(
    n: int,
    store: AccountStore,
    now: int,
    r: Relay,
    out: RelayStep,
) -> bool {
    if n >= MAX_429_RETRIES {
        gives_up(r, out) && out.exhausted is None
    } else {
        exists|pick: PickResult|
            #[trigger] crate::selection::picked(store, now, pick) && tries_pick(n, pick, r, out)
    }
}

/// What follows the first answer.
pub open spec fn first_answer(
    s0: AccountStore,
    status: u16,
    r: Relay,
    s1: AccountStore,
    out: RelayStep,
) -> bool {
    &&& r.status == status
    &&& if crate::usage::refused(status) {
        &&& crate::account::unchanged(s0, s1)
        &&& quiet(out)
        &&& r.phase == RelayPhase::Refusal
        &&& out.next is ReadRefusal
    } else if status == 429 {
        &&& crate::account::current_changed(s0, s1, |a: Account, b: Account| b == a.depleted())
        &&& out.save == save_current(s0)
        &&& out.ban is None && out.exhausted is None && !out.release
        &&& r.phase == RelayPhase::Claiming
        &&& out.next is Claim
    } else {
        &&& crate::account::unchanged(s0, s1)
        &&& out.save == Persist::No && out.ban is None && out.exhausted is None
        &&& streams(r, out, true)
    }
}

/// What follows when the body of a refusal was read: a ban is noted and another account tried;
/// else the token is refreshed, where that is possible.
pub open spec fn refusal_read(
    s0: AccountStore,
    body: Seq<u8>,
    now: int,
    r: Relay,
    s1: AccountStore,
    out: RelayStep,
) -> bool {
    if crate::signals::tells_ban(crate::text::lowered(crate::text::lossy_text(body))) {
        &&& crate::proxy::ban_noted(s0, s1, out.ban)
        &&& out.save == save_current(s0)
        &&& tries_next(0, s1, now, r, out)
    } else {
        &&& crate::account::unchanged(s0, s1)
        &&& out.save == Persist::No && out.ban is None && out.exhausted is None
        &&& match s0.current_account() {
            Some(a) => match a.refresh_token {
                Some(rt) => {
                    &&& r.phase == RelayPhase::Refreshing
                    &&& !out.release
                    &&& out.next matches RelayAction::Refresh { refresh_token } && refresh_token
                        == rt
                },
                None => gives_up(r, out),
            },
            None => gives_up(r, out),
        }
    }
}

/// What follows when a refresh came back: its tokens go into the active account, or the account is
/// marked as logged out and another one tried.
pub open spec fn refresh_back(
    s0: AccountStore,
    result: Result<TokenResponse, String>,
    now: Timestamp,
    r: Relay,
    s1: AccountStore,
    out: RelayStep,
) -> bool {
    &&& out.ban is None
    &&& match result {
        Ok(t) => {
            &&& crate::account::current_changed(
                s0,
                s1,
                |a: Account, b: Account| crate::account::tokens_applied(a, b, t, now),
            )
            &&& out.save == save_current(s0) && out.exhausted is None
            &&& sends(r, RelayPhase::Renewed, out, t.access_token@)
        },
        Err(e) => if crate::signals::tells_logout(crate::text::lowered(e@)) {
            &&& crate::account::current_changed(
                s0,
                s1,
                |a: Account, b: Account| b == a.flagged(None, None, Some(true)),
            )
            &&& out.save == save_current(s0)
            &&& tries_next(0, s1, now.secs as int, r, out)
        } else {
            &&& crate::account::unchanged(s0, s1)
            &&& out.save == Persist::No && out.exhausted is None
            &&& gives_up(r, out)
        },
    }
}

/// What follows the answer to a request that was sent again with a token of the same account.
pub open spec fn second_answer(
    s0: AccountStore,
    result: Result<u16, String>,
    r: Relay,
    s1: AccountStore,
    out: RelayStep,
) -> bool {
    &&& crate::account::unchanged(s0, s1)
    &&& out.save == Persist::No && out.ban is None && out.exhausted is None
    &&& if result is Ok {
        streams(r, out, false)
    } else {
        gives_up(r, out)
    }
}

/// What follows the answer to a request that was sent with the token of another account: a quota
/// that is used up is noted and the next account tried.
pub open spec fn retry_answer(
    s0: AccountStore,
    attempt: int,
    result: Result<u16, String>,
    now: int,
    r: Relay,
    s1: AccountStore,
    out: RelayStep,
) -> bool {
    &&& out.ban is None
    &&& match result {
        Ok(status) => if status == 429 {
            &&& crate::account::current_changed(s0, s1, |a: Account, b: Account| b == a.depleted())
            &&& out.save == save_current(s0)
            &&& tries_next(attempt + 1, s1, now, r, out)
        } else {
            &&& crate::account::unchanged(s0, s1)
            &&& out.save == Persist::No && out.exhausted is None
            &&& streams(r, out, false)
        },
        Err(_) => {
            &&& crate::account::unchanged(s0, s1)
            &&& out.save == Persist::No
            &&& tries_next(attempt + 1, s1, now, r, out)
        },
    }
}

/// What follows when the pause is over: the request is sent with the token that is there now.
pub open spec fn pause_over(
    s0: AccountStore,
    disk: Option<DiskAuth>,
    r: Relay,
    s1: AccountStore,
    out: RelayStep,
) -> bool {
    &&& crate::proxy::disk_taken(s0, s1, disk)
    &&& out.save == if crate::proxy::disk_is_current(s0, disk) {
        Persist::BestEffort
    } else {
        Persist::No
    }
    &&& out.ban is None && out.exhausted is None
    &&& match crate::proxy::current_token(s1) {
        Ok(t) => sends(r, RelayPhase::Waited, out, t.0),
        Err(_) => gives_up(r, out),
    }
}

/// One step of a request.
pub open spec fn relay_step(
    r0: Relay,
    s0: AccountStore,
    event: RelayEvent,
    now: Timestamp,
    r: Relay,
    s1: AccountStore,
    out: RelayStep,
) -> bool {
    &&& match (r0.phase, event) {
        (RelayPhase::First, RelayEvent::Answered(Ok(_))) => true,
        _ => r.status == r0.status,
    }
    &&& match (r0.phase, event) {
        (RelayPhase::Claiming, RelayEvent::Claimed(true)) => r.claimed,
        _ => r.claimed == r0.claimed,
    }
    &&& match (r0.phase, event) {
        (RelayPhase::First, RelayEvent::Answered(Err(e))) => {
            &&& crate::account::unchanged(s0, s1)
            &&& out.save == Persist::No && out.ban is None && out.exhausted is None
            &&& r.phase == RelayPhase::Done
            &&& out.release == r.claimed
            &&& out.next matches RelayAction::Reply(reply) && crate::proxy::is_error(
                reply,
                502,
                "Upstream connection failed: Forward request failed: "@ + e@,
            )
        },
        (RelayPhase::First, RelayEvent::Answered(Ok(status))) => first_answer(
            s0,
            status,
            r,
            s1,
            out,
        ),
        (RelayPhase::Refusal, RelayEvent::RefusalRead(body)) => refusal_read(
            s0,
            body@,
            now.secs as int,
            r,
            s1,
            out,
        ),
        (RelayPhase::Refreshing, RelayEvent::Refreshed(result)) => refresh_back(
            s0,
            result,
            now,
            r,
            s1,
            out,
        ),
        (RelayPhase::Renewed, RelayEvent::Answered(result)) => second_answer(
            s0,
            result,
            r,
            s1,
            out,
        ),
        (RelayPhase::Waited, RelayEvent::Answered(result)) => second_answer(s0, result, r, s1, out),
        (RelayPhase::Claiming, RelayEvent::Claimed(claimed)) => {
            &&& crate::account::unchanged(s0, s1)
            &&& out.save == Persist::No && out.ban is None
            &&& if claimed {
                tries_next(0, s1, now.secs as int, r, out)
            } else {
                r.phase == RelayPhase::Pausing && out.next is Pause && quiet(out)
            }
        },
        (RelayPhase::Pausing, RelayEvent::Paused(disk)) => pause_over(s0, disk, r, s1, out),
        (RelayPhase::Switching, RelayEvent::Switched(result)) => {
            &&& crate::account::unchanged(s0, s1)
            &&& out.save == Persist::No && out.ban is None
            &&& if result is Ok {
                out.exhausted is None && r.attempt == r0.attempt && sends(
                    r,
                    RelayPhase::Retried,
                    out,
                    r0.token@,
                )
            } else {
                tries_next(r0.attempt + 1, s1, now.secs as int, r, out)
            }
        },
        (RelayPhase::Retried, RelayEvent::Answered(result)) => retry_answer(
            s0,
            r0.attempt as int,
            result,
            now.secs as int,
            r,
            s1,
            out,
        ),
        _ => {
            &&& crate::account::unchanged(s0, s1)
            &&& r == r0
            &&& quiet(out)
            &&& out.next is Wait
        },
    }
}

// ---------------------------------------------------------------------------
// The request
// ---------------------------------------------------------------------------

fn save_if(found: bool) -> (save: Persist)
    ensures
        save == if found {
            Persist::BestEffort
        } else {
            Persist::No
        },
{
    if found {
        Persist::BestEffort
    } else {
        Persist::No
    }
}

impl Relay {
    fn give_up(&mut self, save: Persist) -> (out: RelayStep)
        ensures
            final(self).status == old(self).status,
            final(self).claimed == old(self).claimed,
            gives_up(*final(self), out),
            out.save == save,
            out.ban is None,
            out.exhausted is None,
    {
        self.phase = RelayPhase::Done;
        RelayStep {
            save,
            ban: None,
            exhausted: None,
            release: self.claimed,
            next: RelayAction::Buffered { status: self.status },
        }
    }

    fn stream(&mut self, preempt: bool) -> (out: RelayStep)
        ensures
            final(self).status == old(self).status,
            final(self).claimed == old(self).claimed,
            streams(*final(self), out, preempt),
            out.save == Persist::No,
            out.ban is None,
            out.exhausted is None,
    {
        self.phase = RelayPhase::Done;
        RelayStep {
            save: Persist::No,
            ban: None,
            exhausted: None,
            release: self.claimed,
            next: RelayAction::Stream { preempt },
        }
    }

    fn go_on(&mut self, phase: RelayPhase, save: Persist, next: RelayAction) -> (out: RelayStep)
        ensures
            final(self).status == old(self).status,
            final(self).claimed == old(self).claimed,
            final(self).attempt == old(self).attempt,
            final(self).token == old(self).token,
            final(self).phase == phase,
            out == (RelayStep { save, ban: None, exhausted: None, release: false, next }),
    {
        self.phase = phase;
        RelayStep { save, ban: None, exhausted: None, release: false, next }
    }

    fn try_next(
        &mut self,
        n: usize,
        store: &AccountStore,
        now: i64,
        save: Persist,
        ban: Option<BanNotice>,
    ) -> (out: RelayStep)
        ensures
            final(self).status == old(self).status,
            final(self).claimed == old(self).claimed,
            tries_next(n as int, *store, now as int, *final(self), out),
            out.save == save,
            out.ban == ban,
    {
        if n >= MAX_429_RETRIES {
            let mut out: RelayStep = self.give_up(save);
            out.ban = ban;
            return out;
        }
        let pick: PickResult = pick_next_account_at(store, now);
        let ghost picked = pick;
        match pick {
            PickResult::Found { id, token } => {
                self.attempt = n;
                self.token = token;
                let mut out: RelayStep = self.go_on(
                    RelayPhase::Switching,
                    save,
                    RelayAction::Switch { id },
                );
                out.ban = ban;
                assert(tries_pick(n as int, picked, *self, out));
                out
            },
            PickResult::Exhausted { earliest_reset } => {
                let mut out: RelayStep = self.give_up(save);
                out.exhausted = Some(earliest_reset);
                out.ban = ban;
                assert(tries_pick(n as int, picked, *self, out));
                out
            },
        }
    }

    /// How many accounts have been tried, the present one among them.
    fn tried(&self) -> (n: usize)
        ensures
            n == self.attempt + 1 || (n >= MAX_429_RETRIES && self.attempt + 1 >= MAX_429_RETRIES),
    {
        if self.attempt >= MAX_429_RETRIES {
            MAX_429_RETRIES
        } else {
            self.attempt + 1
        }
    }

    fn on_refusal(&mut self, store: &mut AccountStore, body: &Vec<u8>, now: i64) -> (out: RelayStep)
        ensures
            final(self).status == old(self).status,
            final(self).claimed == old(self).claimed,
            refusal_read(*old(store), body@, now as int, *final(self), *final(store), out),
    {
        let text: String = from_utf8_lossy(body.as_slice());
        let lower: String = to_lowercase(text.as_str());
        if is_ban_reply(lower.as_str()) {
            let ban: Option<BanNotice> = mark_current_banned(store);
            let save: Persist = save_if(ban.is_some());
            return self.try_next(0, store, now, save, ban);
        }
        let refresh: Option<String> = match store.find_current() {
            Some(i) => copy_opt(&store.accounts[i].refresh_token),
            None => None,
        };
        match refresh {
            Some(refresh_token) => self.go_on(
                RelayPhase::Refreshing,
                Persist::No,
                RelayAction::Refresh { refresh_token },
            ),
            None => self.give_up(Persist::No),
        }
    }

    fn on_refreshed(
        &mut self,
        store: &mut AccountStore,
        result: Result<TokenResponse, String>,
        now: Timestamp,
    ) -> (out: RelayStep)
        requires
            now.in_calendar(),
        ensures
            final(self).status == old(self).status,
            final(self).claimed == old(self).claimed,
            refresh_back(*old(store), result, now, *final(self), *final(store), out),
    {
        match result {
            Ok(t) => {
                let found: bool = match copy_opt(&store.current) {
                    Some(id) => store.apply_tokens_to(id.as_str(), &t, now),
                    None => false,
                };
                self.go_on(
                    RelayPhase::Renewed,
                    save_if(found),
                    RelayAction::Send { token: t.access_token },
                )
            },
            Err(e) => {
                let lower: String = to_lowercase(e.as_str());
                if is_logout_reply(lower.as_str()) {
                    let found: bool = mark_current_logged_out(store);
                    self.try_next(0, store, now.secs, save_if(found), None)
                } else {
                    self.give_up(Persist::No)
                }
            },
        }
    }

    fn on_retry(&mut self, store: &mut AccountStore, result: Result<u16, String>, now: i64) -> (out:
        RelayStep)
        ensures
            final(self).status == old(self).status,
            final(self).claimed == old(self).claimed,
            retry_answer(
                *old(store),
                old(self).attempt as int,
                result,
                now as int,
                *final(self),
                *final(store),
                out,
            ),
    {
        let n: usize = self.tried();
        match result {
            Ok(status) => if status == 429 {
                let found: bool = mark_current_quota_depleted(store);
                self.try_next(n, store, now, save_if(found), None)
            } else {
                self.stream(false)
            },
            Err(_) => self.try_next(n, store, now, Persist::No, None),
        }
    }

    /// Takes the request one step on.
    pub fn step(&mut self, store: &mut AccountStore, event: RelayEvent, now: Timestamp) -> (out:
        RelayStep)
        requires
            now.in_calendar(),
        ensures
            relay_step(*old(self), *old(store), event, now, *final(self), *final(store), out),
    {
        match (self.phase, event) {
            (RelayPhase::First, RelayEvent::Answered(Err(e))) => {
                let message: String = concat2(
                    "Upstream connection failed: Forward request failed: ",
                    e.as_str(),
                );
                let release: bool = self.claimed;
                let mut out: RelayStep = self.go_on(
                    RelayPhase::Done,
                    Persist::No,
                    RelayAction::Reply(error_response(502, message.as_str())),
                );
                out.release = release;
                out
            },
            (RelayPhase::First, RelayEvent::Answered(Ok(status))) => {
                self.status = status;
                if status == 401 || status == 403 {
                    self.go_on(RelayPhase::Refusal, Persist::No, RelayAction::ReadRefusal)
                } else if status == 429 {
                    let found: bool = mark_current_quota_depleted(store);
                    self.go_on(RelayPhase::Claiming, save_if(found), RelayAction::Claim)
                } else {
                    self.stream(true)
                }
            },
            (RelayPhase::Refusal, RelayEvent::RefusalRead(body)) => {
                self.on_refusal(store, &body, now.secs)
            },
            (RelayPhase::Refreshing, RelayEvent::Refreshed(result)) => {
                self.on_refreshed(store, result, now)
            },
            (RelayPhase::Renewed, RelayEvent::Answered(result)) => {
                if result.is_ok() {
                    self.stream(false)
                } else {
                    self.give_up(Persist::No)
                }
            },
            (RelayPhase::Waited, RelayEvent::Answered(result)) => {
                if result.is_ok() {
                    self.stream(false)
                } else {
                    self.give_up(Persist::No)
                }
            },
            (RelayPhase::Claiming, RelayEvent::Claimed(claimed)) => {
                if claimed {
                    self.claimed = true;
                    self.try_next(0, store, now.secs, Persist::No, None)
                } else {
                    self.go_on(RelayPhase::Pausing, Persist::No, RelayAction::Pause)
                }
            },
            (RelayPhase::Pausing, RelayEvent::Paused(disk)) => {
                let token: (Result<(String, bool), String>, bool) = get_current_token(store, &disk);
                match token.0 {
                    Ok(t) => self.go_on(
                        RelayPhase::Waited,
                        save_if(token.1),
                        RelayAction::Send { token: t.0 },
                    ),
                    Err(_) => self.give_up(save_if(token.1)),
                }
            },
            (RelayPhase::Switching, RelayEvent::Switched(result)) => {
                if result.is_ok() {
                    let token: String = self.token.clone();
                    self.go_on(RelayPhase::Retried, Persist::No, RelayAction::Send { token })
                } else {
                    let n: usize = self.tried();
                    self.try_next(n, store, now.secs, Persist::No, None)
                }
            },
            (RelayPhase::Retried, RelayEvent::Answered(result)) => {
                self.on_retry(store, result, now.secs)
            },
            _ => RelayStep {
                save: Persist::No,
                ban: None,
                exhausted: None,
                release: false,
                next: RelayAction::Wait,
            },
        }
    }
}

/// A request as it goes upstream: where to, with which headers, and with which token for the first
/// time. On every further try the address and the headers stay the same.
#[derive(Debug)]
pub struct Outgoing {
    pub url: String,
    pub headers: Vec<Header>,
    pub token: String,
}

/// The request goes to the server that the token is for, with the headers of the client as far as
/// they are handed on.
pub open spec fn goes_out(
    o: Outgoing,
    token: (Seq<char>, bool),
    path: Seq<char>,
    headers: Seq<crate::proxy::HeaderView>,
) -> bool {
    let to = crate::proxy::upstream(token.1, path);
    &&& o.token@ == token.0
    &&& o.url@ == to.0
    &&& crate::proxy::header_list(o.headers@) == crate::proxy::with_header(
        crate::proxy::handed_on(HeaderWay::Request, headers),
        "host"@,
        crate::proxy::bytes_of(to.1),
    )
}

/// Makes a request ready for its way upstream, with the login document that stands on disk. Without
/// a token it is answered at once.
pub fn prepare_request(
    store: &mut AccountStore,
    disk: &Option<DiskAuth>,
    path_and_query: &str,
    headers: &Vec<Header>,
) -> (r: (Result<Outgoing, PlainReply>, Persist))
    ensures
        crate::proxy::disk_taken(*old(store), *final(store), *disk),
        r.1 == if crate::proxy::disk_is_current(*old(store), *disk) {
            Persist::BestEffort
        } else {
            Persist::No
        },
        match crate::proxy::current_token(*final(store)) {
            Ok(t) => r.0 matches Ok(o) && goes_out(
                o,
                t,
                path_and_query@,
                crate::proxy::header_list(headers@),
            ),
            Err(e) => r.0 matches Err(reply) && crate::proxy::is_error(reply, 503, e),
        },
{
    let (token, found) = get_current_token(store, disk);
    let outgoing: Result<Outgoing, PlainReply> = match token {
        Ok(t) => {
            let to: (String, String) = get_upstream(t.1, path_and_query);
            let base: Vec<Header> = upstream_headers(headers, to.1.as_str());
            Ok(Outgoing { url: to.0, headers: base, token: t.0 })
        },
        Err(e) => Err(error_response(503, e.as_str())),
    };
    (outgoing, save_if(found))
}

/// Starts a request, which is sent with the token of the active account.
pub fn handle_request(token: &str) -> (start: (Relay, RelayAction))
    ensures
        start.0.phase == RelayPhase::First,
        !start.0.claimed,
        start.0.attempt == 0,
        start.1 matches RelayAction::Send { token: t } && t@ == token@,
{
    (
        Relay {
            phase: RelayPhase::First,
            status: 0,
            attempt: 0,
            claimed: false,
            token: String::new(),
        },
        RelayAction::Send { token: token.to_owned() },
    )
}

/// The right to switch accounts is held from when it was claimed to the end of the request, and is
/// given back exactly then.
pub proof fn relay_gives_the_claim_back(
    r0: Relay,
    s0: AccountStore,
    event: RelayEvent,
    now: Timestamp,
    r: Relay,
    s1: AccountStore,
    out: RelayStep,
)
    requires
        relay_step(r0, s0, event, now, r, s1, out),
    ensures
        out.release == (r.claimed && r.phase == RelayPhase::Done && r0.phase != RelayPhase::Done),
        r.claimed ==> r0.claimed || event == RelayEvent::Claimed(true),
{
}

/// A request tries a bounded number of other accounts: each switch is one more attempt, and none is
/// made after the last.
pub proof fn relay_tries_few_accounts(
    r0: Relay,
    s0: AccountStore,
    event: RelayEvent,
    now: Timestamp,
    r: Relay,
    s1: AccountStore,
    out: RelayStep,
)
    requires
        relay_step(r0, s0, event, now, r, s1, out),
        out.next is Switch,
    ensures
        r.attempt < MAX_429_RETRIES,
        r0.phase == RelayPhase::Switching || r0.phase == RelayPhase::Retried ==> r.attempt
            == r0.attempt + 1,
        !(r0.phase == RelayPhase::Switching || r0.phase == RelayPhase::Retried) ==> r.attempt == 0,
{
}

/// How far a request has come between one switch and the next.
pub open spec fn relay_rank(r: Relay) -> int {
    match r.phase {
        RelayPhase::First => 0,
        RelayPhase::Refusal => 1,
        RelayPhase::Refreshing => 2,
        RelayPhase::Renewed => 3,
        RelayPhase::Claiming => 1,
        RelayPhase::Pausing => 2,
        RelayPhase::Waited => 3,
        RelayPhase::Switching => 4 + 2 * r.attempt,
        RelayPhase::Retried => 5 + 2 * r.attempt,
        RelayPhase::Done => 1000,
    }
}

/// A request only moves forward, and so comes to its end; it is over exactly when the client gets
/// its answer.
pub proof fn relay_moves_forward(
    r0: Relay,
    s0: AccountStore,
    event: RelayEvent,
    now: Timestamp,
    r: Relay,
    s1: AccountStore,
    out: RelayStep,
)
    requires
        relay_step(r0, s0, event, now, r, s1, out),
        r0.attempt < MAX_429_RETRIES,
    ensures
        out.next !is Wait ==> relay_rank(r0) < relay_rank(r),
        out.next is Wait ==> r == r0,
        (out.next is Stream || out.next is Buffered || out.next is Reply) <==> (r.phase
            == RelayPhase::Done && r0.phase != RelayPhase::Done),
{
}

/// Handing a request on changes neither which accounts there are nor which one is active, nor the
/// settings: that is left to the switch it asks for.
pub proof fn relay_keeps_the_accounts(
    r0: Relay,
    s0: AccountStore,
    event: RelayEvent,
    now: Timestamp,
    r: Relay,
    s1: AccountStore,
    out: RelayStep,
)
    requires
        relay_step(r0, s0, event, now, r, s1, out),
    ensures
        crate::account::same_ids(s0.accounts@, s1.accounts@),
        s1.current == s0.current,
        s1.settings == s0.settings,
{
    if let Some(c) = s0.current {
        crate::account::lemma_place_from(s0.accounts@, c@, 0);
    }
}

/// A switch is asked for only to an account that can be used and is not the active one.
pub proof fn relay_switches_to_usable_accounts(
    r0: Relay,
    s0: AccountStore,
    event: RelayEvent,
    now: Timestamp,
    r: Relay,
    s1: AccountStore,
    out: RelayStep,
    id: String,
)
    requires
        relay_step(r0, s0, event, now, r, s1, out),
        out.next == (RelayAction::Switch { id }),
        crate::account::distinct_ids(s1.accounts@),
    ensures
        crate::account::lookup(s1.accounts@, id@) matches Some(a) && a.usable()
            && crate::account::access_token_in(a.auth_json@) == Some(r.token@),
        s1.current matches Some(c) ==> c@ != id@,
{
    let pick = choose|pick: PickResult|
        #[trigger] crate::selection::picked(s1, now.secs as int, pick) && (exists|n: int|
            tries_pick(n, pick, r, out));
    crate::selection::pick_is_usable(s1, now.secs as int, pick);
}

// ---------------------------------------------------------------------------
// What answers lead to
// ---------------------------------------------------------------------------

proof fn lemma_current_after(
    s0: AccountStore,
    s1: AccountStore,
    rel: spec_fn(Account, Account) -> bool,
)
    requires
        crate::account::current_changed(s0, s1, rel),
        s0.current_account() is Some,
        forall|a: Account, b: Account| #[trigger] rel(a, b) ==> b.id == a.id,
    ensures
        s1.current_account() is Some,
        rel(s0.current_account()->0, s1.current_account()->0),
{
    let c = s0.current->0;
    crate::account::lemma_place_from(s0.accounts@, c@, 0);
    crate::account::lemma_place_from(s1.accounts@, c@, 0);
    let p = crate::account::place_from(s0.accounts@, c@, 0);
    let q = crate::account::place_from(s1.accounts@, c@, 0);
    assert(rel(s0.accounts@[p], s1.accounts@[p]));
    if q < p {
        assert(s1.accounts@[q] == s0.accounts@[q]);
    }
}

/// The first answer decides: at 429 the active account has nothing left of its five hours and the
/// right to switch is claimed; at 401 and 403 the reason is read; anything else goes to the client.
pub proof fn what_the_first_answer_leads_to(
    r0: Relay,
    s0: AccountStore,
    status: u16,
    now: Timestamp,
    r: Relay,
    s1: AccountStore,
    out: RelayStep,
)
    requires
        r0.phase == RelayPhase::First,
        relay_step(r0, s0, RelayEvent::Answered(Ok(status)), now, r, s1, out),
    ensures
        r.status == status,
        status == 429 ==> {
            &&& out.next is Claim
            &&& (s0.current_account() matches Some(a) && a.cached_quota is Some) ==> (
            s1.current_account() matches Some(b) && (b.cached_quota matches Some(q)
                && q.five_hour_left == 0 && q.weekly_left
                == s0.current_account()->0.cached_quota->0.weekly_left))
        },
        status == 401 || status == 403 ==> out.next is ReadRefusal && s1.accounts@ == s0.accounts@,
        status != 429 && status != 401 && status != 403 ==> out.next == (RelayAction::Stream {
            preempt: true,
        }) && s1.accounts@ == s0.accounts@ && out.ban is None,
{
    if status == 429 && s0.current_account() is Some {
        lemma_current_after(s0, s1, |a: Account, b: Account| b == a.depleted());
    }
}

/// A refusal that tells of a ban marks the active account as banned and leads away from it; any other
/// one leads to a refresh with the refresh token of the account, or back to the client with the first
/// answer where there is none.
pub proof fn what_refusals_lead_to(
    r0: Relay,
    s0: AccountStore,
    body: Vec<u8>,
    now: Timestamp,
    r: Relay,
    s1: AccountStore,
    out: RelayStep,
)
    requires
        r0.phase == RelayPhase::Refusal,
        relay_step(r0, s0, RelayEvent::RefusalRead(body), now, r, s1, out),
    ensures
        ({
            let lower = crate::text::lowered(crate::text::lossy_text(body@));
            let banned = crate::text::occurs(lower, "deactivated"@) || crate::text::occurs(
                lower,
                "banned"@,
            ) || crate::text::occurs(lower, "suspended"@);
            &&& banned ==> {
                &&& s0.current_account() is Some ==> (s1.current_account() matches Some(b)
                    && b.is_banned) && out.ban is Some
                &&& out.next is Switch || (out.next matches RelayAction::Buffered { status }
                    && status == r0.status)
            }
            &&& !banned ==> {
                &&& s1.accounts@ == s0.accounts@ && out.ban is None
                &&& (s0.current_account() matches Some(a) && a.refresh_token is Some) ==> (
                out.next matches RelayAction::Refresh { refresh_token } && refresh_token
                    == s0.current_account()->0.refresh_token->0)
                &&& !(s0.current_account() matches Some(a) && a.refresh_token is Some) ==> (
                out.next matches RelayAction::Buffered { status } && status == r0.status)
            }
        }),
{
    crate::signals::words_for_a_ban(crate::text::lowered(crate::text::lossy_text(body@)));
    if crate::signals::tells_ban(crate::text::lowered(crate::text::lossy_text(body@)))
        && s0.current_account() is Some {
        lemma_current_after(
            s0,
            s1,
            |a: Account, b: Account| b == a.flagged(Some(true), None, None),
        );
    }
}

/// New tokens go into the active account, and the request is sent again with the new access token. A
/// sign-out marks the account; any other failure gives the client the first answer and marks nobody.
pub proof fn what_refreshes_lead_to(
    r0: Relay,
    s0: AccountStore,
    result: Result<TokenResponse, String>,
    now: Timestamp,
    r: Relay,
    s1: AccountStore,
    out: RelayStep,
)
    requires
        r0.phase == RelayPhase::Refreshing,
        relay_step(r0, s0, RelayEvent::Refreshed(result), now, r, s1, out),
    ensures
        result matches Ok(t) ==> {
            &&& out.next matches RelayAction::Send { token } && token@ == t.access_token@
            &&& (s0.current_account() matches Some(a) && (crate::json::field(
                a.auth_json@,
                "tokens"@,
            ) matches Some(tokens) && tokens is Object)) ==> (s1.current_account() matches Some(b)
                && crate::account::access_token_in(b.auth_json@) == Some(t.access_token@))
        },
        result matches Err(e) ==> {
            let lower = crate::text::lowered(e@);
            let out_of_it = crate::text::occurs(lower, "logged out"@) || crate::text::occurs(
                lower,
                "signed in to another account"@,
            ) || crate::text::occurs(lower, "invalid_grant"@);
            &&& out_of_it && s0.current_account() is Some ==> (s1.current_account() matches Some(b)
                && b.is_logged_out && out.next !is Stream)
            &&& !out_of_it ==> s1.accounts@ == s0.accounts@ && (
            out.next matches RelayAction::Buffered { status } && status == r0.status)
        },
        out.ban is None,
{
    match result {
        Ok(t) => {
            if s0.current_account() is Some {
                lemma_current_after(
                    s0,
                    s1,
                    |a: Account, b: Account| crate::account::tokens_applied(a, b, t, now),
                );
                let a = s0.current_account()->0;
                let b = s1.current_account()->0;
                if crate::json::field(a.auth_json@, "tokens"@) matches Some(tokens)
                    && tokens is Object {
                    crate::account::refreshed_accounts_hold_the_new_tokens(a, b, t, now);
                }
            }
        },
        Err(e) => {
            if crate::signals::tells_logout(crate::text::lowered(e@))
                && s0.current_account() is Some {
                lemma_current_after(
                    s0,
                    s1,
                    |a: Account, b: Account| b == a.flagged(None, None, Some(true)),
                );
            }
        },
    }
}

/// After a switch the request is sent with the token of the account that was switched to. Its answer
/// goes to the client, unless that account turns out to be used up too: then nothing is left of its
/// five hours, and it is not streamed.
pub proof fn what_retries_lead_to(
    r0: Relay,
    s0: AccountStore,
    event: RelayEvent,
    now: Timestamp,
    r: Relay,
    s1: AccountStore,
    out: RelayStep,
)
    requires
        relay_step(r0, s0, event, now, r, s1, out),
    ensures
        r0.phase == RelayPhase::Switching && (event matches RelayEvent::Switched(x) && x is Ok) ==> (
        out.next matches RelayAction::Send { token } && token@ == r0.token@),
        r0.phase == RelayPhase::Retried ==> (event matches RelayEvent::Answered(answer) ==> {
            &&& (answer matches Ok(status) && status != 429) ==> out.next == (RelayAction::Stream {
                preempt: false,
            }) && s1.accounts@ == s0.accounts@
            &&& answer == Ok::<u16, String>(429u16) ==> {
                &&& out.next is Switch || out.next is Buffered
                &&& (s0.current_account() matches Some(a) && a.cached_quota is Some) ==> (
                s1.current_account() matches Some(b) && (b.cached_quota matches Some(q)
                    && q.five_hour_left == 0))
            }
            &&& answer is Err ==> out.next is Switch || out.next is Buffered
        }),
        r0.phase == RelayPhase::Renewed || r0.phase == RelayPhase::Waited ==> (
        event matches RelayEvent::Answered(answer) ==> {
            &&& answer is Ok ==> out.next is Stream
            &&& answer is Err ==> (out.next matches RelayAction::Buffered { status } && status
                == r0.status)
        }),
        out.next matches RelayAction::Buffered { status } ==> status == r0.status,
{
    if r0.phase == RelayPhase::Retried && event == RelayEvent::Answered(Ok(429u16))
        && s0.current_account() is Some {
        lemma_current_after(s0, s1, |a: Account, b: Account| b == a.depleted());
    }
}

/// A request tries five other accounts and no more; as long as a pick is to be had, it does try the
/// next one.
pub proof fn five_tries_and_no_more(
    r0: Relay,
    s0: AccountStore,
    event: RelayEvent,
    now: Timestamp,
    r: Relay,
    s1: AccountStore,
    out: RelayStep,
)
    requires
        relay_step(r0, s0, event, now, r, s1, out),
    ensures
        out.next is Switch ==> r.attempt <= 4,
        r0.phase == RelayPhase::Retried && event == RelayEvent::Answered(Ok(429u16)) && r0.attempt
            < 4 && (forall|pick: PickResult|
            #[trigger] crate::selection::picked(s1, now.secs as int, pick) ==> pick is Found)
            ==> out.next is Switch,
        r0.phase == RelayPhase::Claiming && event == RelayEvent::Claimed(true) && (forall|
            pick: PickResult,
        |
            #[trigger] crate::selection::picked(s1, now.secs as int, pick) ==> pick is Found)
            ==> out.next is Switch,
        r0.phase == RelayPhase::Claiming && event == RelayEvent::Claimed(false) ==> out.next is Pause,
{
}

/// Nothing that happens to a request touches another account than the active one.
pub proof fn requests_touch_the_active_account_only(
    r0: Relay,
    s0: AccountStore,
    event: RelayEvent,
    now: Timestamp,
    r: Relay,
    s1: AccountStore,
    out: RelayStep,
    i: int,
)
    requires
        relay_step(r0, s0, event, now, r, s1, out),
        0 <= i < s0.accounts@.len(),
        !(s0.current matches Some(c) && c@ == s0.accounts@[i].id@),
    ensures
        i < s1.accounts@.len(),
        s1.accounts@[i] == s0.accounts@[i],
{
    if let Some(c) = s0.current {
        crate::account::lemma_place_from(s0.accounts@, c@, 0);
    }
}

/// A request goes out with the token of the active account to the server that the token is for, with
/// the headers of the client but for its host and its authorization.
pub proof fn how_requests_go_out(
    o: Outgoing,
    token: Seq<char>,
    path: Seq<char>,
    headers: Seq<crate::proxy::HeaderView>,
)
    ensures
        ({
            let theirs = |h: crate::proxy::HeaderView|
                crate::text::ascii_lowered(h.0) != "authorization"@ && crate::text::ascii_lowered(
                    h.0,
                ) != "host"@;
            &&& goes_out(o, (token, true), "/v1"@ + path, headers) ==> {
                &&& o.token@ == token
                &&& o.url@ == "https://chatgpt.com/backend-api/codex"@ + path
                &&& crate::proxy::header_list(o.headers@).filter(theirs) == headers.filter(theirs)
                &&& crate::proxy::header_list(o.headers@).last() == (
                    "host"@,
                    crate::proxy::bytes_of("chatgpt.com"@),
                )
            }
            &&& goes_out(o, (token, false), path, headers) ==> {
                &&& o.token@ == token
                &&& o.url@ == "https://api.openai.com"@ + path
                &&& crate::proxy::header_list(o.headers@).filter(theirs) == headers.filter(theirs)
                &&& crate::proxy::header_list(o.headers@).last() == (
                    "host"@,
                    crate::proxy::bytes_of("api.openai.com"@),
                )
            }
        }),
{
    crate::proxy::where_paths_go(path);
    crate::proxy::lemma_request_headers(headers, "chatgpt.com"@);
    crate::proxy::lemma_request_headers(headers, "api.openai.com"@);
}


/// A ban is told of only where the body of a refusal was read and has the words for it.
pub proof fn bans_are_told_by_refusals_only(
    r0: Relay,
    s0: AccountStore,
    event: RelayEvent,
    now: Timestamp,
    r: Relay,
    s1: AccountStore,
    out: RelayStep,
)
    requires
        relay_step(r0, s0, event, now, r, s1, out),
        out.ban is Some,
    ensures
        r0.phase == RelayPhase::Refusal,
        event matches RelayEvent::RefusalRead(body) && crate::signals::tells_ban(
            crate::text::lowered(crate::text::lossy_text(body@)),
        ),
{
}

/// That no account has quota left is told of only where one was looked for and none found: the
/// request is over then, with its first answer. It is not told after the fifth account.
pub proof fn the_end_is_told_after_a_search(
    r0: Relay,
    s0: AccountStore,
    event: RelayEvent,
    now: Timestamp,
    r: Relay,
    s1: AccountStore,
    out: RelayStep,
)
    requires
        relay_step(r0, s0, event, now, r, s1, out),
        out.exhausted is Some,
    ensures
        r.phase == RelayPhase::Done,
        out.next matches RelayAction::Buffered { status } && status == r.status,
        r0.phase == RelayPhase::Refusal || r0.phase == RelayPhase::Refreshing || r0.phase
            == RelayPhase::Claiming || r0.phase == RelayPhase::Switching || r0.phase
            == RelayPhase::Retried,
        r0.phase == RelayPhase::Refusal ==> out.ban is Some || s0.current_account() is None,
        r0.phase == RelayPhase::Refreshing ==> (event matches RelayEvent::Refreshed(x) && x is Err),
        r0.phase == RelayPhase::Claiming ==> event == RelayEvent::Claimed(true),
        r0.phase == RelayPhase::Switching ==> r0.attempt + 1 < 5 && (
        event matches RelayEvent::Switched(x) && x is Err),
        r0.phase == RelayPhase::Retried ==> r0.attempt + 1 < 5 && (
        event matches RelayEvent::Answered(x) && (x is Err || x == Ok::<u16, String>(429))),
{
}

/// The store is written only where an account has changed, or the login document on disk was the
/// active account's: at a used up quota, a ban, a refresh, a sign-out, and after a pause.
pub proof fn requests_write_changes_only(
    r0: Relay,
    s0: AccountStore,
    event: RelayEvent,
    now: Timestamp,
    r: Relay,
    s1: AccountStore,
    out: RelayStep,
)
    requires
        relay_step(r0, s0, event, now, r, s1, out),
    ensures
        s1.accounts@ != s0.accounts@ ==> out.save == Persist::BestEffort,
        s1.current == s0.current,
        s1.settings == s0.settings,
        out.save != Persist::No ==> s0.current_account() is Some && match r0.phase {
            RelayPhase::First => event == RelayEvent::Answered(Ok(429)),
            RelayPhase::Refusal => out.ban is Some,
            RelayPhase::Refreshing => event is Refreshed,
            RelayPhase::Pausing => event matches RelayEvent::Paused(d) && d is Some,
            RelayPhase::Retried => event == RelayEvent::Answered(Ok(429)),
            _ => false,
        },
{
    if s0.current_account() is None {
        assert(s1.accounts@ =~= s0.accounts@);
    }
}

/// The right to switch is given back only at the end of a request that holds it, and is always
/// given back there.
pub proof fn the_right_is_given_back_at_the_end(
    r0: Relay,
    s0: AccountStore,
    event: RelayEvent,
    now: Timestamp,
    r: Relay,
    s1: AccountStore,
    out: RelayStep,
)
    requires
        relay_step(r0, s0, event, now, r, s1, out),
    ensures
        out.release ==> r.phase == RelayPhase::Done && r.claimed,
        r0.phase != RelayPhase::Done && r.phase == RelayPhase::Done ==> out.release == r.claimed,
        r.claimed != r0.claimed ==> r0.phase == RelayPhase::Claiming && event
            == RelayEvent::Claimed(true),
{
}

} // verus!
