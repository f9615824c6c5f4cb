//! Querying the quota of one account, with the refresh of tokens and the marks on the account
//! that come with it.
use crate::account::{copy_opt, AccountStore, DiskAuth, TokenResponse};
use crate::clock::Timestamp;
use crate::signals::{quota_trouble, QuotaTrouble};
use crate::text::{concat2, concat3, eq_str};
use crate::usage::{usage_to_cached, UsageDisplay};
use vstd::prelude::*;

verus! {

/// Whether the quota refresh in the background may renew tokens where a report is refused: never,
/// so that no account that is not active uses up an old refresh token.
pub fn allow_local_refresh_for_quota(is_current: bool) -> (allowed: bool)
    ensures
        !allowed,
{
    let _ = is_current;
    false
}

/// Whether the store is to be written to disk before anything else is done.
#[derive(Debug, Clone, Copy, PartialEq, Eq, Structural)]
pub enum Persist {
    /// It is not.
    No,
    /// It is, and a failure is only reported.
    BestEffort,
    /// It is, and a failure ends what is being done with the error of the write.
    Required,
}

/// Who asks for a quota.
#[derive(Debug, Clone, Copy, PartialEq, Eq, Structural)]
pub enum QuotaRoute {
    /// The user, for an account by its id.
    ById,
    /// The search for the next account.
    Internal,
}

/// Where a quota query stands.
#[derive(Debug, Clone, Copy, PartialEq, Eq, Structural)]
pub enum QuotaPhase {
    /// The login document on disk is being read.
    Disk,
    /// A refresh is on its way.
    Refresh,
    /// The usage report is being fetched.
    Fetch,
    /// There is nothing more to do.
    Done,
}

/// A quota query.
#[derive(Debug)]
pub struct QuotaQuery {
    pub id: String,
    pub route: QuotaRoute,
    pub phase: QuotaPhase,
    pub account_id: Option<String>,
    pub refresh_token: Option<String>,
}

/// What has happened to a quota query.
#[derive(Debug)]
pub enum QuotaEvent {
    /// The login document on disk was read.
    DiskRead(Result<DiskAuth, String>),
    /// A refresh came back.
    Refreshed(Result<TokenResponse, String>),
    /// The usage report came back, with the tokens that were renewed on the way.
    Fetched(Result<(UsageDisplay, Option<TokenResponse>), String>),
}

/// What is to be done for a quota query.
#[allow(inconsistent_fields)]
#[derive(Debug)]
pub enum QuotaAction {
    /// Read the login document on disk.
    ReadDisk,
    /// Exchange this refresh token for new tokens.
    Refresh { refresh_token: String },
    /// Fetch the usage report, with or without a local refresh where the tokens have run out.
    Fetch {
        access_token: String,
        account_id: Option<String>,
        refresh_token: Option<String>,
        allow_local_refresh: bool,
    },
    /// The query is over.
    Show(UsageDisplay),
    /// The query is over, and has failed.
    Fail(String),
    /// Nothing: the event does not belong to where the query stands.
    Wait,
}

/// A step of a quota query: what to do with the store, and what to do next.
#[derive(Debug)]
pub struct QuotaStep {
    pub save: Persist,
    pub next: QuotaAction,
}

// ---------------------------------------------------------------------------
// What a step does
// ---------------------------------------------------------------------------

/// The message for an account that is not there.
pub open spec fn missing_account(route: QuotaRoute, id: Seq<char>) -> Seq<char> {
    match route {
        QuotaRoute::ById => "Account "@ + id + " not found"@,
        QuotaRoute::Internal => "Account does not exist"@,
    }
}

/// The refresh token that a query uses.
pub open spec fn known_refresh(
    route: QuotaRoute,
    a: crate::account::Account,
) -> Option<Seq<char>> {
    match a.refresh_token {
        Some(rt) => Some(rt@),
        None => match route {
            QuotaRoute::ById => crate::account::refresh_token_in(a.auth_json@),
            QuotaRoute::Internal => None,
        },
    }
}

/// The query is over, and has failed with this message.
pub open spec fn query_failed(q: QuotaQuery, next: QuotaAction, message: Seq<char>) -> bool {
    q.phase == QuotaPhase::Done && (next matches QuotaAction::Fail(m) && m@ == message)
}

/// The usage report is fetched with this access token and what the query knows of the account; a
/// local refresh is allowed.
pub open spec fn fetching(q: QuotaQuery, next: QuotaAction, token: Seq<char>) -> bool {
    q.phase == QuotaPhase::Fetch && (next matches QuotaAction::Fetch {
        access_token,
        account_id,
        refresh_token,
        allow_local_refresh,
    } && access_token@ == token && account_id == q.account_id && refresh_token == q.refresh_token
        && allow_local_refresh)
}

/// The query goes on with the credentials of the account: it fetches the report where there is an
/// access token, refreshes where there is only a refresh token, and fails where there is neither.
pub open spec fn with_credentials(store: AccountStore, q: QuotaQuery, next: QuotaAction) -> bool {
    match crate::account::lookup(store.accounts@, q.id@) {
        None => query_failed(q, next, missing_account(q.route, q.id@)),
        Some(a) => {
            let known = known_refresh(q.route, a);
            &&& crate::json::opt_text(q.account_id) == crate::account::account_id_in(a.auth_json@)
            &&& crate::json::opt_text(q.refresh_token) == known
            &&& match crate::account::access_token_in(a.auth_json@) {
                Some(token) => fetching(q, next, token),
                None => match known {
                    Some(rt) => q.phase == QuotaPhase::Refresh && (next matches QuotaAction::Refresh {
                        refresh_token,
                    } && refresh_token@ == rt),
                    None => query_failed(
                        q,
                        next,
                        "TOKEN_INVALID:No access_token and no refresh_token"@,
                    ),
                },
            }
        },
    }
}

/// The flags that the trouble of a failed query leaves on the account.
pub open spec fn marked(a: crate::account::Account, trouble: QuotaTrouble) -> crate::account::Account {
    match trouble {
        QuotaTrouble::Banned => a.flagged(Some(true), Some(false), Some(false)),
        QuotaTrouble::TokenInvalid => a.flagged(Some(false), Some(true), Some(false)),
        QuotaTrouble::LoggedOut => a.flagged(Some(false), Some(false), Some(true)),
        QuotaTrouble::Other => a,
    }
}

/// The report, and the tokens that came with it, stand in the account.
pub open spec fn report_kept(
    before: crate::account::Account,
    after: crate::account::Account,
    usage: UsageDisplay,
    tokens: Option<TokenResponse>,
    now: Timestamp,
) -> bool {
    &&& after.cached_quota == Some(crate::usage::cached_of(usage, now))
    &&& match tokens {
        Some(t) => crate::account::tokens_applied(
            crate::account::Account { cached_quota: after.cached_quota, ..before },
            after,
            t,
            now,
        ),
        None => after == crate::account::Account { cached_quota: after.cached_quota, ..before },
    }
}

/// A best effort write where the account is there, and none where it is not.
pub open spec fn save_if_there(store: AccountStore, id: Seq<char>) -> Persist {
    if crate::account::place(store.accounts@, id) is Some {
        Persist::BestEffort
    } else {
        Persist::No
    }
}

/// What follows when the login document on disk was read: it must belong to the account, and is
/// taken over where it differs.
pub open spec fn disk_step(
    s0: AccountStore,
    disk: Result<DiskAuth, String>,
    q: QuotaQuery,
    s1: AccountStore,
    out: QuotaStep,
) -> bool {
    match disk {
        Err(e) => crate::account::unchanged(s0, s1) && out.save == Persist::No && query_failed(
            q,
            out.next,
            e@,
        ),
        Ok(d) => match crate::account::lookup(s0.accounts@, q.id@) {
            None => crate::account::unchanged(s0, s1) && out.save == Persist::No && query_failed(
                q,
                out.next,
                missing_account(q.route, q.id@),
            ),
            Some(a) => if !crate::account::one_identity(a.auth_json@, d.auth@) {
                crate::account::unchanged(s0, s1) && out.save == Persist::No && query_failed(
                    q,
                    out.next,
                    "Current active account identity mismatch with ~/.codex/auth.json, overwrite rejected. Please switch to same account in Codex first"@,
                )
            } else if crate::json::compared(a.auth_json) == crate::json::compared(d.auth) {
                crate::account::unchanged(s0, s1) && out.save == Persist::No && with_credentials(
                    s1,
                    q,
                    out.next,
                )
            } else {
                &&& crate::account::account_changed(
                    s0,
                    s1,
                    q.id@,
                    |a: crate::account::Account, b: crate::account::Account|
                        crate::account::auth_taken(a, b, d),
                )
                &&& out.save == Persist::Required
                &&& with_credentials(s1, q, out.next)
            },
        },
    }
}

/// What follows when the usage report came back.
pub open spec fn fetched_step(
    s0: AccountStore,
    result: Result<(UsageDisplay, Option<TokenResponse>), String>,
    now: Timestamp,
    q: QuotaQuery,
    s1: AccountStore,
    out: QuotaStep,
) -> bool {
    &&& q.phase == QuotaPhase::Done
    &&& match result {
        Err(e) => {
            let trouble = crate::signals::trouble_in(e@);
            &&& out.next matches QuotaAction::Fail(m) && m == e
            &&& crate::account::account_changed(
                s0,
                s1,
                q.id@,
                |a: crate::account::Account, b: crate::account::Account| b == marked(a, trouble),
            )
            &&& out.save == if trouble == QuotaTrouble::Other {
                Persist::No
            } else {
                save_if_there(s0, q.id@)
            }
        },
        Ok(r) => {
            &&& out.next matches QuotaAction::Show(u) && u == r.0
            &&& crate::account::account_changed(
                s0,
                s1,
                q.id@,
                |a: crate::account::Account, b: crate::account::Account|
                    report_kept(a, b, r.0, r.1, now),
            )
            &&& out.save == match q.route {
                QuotaRoute::ById => Persist::Required,
                QuotaRoute::Internal => save_if_there(s0, q.id@),
            }
        },
    }
}

/// One step of a quota query.
pub open spec fn quota_step(
    q0: QuotaQuery,
    s0: AccountStore,
    event: QuotaEvent,
    now: Timestamp,
    q1: QuotaQuery,
    s1: AccountStore,
    out: QuotaStep,
) -> bool {
    &&& q1.id == q0.id
    &&& q1.route == q0.route
    &&& match (q0.phase, event) {
        (QuotaPhase::Disk, QuotaEvent::DiskRead(disk)) => disk_step(s0, disk, q1, s1, out),
        (QuotaPhase::Refresh, QuotaEvent::Refreshed(Err(e))) => {
            &&& crate::account::unchanged(s0, s1)
            &&& out.save == Persist::No
            &&& query_failed(q1, out.next, "TOKEN_INVALID:Token refresh failed: "@ + e@)
        },
        (QuotaPhase::Refresh, QuotaEvent::Refreshed(Ok(t))) => {
            &&& crate::account::account_changed(
                s0,
                s1,
                q1.id@,
                |a: crate::account::Account, b: crate::account::Account|
                    crate::account::tokens_applied(a, b, t, now),
            )
            &&& out.save == save_if_there(s0, q1.id@)
            &&& q1.account_id == q0.account_id
            &&& q1.refresh_token == q0.refresh_token
            &&& fetching(q1, out.next, t.access_token@)
        },
        (QuotaPhase::Fetch, QuotaEvent::Fetched(result)) => fetched_step(
            s0,
            result,
            now,
            q1,
            s1,
            out,
        ),
        _ => {
            &&& crate::account::unchanged(s0, s1)
            &&& q1 == q0
            &&& out.save == Persist::No
            &&& out.next is Wait
        },
    }
}

// ---------------------------------------------------------------------------
// The query
// ---------------------------------------------------------------------------

impl QuotaQuery {
    fn missing(&self) -> (message: String)
        ensures
            message@ == missing_account(self.route, self.id@),
    {
        match self.route {
            QuotaRoute::ById => concat3("Account ", self.id.as_str(), " not found"),
            QuotaRoute::Internal => "Account does not exist".to_owned(),
        }
    }

    fn credentials(&mut self, store: &AccountStore) -> (next: QuotaAction)
        ensures
            final(self).id == old(self).id,
            final(self).route == old(self).route,
            with_credentials(*store, *final(self), next),
    {
        match store.find(self.id.as_str()) {
            None => {
                self.phase = QuotaPhase::Done;
                QuotaAction::Fail(self.missing())
            },
            Some(i) => {
                let a = &store.accounts[i];
                self.account_id = AccountStore::extract_account_id(&a.auth_json);
                self.refresh_token = match &a.refresh_token {
                    Some(rt) => Some(rt.clone()),
                    None => match self.route {
                        QuotaRoute::ById => AccountStore::extract_refresh_token(&a.auth_json),
                        QuotaRoute::Internal => None,
                    },
                };
                match AccountStore::extract_access_token(&a.auth_json) {
                    Some(access_token) => {
                        self.phase = QuotaPhase::Fetch;
                        QuotaAction::Fetch {
                            access_token,
                            account_id: copy_opt(&self.account_id),
                            refresh_token: copy_opt(&self.refresh_token),
                            allow_local_refresh: true,
                        }
                    },
                    None => match &self.refresh_token {
                        Some(rt) => {
                            let refresh_token: String = rt.clone();
                            self.phase = QuotaPhase::Refresh;
                            QuotaAction::Refresh { refresh_token }
                        },
                        None => {
                            self.phase = QuotaPhase::Done;
                            QuotaAction::Fail(
                                "TOKEN_INVALID:No access_token and no refresh_token".to_owned(),
                            )
                        },
                    },
                }
            },
        }
    }

    fn on_disk(&mut self, store: &mut AccountStore, disk: Result<DiskAuth, String>) -> (out: QuotaStep)
        ensures
            final(self).id == old(self).id,
            final(self).route == old(self).route,
            disk_step(*old(store), disk, *final(self), *final(store), out),
    {
        let d: DiskAuth = match disk {
            Ok(d) => d,
            Err(e) => {
                self.phase = QuotaPhase::Done;
                return QuotaStep { save: Persist::No, next: QuotaAction::Fail(e) };
            },
        };
        match store.find(self.id.as_str()) {
            None => {
                self.phase = QuotaPhase::Done;
                QuotaStep { save: Persist::No, next: QuotaAction::Fail(self.missing()) }
            },
            Some(i) => {
                if !AccountStore::auth_identity_matches(&store.accounts[i].auth_json, &d.auth) {
                    self.phase = QuotaPhase::Done;
                    QuotaStep {
                        save: Persist::No,
                        next: QuotaAction::Fail(
                            "Current active account identity mismatch with ~/.codex/auth.json, overwrite rejected. Please switch to same account in Codex first".to_owned(),
                        ),
                    }
                } else if store.accounts[i].auth_json.same(&d.auth) {
                    let next: QuotaAction = self.credentials(store);
                    QuotaStep { save: Persist::No, next }
                } else {
                    let taken: bool = store.sync_account_from_auth_json(self.id.as_str(), &d);
                    assert(taken);
                    let next: QuotaAction = self.credentials(store);
                    QuotaStep { save: Persist::Required, next }
                }
            },
        }
    }

    fn on_fetched(
        &mut self,
        store: &mut AccountStore,
        result: Result<(UsageDisplay, Option<TokenResponse>), String>,
        now: Timestamp,
    ) -> (out: QuotaStep)
        requires
            now.in_calendar(),
        ensures
            final(self).id == old(self).id,
            final(self).route == old(self).route,
            fetched_step(*old(store), result, now, *final(self), *final(store), out),
    {
        self.phase = QuotaPhase::Done;
        match result {
            Err(e) => {
                let found: bool = match quota_trouble(e.as_str()) {
                    QuotaTrouble::Banned => store.flag(
                        self.id.as_str(),
                        Some(true),
                        Some(false),
                        Some(false),
                    ),
                    QuotaTrouble::TokenInvalid => store.flag(
                        self.id.as_str(),
                        Some(false),
                        Some(true),
                        Some(false),
                    ),
                    QuotaTrouble::LoggedOut => store.flag(
                        self.id.as_str(),
                        Some(false),
                        Some(false),
                        Some(true),
                    ),
                    QuotaTrouble::Other => false,
                };
                let save: Persist = if found {
                    Persist::BestEffort
                } else {
                    Persist::No
                };
                QuotaStep { save, next: QuotaAction::Fail(e) }
            },
            Ok(r) => {
                let found: bool = match store.find(self.id.as_str()) {
                    Some(i) => {
                        let a = &mut store.accounts[i];
                        a.cached_quota = Some(usage_to_cached(&r.0, now));
                        if let Some(t) = &r.1 {
                            AccountStore::apply_refreshed_tokens(a, t, now);
                        }
                        true
                    },
                    None => false,
                };
                let save: Persist = match self.route {
                    QuotaRoute::ById => Persist::Required,
                    QuotaRoute::Internal => if found {
                        Persist::BestEffort
                    } else {
                        Persist::No
                    },
                };
                QuotaStep { save, next: QuotaAction::Show(r.0) }
            },
        }
    }

    /// Takes the query one step on.
    pub fn step(&mut self, store: &mut AccountStore, event: QuotaEvent, now: Timestamp) -> (out:
        QuotaStep)
        requires
            now.in_calendar(),
        ensures
            quota_step(*old(self), *old(store), event, now, *final(self), *final(store), out),
    {
        match (self.phase, event) {
            (QuotaPhase::Disk, QuotaEvent::DiskRead(disk)) => self.on_disk(store, disk),
            (QuotaPhase::Refresh, QuotaEvent::Refreshed(Err(e))) => {
                self.phase = QuotaPhase::Done;
                QuotaStep {
                    save: Persist::No,
                    next: QuotaAction::Fail(
                        concat2("TOKEN_INVALID:Token refresh failed: ", e.as_str()),
                    ),
                }
            },
            (QuotaPhase::Refresh, QuotaEvent::Refreshed(Ok(t))) => {
                let found: bool = store.apply_tokens_to(self.id.as_str(), &t, now);
                self.phase = QuotaPhase::Fetch;
                QuotaStep {
                    save: if found {
                        Persist::BestEffort
                    } else {
                        Persist::No
                    },
                    next: QuotaAction::Fetch {
                        access_token: t.access_token,
                        account_id: copy_opt(&self.account_id),
                        refresh_token: copy_opt(&self.refresh_token),
                        allow_local_refresh: true,
                    },
                }
            },
            (QuotaPhase::Fetch, QuotaEvent::Fetched(result)) => self.on_fetched(store, result, now),
            _ => QuotaStep { save: Persist::No, next: QuotaAction::Wait },
        }
    }
}

/// Starts the query for an account by its id. For the active account the login document on disk
/// is read first.
pub fn get_quota_by_id(store: &AccountStore, id: &str) -> (start: (QuotaQuery, QuotaAction))
    ensures
        start.0.id@ == id@,
        start.0.route == QuotaRoute::ById,
        if store.current matches Some(c) && c@ == id@ {
            start.0.phase == QuotaPhase::Disk && start.1 is ReadDisk
        } else {
            with_credentials(*store, start.0, start.1)
        },
{
    let mut q: QuotaQuery = QuotaQuery {
        id: id.to_owned(),
        route: QuotaRoute::ById,
        phase: QuotaPhase::Disk,
        account_id: None,
        refresh_token: None,
    };
    let is_current: bool = match &store.current {
        Some(c) => eq_str(c.as_str(), id),
        None => false,
    };
    if is_current {
        (q, QuotaAction::ReadDisk)
    } else {
        let next: QuotaAction = q.credentials(store);
        (q, next)
    }
}

/// Starts the query for a candidate of the search for the next account.
pub fn get_quota_internal(store: &AccountStore, id: &str) -> (start: (QuotaQuery, QuotaAction))
    ensures
        start.0.id@ == id@,
        start.0.route == QuotaRoute::Internal,
        start.0.phase != QuotaPhase::Disk,
        with_credentials(*store, start.0, start.1),
{
    let mut q: QuotaQuery = QuotaQuery {
        id: id.to_owned(),
        route: QuotaRoute::Internal,
        phase: QuotaPhase::Fetch,
        account_id: None,
        refresh_token: None,
    };
    let next: QuotaAction = q.credentials(store);
    (q, next)
}

/// A quota query changes neither which accounts there are nor which one is active, nor the
/// settings.
pub proof fn quota_keeps_the_accounts(
    q0: QuotaQuery,
    s0: AccountStore,
    event: QuotaEvent,
    now: Timestamp,
    q1: QuotaQuery,
    s1: AccountStore,
    out: QuotaStep,
)
    requires
        quota_step(q0, s0, event, now, q1, s1, out),
    ensures
        crate::account::same_ids(s0.accounts@, s1.accounts@),
        s1.current == s0.current,
        s1.settings == s0.settings,
{
    crate::account::lemma_place_from(s0.accounts@, q1.id@, 0);
}

/// A failed quota query leaves at most one flag on the account that it is about.
pub proof fn trouble_leaves_one_flag(a: crate::account::Account, trouble: QuotaTrouble)
    requires
        trouble != QuotaTrouble::Other,
    ensures
        marked(a, trouble).is_banned == (trouble == QuotaTrouble::Banned),
        marked(a, trouble).is_token_invalid == (trouble == QuotaTrouble::TokenInvalid),
        marked(a, trouble).is_logged_out == (trouble == QuotaTrouble::LoggedOut),
        !marked(a, trouble).usable(),
{
}

/// An account that a query has marked is no candidate for the next switch.
pub proof fn marked_accounts_are_no_candidates(
    a: crate::account::Account,
    trouble: QuotaTrouble,
    current: Seq<char>,
    allow_free: bool,
    now: int,
)
    requires
        trouble != QuotaTrouble::Other,
    ensures
        crate::selection::account_score(marked(a, trouble), current, allow_free, now) is None,
{
}

// ---------------------------------------------------------------------------
// What a query leaves
// ---------------------------------------------------------------------------

/// A report that came back is shown as it is and remembered with its account, with the time at which
/// it was seen; tokens that came with it are kept, and what is known against the account stays.
pub proof fn reports_are_shown_and_remembered(
    q0: QuotaQuery,
    s0: AccountStore,
    usage: UsageDisplay,
    tokens: Option<TokenResponse>,
    now: Timestamp,
    q1: QuotaQuery,
    s1: AccountStore,
    out: QuotaStep,
)
    requires
        q0.phase == QuotaPhase::Fetch,
        quota_step(q0, s0, QuotaEvent::Fetched(Ok((usage, tokens))), now, q1, s1, out),
    ensures
        out.next == QuotaAction::Show(usage),
        crate::account::lookup(s0.accounts@, q0.id@) matches Some(a) ==> (crate::account::lookup(
            s1.accounts@,
            q0.id@,
        ) matches Some(b) && {
            &&& b.cached_quota matches Some(q) && q.five_hour_left == usage.five_hour_left
                && q.weekly_left == usage.weekly_left && q.five_hour_reset_at
                == usage.five_hour_reset_at && q.weekly_reset_at == usage.weekly_reset_at
                && q.plan_type == usage.plan_type && q.updated_at == now
            &&& b.is_banned == a.is_banned && b.is_token_invalid == a.is_token_invalid
                && b.is_logged_out == a.is_logged_out
            &&& tokens is None ==> b.auth_json == a.auth_json && b.refresh_token == a.refresh_token
            &&& (tokens is Some && (crate::json::field(a.auth_json@, "tokens"@) matches Some(t)
                && t is Object)) ==> crate::account::access_token_in(b.auth_json@) == Some(
                tokens->0.access_token@,
            )
        }),
        crate::account::lookup(s0.accounts@, q0.id@) is None ==> s1.accounts@ == s0.accounts@,
{
    if crate::account::lookup(s0.accounts@, q0.id@) is Some {
        let rel = |a: crate::account::Account, b: crate::account::Account|
            report_kept(a, b, usage, tokens, now);
        crate::account::lemma_lookup_after(s0, s1, q1.id@, rel);
        let a = crate::account::lookup(s0.accounts@, q0.id@)->0;
        let b = crate::account::lookup(s1.accounts@, q0.id@)->0;
        assert(report_kept(a, b, usage, tokens, now));
        if tokens is Some && (crate::json::field(a.auth_json@, "tokens"@) matches Some(t)
            && t is Object) {
            crate::account::refreshed_accounts_hold_the_new_tokens(
                crate::account::Account { cached_quota: b.cached_quota, ..a },
                b,
                tokens->0,
                now,
            );
        }
    }
}

/// A query that failed marks its account by the word in the message, and by nothing else: as banned,
/// as having an invalid token, or as signed out. The message is handed on, and the quota that was
/// known stays.
pub proof fn failures_mark_their_account(
    q0: QuotaQuery,
    s0: AccountStore,
    message: String,
    now: Timestamp,
    q1: QuotaQuery,
    s1: AccountStore,
    out: QuotaStep,
)
    requires
        q0.phase == QuotaPhase::Fetch,
        quota_step(q0, s0, QuotaEvent::Fetched(Err(message)), now, q1, s1, out),
        crate::account::lookup(s0.accounts@, q0.id@) is Some,
    ensures
        out.next == QuotaAction::Fail(message),
        ({
            let a = crate::account::lookup(s0.accounts@, q0.id@)->0;
            let b = crate::account::lookup(s1.accounts@, q0.id@)->0;
            let banned = crate::text::occurs(message@, "ACCOUNT_BANNED"@);
            let invalid = !banned && crate::text::occurs(message@, "TOKEN_INVALID"@);
            let gone = !banned && !invalid && crate::text::occurs(message@, "ACCOUNT_LOGGED_OUT"@);
            &&& crate::account::lookup(s1.accounts@, q0.id@) is Some
            &&& banned || invalid || gone ==> b.is_banned == banned && b.is_token_invalid == invalid
                && b.is_logged_out == gone && out.save == Persist::BestEffort
            &&& !(banned || invalid || gone) ==> b == a && out.save == Persist::No
            &&& b == crate::account::Account {
                is_banned: b.is_banned,
                is_token_invalid: b.is_token_invalid,
                is_logged_out: b.is_logged_out,
                ..a
            }
        }),
{
    let trouble = crate::signals::trouble_in(message@);
    let rel = |a: crate::account::Account, b: crate::account::Account| b == marked(a, trouble);
    crate::account::lemma_lookup_after(s0, s1, q1.id@, rel);
}

/// A query asks with the access token of its account; where there is none it refreshes with the
/// refresh token, and where there is neither it fails.
pub proof fn queries_ask_with_what_the_account_has(
    store: AccountStore,
    q: QuotaQuery,
    next: QuotaAction,
)
    requires
        with_credentials(store, q, next),
    ensures
        crate::account::lookup(store.accounts@, q.id@) is None ==> next is Fail,
        crate::account::lookup(store.accounts@, q.id@) matches Some(a) ==> {
            &&& crate::account::access_token_in(a.auth_json@) matches Some(token) ==> (
            next matches QuotaAction::Fetch {
                access_token,
                account_id,
                refresh_token,
                allow_local_refresh,
            } && access_token@ == token && crate::json::opt_text(account_id)
                == crate::account::account_id_in(a.auth_json@) && allow_local_refresh && (
            a.refresh_token is Some ==> crate::json::opt_text(refresh_token)
                == crate::json::opt_text(a.refresh_token)))
            &&& crate::account::access_token_in(a.auth_json@) is None && a.refresh_token is Some
                ==> (next matches QuotaAction::Refresh { refresh_token } && Some(refresh_token@)
                == crate::json::opt_text(a.refresh_token))
            &&& crate::account::access_token_in(a.auth_json@) is None && a.refresh_token is None
                && crate::account::refresh_token_in(a.auth_json@) is None ==> next is Fail
            &&& crate::account::access_token_in(a.auth_json@) is None && a.refresh_token is None
                && q.route == QuotaRoute::ById ==> (crate::account::refresh_token_in(
                a.auth_json@,
            ) matches Some(rt) ==> (next matches QuotaAction::Refresh { refresh_token }
                && refresh_token@ == rt))
        },
{
}

/// Of the active account the document on disk is taken over where it is of the same identity; one of
/// another identity ends the query and changes nothing.
pub proof fn strangers_on_disk_end_the_query(
    q0: QuotaQuery,
    s0: AccountStore,
    disk: DiskAuth,
    now: Timestamp,
    q1: QuotaQuery,
    s1: AccountStore,
    out: QuotaStep,
)
    requires
        q0.phase == QuotaPhase::Disk,
        quota_step(q0, s0, QuotaEvent::DiskRead(Ok(disk)), now, q1, s1, out),
        crate::account::lookup(s0.accounts@, q0.id@) is Some,
    ensures
        ({
            let a = crate::account::lookup(s0.accounts@, q0.id@)->0;
            let mine = crate::account::account_id_in(a.auth_json@);
            let theirs = crate::account::account_id_in(disk.auth@);
            &&& mine is None || mine != theirs ==> out.next is Fail && s1.accounts@ == s0.accounts@
                && out.save == Persist::No
            &&& mine is Some && mine == theirs && a.auth_json@ != disk.auth@
                && crate::json::compared(a.auth_json) != crate::json::compared(disk.auth) ==> (
            crate::account::lookup(s1.accounts@, q0.id@) matches Some(b) && b.auth_json@
                == disk.auth@ && out.save == Persist::Required)
        }),
{
    let a = crate::account::lookup(s0.accounts@, q0.id@)->0;
    let mine = crate::account::account_id_in(a.auth_json@);
    let theirs = crate::account::account_id_in(disk.auth@);
    if mine is Some && mine == theirs && crate::json::compared(a.auth_json)
        != crate::json::compared(disk.auth) {
        crate::account::lemma_lookup_after(
            s0,
            s1,
            q1.id@,
            |a: crate::account::Account, b: crate::account::Account|
                crate::account::auth_taken(a, b, disk),
        );
    }
}

/// After a refresh the report is fetched with the new access token; a refresh that failed ends the
/// query and changes nothing.
pub proof fn refreshes_lead_to_the_report(
    q0: QuotaQuery,
    s0: AccountStore,
    result: Result<TokenResponse, String>,
    now: Timestamp,
    q1: QuotaQuery,
    s1: AccountStore,
    out: QuotaStep,
)
    requires
        q0.phase == QuotaPhase::Refresh,
        quota_step(q0, s0, QuotaEvent::Refreshed(result), now, q1, s1, out),
    ensures
        result matches Ok(t) ==> (out.next matches QuotaAction::Fetch {
            access_token,
            account_id,
            refresh_token,
            allow_local_refresh,
        } && access_token@ == t.access_token@ && account_id == q0.account_id && refresh_token
            == q0.refresh_token && allow_local_refresh),
        result matches Err(e) ==> s1.accounts@ == s0.accounts@ && (out.next matches QuotaAction::Fail(
            m,
        ) && m@ == "TOKEN_INVALID:Token refresh failed: "@ + e@),
{
}


/// What a failed refresh or a failed reading of the disk says: nothing is changed or written, and
/// the message tells why. A missing account is named where it was asked for by its id.
pub proof fn failed_queries_change_nothing(
    q0: QuotaQuery,
    s0: AccountStore,
    event: QuotaEvent,
    now: Timestamp,
    q1: QuotaQuery,
    s1: AccountStore,
    out: QuotaStep,
)
    requires
        quota_step(q0, s0, event, now, q1, s1, out),
    ensures
        q0.phase == QuotaPhase::Refresh && (event matches QuotaEvent::Refreshed(x) && x is Err)
            ==> s1.accounts@ == s0.accounts@ && out.save == Persist::No && (
        out.next matches QuotaAction::Fail(m) && m@ == "TOKEN_INVALID:Token refresh failed: "@
            + event->Refreshed_0->Err_0@),
        q0.phase == QuotaPhase::Disk && (event matches QuotaEvent::DiskRead(x) && x is Err)
            ==> s1.accounts@ == s0.accounts@ && out.save == Persist::No && (
        out.next matches QuotaAction::Fail(m) && m@ == event->DiskRead_0->Err_0@),
        q0.phase == QuotaPhase::Disk && (event matches QuotaEvent::DiskRead(x) && x is Ok)
            && crate::account::lookup(s0.accounts@, q0.id@) is None ==> s1.accounts@ == s0.accounts@
            && out.save == Persist::No && (out.next matches QuotaAction::Fail(m) && (q0.route
            == QuotaRoute::ById ==> m@ == "Account "@ + q0.id@ + " not found"@) && (q0.route
            == QuotaRoute::Internal ==> m@ == "Account does not exist"@)),
        q0.phase == QuotaPhase::Disk && (event matches QuotaEvent::DiskRead(x) && x is Ok) && (
        crate::account::lookup(s0.accounts@, q0.id@) matches Some(a)
            && !crate::account::one_identity(a.auth_json@, event->DiskRead_0->Ok_0.auth@))
            ==> s1.accounts@ == s0.accounts@ && out.save == Persist::No && (
        out.next matches QuotaAction::Fail(m) && m@
            == "Current active account identity mismatch with ~/.codex/auth.json, overwrite rejected. Please switch to same account in Codex first"@),
        out.next is Wait ==> s1.accounts@ == s0.accounts@ && out.save == Persist::No && q1 == q0,
        s1.current == s0.current,
        s1.settings == s0.settings,
{
}

} // verus!
