//! The state of the program, and the ticket that a repair of the installation needs.
use crate::account::AccountStore;
use crate::clock::{shift, Timestamp};
use crate::lifecycle::Running;
use crate::proxy::ProxyStats;
use crate::text::eq_str;
use crate::token_tracker::{TokenTracker, UsageStats};
use vstd::prelude::*;

verus! {

/// For how many seconds a ticket is good.
pub const QUARANTINE_FIX_TICKET_TTL_SECS: i64 = 120;

/// A ticket: whoever shows it has asked for the repair a short while ago.
#[derive(Debug)]
pub struct QuarantineFixTicket {
    pub value: String,
    pub expires_at: Timestamp,
}

/// The state of the program.
#[derive(Debug)]
pub struct AppState {
    pub store: AccountStore,
    pub running: Running,
    pub proxy_stats: ProxyStats,
    pub token_tracker: TokenTracker,
    pub quarantine_fix_ticket: Option<QuarantineFixTicket>,
}

/// `uuid::Uuid::new_v4`, as text: some text of 36 characters, each a lower case hexadecimal digit
/// or a hyphen.
#[verifier::external_body]
fn new_ticket() -> (text: String)
    ensures
        text@.len() == 36,
        forall|i: int|
            0 <= i < 36 ==> {
                let c = #[trigger] text@[i];
                c == '-' || '0' <= c <= '9' || 'a' <= c <= 'f'
            },
{
    uuid::Uuid::new_v4().to_string()
}

/// The state in which the ticket `value` was issued at `now`; nothing else has changed.
pub open spec fn ticket_issued(
    before: AppState,
    after: AppState,
    value: Seq<char>,
    now: Timestamp,
) -> bool {
    &&& after == AppState { quarantine_fix_ticket: after.quarantine_fix_ticket, ..before }
    &&& after.quarantine_fix_ticket matches Some(t) && t.value@ == value && Some(t.expires_at)
        == crate::clock::shifted(now, QUARANTINE_FIX_TICKET_TTL_SECS as int)
}

/// What comes of showing a ticket at `now`.
pub open spec fn ticket_checked(
    slot: Option<QuarantineFixTicket>,
    shown: Seq<char>,
    now: Timestamp,
) -> Result<(), Seq<char>> {
    match slot {
        None => Err("Missing security confirmation, please click fix again"@),
        Some(t) => if t.expires_at.earlier(now) {
            Err("Security confirmation expired, please click fix again"@)
        } else if t.value@ != shown {
            Err("Security confirmation invalid, please click fix again"@)
        } else {
            Ok(())
        },
    }
}

/// The content of an error.
pub open spec fn outcome_view(r: Result<(), String>) -> Result<(), Seq<char>> {
    match r {
        Ok(_) => Ok(()),
        Err(e) => Err(e@),
    }
}

/// The state in which a ticket was shown: there is none any more, and nothing else has changed.
pub open spec fn ticket_taken(before: AppState, after: AppState) -> bool {
    after == AppState { quarantine_fix_ticket: None, ..before }
}

impl AppState {
    /// The state at the start, with the accounts and the statistics that were kept.
    pub fn new(store: AccountStore, kept: Option<UsageStats>, now: Timestamp) -> (state: AppState)
        requires
            now.in_calendar(),
            kept matches Some(s) ==> s.since.in_calendar(),
        ensures
            state.store == store,
            state.running == (Running { scheduler: false, proxy: false, quota_refresh: false }),
            state.proxy_stats.total_requests == 0,
            state.proxy_stats.auto_switches == 0,
            state.quarantine_fix_ticket is None,
            kept is None ==> crate::token_tracker::nothing_used(state.token_tracker.stats, now)
                && state.token_tracker.stats.last_month_cost is None
                && state.token_tracker.stats.last_month_tokens is None,
            kept matches Some(s) ==> if crate::clock::month_of(s.since.secs)
                == crate::clock::month_of(now.secs) {
                state.token_tracker.stats == s
            } else {
                crate::token_tracker::begun_anew(s, state.token_tracker.stats, now)
            },
    {
        AppState {
            store,
            running: Running { scheduler: false, proxy: false, quota_refresh: false },
            proxy_stats: ProxyStats::default(),
            token_tracker: TokenTracker::new(kept, now),
            quarantine_fix_ticket: None,
        }
    }

    /// Issues the ticket `value` at `now`, in place of any other. Where the calendar ends before
    /// the ticket does, none is issued.
    pub fn issue_ticket_at(&mut self, value: &str, now: Timestamp) -> (issued: bool)
        ensures
            issued == (crate::clock::shifted(now, QUARANTINE_FIX_TICKET_TTL_SECS as int) is Some),
            issued ==> ticket_issued(*old(self), *final(self), value@, now),
            !issued ==> *final(self) == *old(self),
    {
        match shift(now, QUARANTINE_FIX_TICKET_TTL_SECS) {
            Some(expires_at) => {
                self.quarantine_fix_ticket =
                Some(QuarantineFixTicket { value: value.to_owned(), expires_at });
                true
            },
            None => false,
        }
    }

    /// Issues a ticket, in place of any other.
    pub fn issue_quarantine_fix_ticket(&mut self) -> (ticket: Result<String, String>)
        ensures
            match ticket {
                Ok(t) => t@.len() == 36 && exists|now: Timestamp|
                    now.in_calendar() && now.secs >= 0 && #[trigger] ticket_issued(
                        *old(self),
                        *final(self),
                        t@,
                        now,
                    ),
                Err(e) => e@ == "The calendar ends before the ticket does"@ && *final(self) == *old(
                    self,
                ) && exists|now: Timestamp|
                    now.in_calendar() && now.secs >= 0 && #[trigger] crate::clock::shifted(
                        now,
                        QUARANTINE_FIX_TICKET_TTL_SECS as int,
                    ) is None,
            },
    {
        let value: String = new_ticket();
        let now: Timestamp = crate::clock::now();
        if self.issue_ticket_at(value.as_str(), now) {
            Ok(value)
        } else {
            Err("The calendar ends before the ticket does".to_owned())
        }
    }

    /// Takes the ticket away and checks the one that is shown at `now` against it.
    pub fn consume_ticket_at(&mut self, shown: &str, now: Timestamp) -> (outcome: Result<(), String>)
        ensures
            ticket_taken(*old(self), *final(self)),
            outcome_view(outcome) == ticket_checked(
                old(self).quarantine_fix_ticket,
                shown@,
                now,
            ),
    {
        let slot: Option<QuarantineFixTicket> = self.quarantine_fix_ticket.take();
        match slot {
            None => Err("Missing security confirmation, please click fix again".to_owned()),
            Some(t) => if t.expires_at.is_before(&now) {
                Err("Security confirmation expired, please click fix again".to_owned())
            } else if !eq_str(t.value.as_str(), shown) {
                Err("Security confirmation invalid, please click fix again".to_owned())
            } else {
                Ok(())
            },
        }
    }

    /// Takes the ticket away and checks the one that is shown against it.
    pub fn consume_quarantine_fix_ticket(&mut self, provided_ticket: &str) -> (outcome: Result<
        (),
        String,
    >)
        ensures
            ticket_taken(*old(self), *final(self)),
            exists|now: Timestamp|
                now.in_calendar() && now.secs >= 0 && outcome_view(outcome)
                    == #[trigger] ticket_checked(
                    old(self).quarantine_fix_ticket,
                    provided_ticket@,
                    now,
                ),
    {
        let now: Timestamp = crate::clock::now();
        self.consume_ticket_at(provided_ticket, now)
    }
}

/// A ticket that was shown is gone: whatever is shown next, and whenever, is refused.
pub proof fn tickets_work_once(before: AppState, after: AppState, shown: Seq<char>, now: Timestamp)
    requires
        ticket_taken(before, after),
    ensures
        ticket_checked(after.quarantine_fix_ticket, shown, now) is Err,
{
}

/// A ticket that was issued is good as long as it has not expired, and for nobody who shows
/// another one.
pub proof fn fresh_tickets_are_good(
    before: AppState,
    after: AppState,
    value: Seq<char>,
    issued: Timestamp,
    shown: Seq<char>,
    now: Timestamp,
)
    requires
        ticket_issued(before, after, value, issued),
    ensures
        !(Timestamp {
            secs: (issued.secs + QUARANTINE_FIX_TICKET_TTL_SECS) as i64,
            nanos: issued.nanos,
        }).earlier(now) ==> (ticket_checked(after.quarantine_fix_ticket, shown, now) is Ok
            <==> shown == value),
        (Timestamp {
            secs: (issued.secs + QUARANTINE_FIX_TICKET_TTL_SECS) as i64,
            nanos: issued.nanos,
        }).earlier(now) ==> ticket_checked(after.quarantine_fix_ticket, shown, now) is Err,
{
}


/// A ticket is good up to and at the point in time two minutes after it was issued, for the very
/// text that was issued and no other; after that it has expired whatever is shown, and without one
/// it is missing. Issuing one touches nothing else.
pub proof fn tickets_are_good_for_two_minutes(
    before: AppState,
    after: AppState,
    value: Seq<char>,
    issued: Timestamp,
    shown: Seq<char>,
    now: Timestamp,
)
    requires
        ticket_issued(before, after, value, issued),
    ensures
        now.secs < issued.secs + 120 || (now.secs == issued.secs + 120 && now.nanos <= issued.nanos)
            ==> ticket_checked(after.quarantine_fix_ticket, value, now) is Ok && (shown != value
            ==> ticket_checked(after.quarantine_fix_ticket, shown, now) == Err::<(), Seq<char>>(
            "Security confirmation invalid, please click fix again"@,
        )),
        now.secs > issued.secs + 120 || (now.secs == issued.secs + 120 && now.nanos > issued.nanos)
            ==> ticket_checked(after.quarantine_fix_ticket, shown, now) == Err::<(), Seq<char>>(
            "Security confirmation expired, please click fix again"@,
        ),
        ticket_checked(None, shown, now) == Err::<(), Seq<char>>(
            "Missing security confirmation, please click fix again"@,
        ),
        after.store == before.store,
        after.running == before.running,
        after.proxy_stats == before.proxy_stats,
        after.token_tracker == before.token_tracker,
{
}

/// Showing a ticket takes it away and touches nothing else.
pub proof fn shown_tickets_are_taken(before: AppState, after: AppState)
    requires
        ticket_taken(before, after),
    ensures
        after.quarantine_fix_ticket is None,
        after.store == before.store,
        after.running == before.running,
        after.proxy_stats == before.proxy_stats,
        after.token_tracker == before.token_tracker,
{
}

} // verus!
