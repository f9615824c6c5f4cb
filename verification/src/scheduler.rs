//! The background keepalive: the active account follows the login document on disk, and the
//! tokens of the others are renewed from time to time.
use crate::account::{copy_opt, Account, AccountStore, DiskAuth, KeepaliveState, TokenResponse};
use crate::clock::Timestamp;
use crate::quota::Persist;
use crate::signals::{is_logged_out_error, is_reused_or_revoked_error};
use crate::switch::{SwitchEntry, SwitchReason};
use crate::text::eq_str;
use vstd::prelude::*;

verus! {

/// An account whose tokens are to be renewed.
#[derive(Debug)]
pub struct RefreshTarget {
    pub id: String,
    pub name: String,
    pub refresh_token: String,
}

/// A renewal that failed, for the user to see.
#[derive(Debug)]
pub struct RefreshFailed {
    pub account_name: String,
    pub reason: String,
}

// ---------------------------------------------------------------------------
// Whose tokens are renewed
// ---------------------------------------------------------------------------

/// The refresh token of an account: its own, else that of its login document.
pub open spec fn any_refresh_token(a: Account) -> Option<Seq<char>> {
    match a.refresh_token {
        Some(rt) => Some(rt@),
        None => crate::account::refresh_token_in(a.auth_json@),
    }
}

/// `id` is among the ids.
pub open spec fn listed(ids: Seq<String>, id: Seq<char>) -> bool {
    exists|i: int| 0 <= i < ids.len() && (#[trigger] ids[i])@ == id
}

/// What is known of a target: its id, its name and its refresh token.
pub type TargetView = (Seq<char>, Seq<char>, Seq<char>);

/// The accounts that are not active, are due and have a refresh token, in their order.
pub open spec fn keepalive_targets(
    accounts: Seq<Account>,
    current: Option<Seq<char>>,
    due: Seq<String>,
) -> Seq<TargetView>
    decreases accounts.len(),
{
    if accounts.len() == 0 {
        Seq::empty()
    } else {
        let rest = keepalive_targets(accounts.drop_last(), current, due);
        let a = accounts.last();
        match any_refresh_token(a) {
            Some(rt) => if current != Some(a.id@) && listed(due, a.id@) {
                rest.push((a.id@, a.name@, rt))
            } else {
                rest
            },
            None => rest,
        }
    }
}

/// What a list of targets says.
pub open spec fn target_views(list: Seq<RefreshTarget>) -> Seq<TargetView> {
    list.map_values(|t: RefreshTarget| (t.id@, t.name@, t.refresh_token@))
}

fn is_listed(ids: &Vec<String>, id: &str) -> (b: bool)
    ensures
        b == listed(ids@, id@),
{
    let mut i: usize = 0;
    while i < ids.len()
        invariant
            i <= ids@.len(),
            forall|k: int| 0 <= k < i ==> (#[trigger] ids@[k])@ != id@,
        decreases ids@.len() - i,
    {
        if eq_str(ids[i].as_str(), id) {
            assert(ids@[i as int]@ == id@);
            return true;
        }
        i += 1;
    }
    false
}

/// The accounts whose tokens are to be renewed: those that are due but for the active one.
pub fn collect_targets(store: &AccountStore, due: &Vec<String>) -> (targets: Vec<RefreshTarget>)
    ensures
        target_views(targets@) == keepalive_targets(
            store.accounts@,
            crate::json::opt_text(store.current),
            due@,
        ),
{
    let mut targets: Vec<RefreshTarget> = Vec::new();
    let ghost current = crate::json::opt_text(store.current);
    let mut i: usize = 0;
    assert(target_views(targets@) =~= keepalive_targets(store.accounts@.take(0), current, due@));
    while i < store.accounts.len()
        invariant
            i <= store.accounts@.len(),
            current == crate::json::opt_text(store.current),
            target_views(targets@) == keepalive_targets(
                store.accounts@.take(i as int),
                current,
                due@,
            ),
        decreases store.accounts@.len() - i,
    {
        let a: &Account = &store.accounts[i];
        assert(store.accounts@.take(i + 1).drop_last() =~= store.accounts@.take(i as int));
        let active: bool = match &store.current {
            Some(c) => eq_str(c.as_str(), a.id.as_str()),
            None => false,
        };
        let token: Option<String> = match &a.refresh_token {
            Some(rt) => Some(rt.clone()),
            None => AccountStore::extract_refresh_token(&a.auth_json),
        };
        if let Some(refresh_token) = token {
            if !active && is_listed(due, a.id.as_str()) {
                let ghost before = targets@;
                let ghost x = (a.id@, a.name@, refresh_token@);
                targets.push(
                    RefreshTarget { id: a.id.clone(), name: a.name.clone(), refresh_token },
                );
                assert(target_views(targets@) =~= target_views(before).push(x));
            }
        }
        i += 1;
    }
    assert(store.accounts@.take(store.accounts@.len() as int) =~= store.accounts@);
    targets
}

/// The active account is never among those whose tokens are renewed.
pub proof fn active_account_is_left_alone(
    accounts: Seq<Account>,
    current: Seq<char>,
    due: Seq<String>,
)
    ensures
        forall|i: int|
            0 <= i < keepalive_targets(accounts, Some(current), due).len() ==> (
            #[trigger] keepalive_targets(accounts, Some(current), due)[i]).0 != current,
    decreases accounts.len(),
{
    if accounts.len() > 0 {
        active_account_is_left_alone(accounts.drop_last(), current, due);
        let rest = keepalive_targets(accounts.drop_last(), Some(current), due);
        let all = keepalive_targets(accounts, Some(current), due);
        assert forall|i: int| 0 <= i < all.len() implies (#[trigger] all[i]).0 != current by {
            if i < rest.len() {
                assert(all[i] == rest[i]);
            }
        }
    }
}

// ---------------------------------------------------------------------------
// A round
// ---------------------------------------------------------------------------

/// Where a round stands.
#[derive(Debug, Clone, Copy, PartialEq, Eq, Structural)]
pub enum KeepalivePhase {
    /// The login document on disk is being read.
    Disk,
    /// A refresh is on its way.
    Refreshing,
    /// The round is over.
    Done,
}

/// A round of the keepalive.
#[derive(Debug)]
pub struct KeepaliveRound {
    pub phase: KeepalivePhase,
    pub targets: Vec<RefreshTarget>,
    pub at: usize,
    /// The time to the next round, in minutes.
    pub interval: u32,
    /// There is something new to show.
    pub news: bool,
}

/// What has happened to a round.
#[derive(Debug)]
pub enum KeepaliveEvent {
    /// The login document on disk was read, where there is one; these accounts are due.
    DiskRead(Option<DiskAuth>, Vec<String>),
    /// A refresh came back.
    Refreshed(Result<TokenResponse, String>),
}

/// What is to be done for a round.
#[derive(Debug)]
pub enum KeepaliveAction {
    /// Read the login document on disk, and see which accounts are due.
    ReadDisk,
    /// Exchange this refresh token for new tokens.
    Refresh { refresh_token: String },
    /// The round is over: begin another one after so many seconds. Where there is something new,
    /// the accounts are shown anew.
    Again { seconds: u64, news: bool },
    /// Nothing: the event does not belong to where the round stands.
    Wait,
}

/// A step of a round: what to do with the store, what to log and to report, and what to do next.
#[derive(Debug)]
pub struct KeepaliveStep {
    pub save: Persist,
    pub entry: Option<SwitchEntry>,
    pub failed: Option<RefreshFailed>,
    pub next: KeepaliveAction,
}

/// The round goes on with the target at `at`, or is over.
pub open spec fn keepalive_goes_on(r: KeepaliveRound, at: int, next: KeepaliveAction) -> bool {
    if at < r.targets@.len() {
        &&& r.phase == KeepalivePhase::Refreshing
        &&& r.at == at
        &&& next matches KeepaliveAction::Refresh { refresh_token } && refresh_token
            == r.targets@[at].refresh_token
    } else {
        &&& r.phase == KeepalivePhase::Done
        &&& next == (KeepaliveAction::Again { seconds: (r.interval * 60) as u64, news: r.news })
    }
}

/// The login document on disk is that of the active account, and is another one than the account
/// holds.
pub open spec fn disk_is_news(store: AccountStore, disk: Option<DiskAuth>) -> bool {
    crate::proxy::disk_is_current(store, disk) && crate::json::compared(
        store.current_account()->0.auth_json,
    ) != crate::json::compared(disk->0.auth)
}

/// What follows when the login document on disk was read.
pub open spec fn keepalive_disk(
    r0: KeepaliveRound,
    s0: AccountStore,
    disk: Option<DiskAuth>,
    due: Seq<String>,
    r: KeepaliveRound,
    s1: AccountStore,
    out: KeepaliveStep,
) -> bool {
    &&& if disk_is_news(s0, disk) {
        crate::account::current_changed(
            s0,
            s1,
            |a: Account, b: Account| crate::account::auth_taken(a, b, disk->0),
        ) && out.save == Persist::BestEffort
    } else {
        crate::account::unchanged(s0, s1) && out.save == Persist::No
    }
    &&& r.news == (r0.news || disk_is_news(s0, disk))
    &&& target_views(r.targets@) == keepalive_targets(
        s1.accounts@,
        crate::json::opt_text(s1.current),
        due,
    )
    &&& out.entry is None && out.failed is None
    &&& keepalive_goes_on(r, 0, out.next)
}

/// The tokens of a renewal stand in the account, and so does that it went well.
pub open spec fn renewed(before: Account, after: Account, t: TokenResponse, now: Timestamp) -> bool {
    &&& crate::account::tokens_applied(
        before,
        Account { keepalive: before.keepalive, ..after },
        t,
        now,
    )
    &&& after.keepalive == KeepaliveState {
        last_attempt: Some(now),
        last_error: None,
        ..before.keepalive
    }
}

/// What a failed renewal leaves in the account: that it failed and why. A token that is of no more
/// use ends the keepalive of the account and marks it.
pub open spec fn renewal_failed(
    before: Account,
    after: Account,
    reason: String,
    now: Timestamp,
) -> bool {
    let lower = crate::text::lowered(reason@);
    let out = crate::signals::tells_signed_out(lower);
    let dead = crate::signals::tells_revoked(lower) || out;
    after == Account {
        keepalive: KeepaliveState {
            inactive_refresh_enabled: before.keepalive.inactive_refresh_enabled && !dead,
            last_attempt: Some(now),
            last_error: Some(reason),
        },
        is_logged_out: before.is_logged_out || out,
        is_token_invalid: before.is_token_invalid || (dead && !out),
        ..before
    }
}

/// The tokens are thrown away: the account has become the active one, or its keepalive was
/// switched off.
pub open spec fn renewal_unwanted(store: AccountStore, id: Seq<char>) -> bool {
    ||| crate::json::opt_text(store.current) == Some(id)
    ||| crate::account::lookup(store.accounts@, id) matches Some(a)
        && !a.keepalive.inactive_refresh_enabled
}

/// What follows when a refresh came back.
pub open spec fn keepalive_refreshed(
    r0: KeepaliveRound,
    s0: AccountStore,
    result: Result<TokenResponse, String>,
    now: Timestamp,
    r: KeepaliveRound,
    s1: AccountStore,
    out: KeepaliveStep,
) -> bool {
    let target = r0.targets@[r0.at as int];
    &&& r.targets@ == r0.targets@
    &&& keepalive_goes_on(r, r0.at + 1, out.next)
    &&& match result {
        Ok(t) => {
            &&& out.failed is None
            &&& if renewal_unwanted(s0, target.id@) {
                &&& crate::account::unchanged(s0, s1)
                &&& out.save == Persist::No && out.entry is None
                &&& r.news == r0.news
            } else {
                &&& crate::account::account_changed(
                    s0,
                    s1,
                    target.id@,
                    |a: Account, b: Account| renewed(a, b, t, now),
                )
                &&& out.save == Persist::BestEffort
                &&& r.news
                &&& out.entry matches Some(e) && e.from_name is None && e.to_name == target.name
                    && e.reason == SwitchReason::BackgroundKeepalive && e.from_quota is None
                    && e.to_quota is None
            }
        },
        Err(reason) => {
            &&& crate::account::account_changed(
                s0,
                s1,
                target.id@,
                |a: Account, b: Account| renewal_failed(a, b, reason, now),
            )
            &&& out.save == Persist::BestEffort
            &&& out.entry is None
            &&& r.news
            &&& out.failed matches Some(f) && f.account_name == target.name && f.reason == reason
        },
    }
}

/// One step of a round.
pub open spec fn keepalive_step(
    r0: KeepaliveRound,
    s0: AccountStore,
    event: KeepaliveEvent,
    now: Timestamp,
    r: KeepaliveRound,
    s1: AccountStore,
    out: KeepaliveStep,
) -> bool {
    &&& r.interval == r0.interval
    &&& match (r0.phase, event) {
        (KeepalivePhase::Disk, KeepaliveEvent::DiskRead(disk, due)) => keepalive_disk(
            r0,
            s0,
            disk,
            due@,
            r,
            s1,
            out,
        ),
        (KeepalivePhase::Refreshing, KeepaliveEvent::Refreshed(result)) => if r0.at
            < r0.targets@.len() {
            keepalive_refreshed(r0, s0, result, now, r, s1, out)
        } else {
            keepalive_waits(r0, s0, r, s1, out)
        },
        _ => keepalive_waits(r0, s0, r, s1, out),
    }
}

/// Nothing happens.
pub open spec fn keepalive_waits(
    r0: KeepaliveRound,
    s0: AccountStore,
    r: KeepaliveRound,
    s1: AccountStore,
    out: KeepaliveStep,
) -> bool {
    &&& crate::account::unchanged(s0, s1)
    &&& r == r0
    &&& out.save == Persist::No && out.entry is None && out.failed is None
    &&& out.next is Wait
}

impl KeepaliveRound {
    fn go_on(&mut self, at: usize) -> (next: KeepaliveAction)
        ensures
            final(self).targets@ == old(self).targets@,
            final(self).interval == old(self).interval,
            final(self).news == old(self).news,
            keepalive_goes_on(*final(self), at as int, next),
    {
        if at < self.targets.len() {
            self.phase = KeepalivePhase::Refreshing;
            self.at = at;
            KeepaliveAction::Refresh { refresh_token: self.targets[at].refresh_token.clone() }
        } else {
            self.phase = KeepalivePhase::Done;
            let seconds: u64 = self.interval as u64 * 60;
            KeepaliveAction::Again { seconds, news: self.news }
        }
    }

    fn on_disk(&mut self, store: &mut AccountStore, disk: &Option<DiskAuth>, due: &Vec<String>) -> (
        out: KeepaliveStep)
        ensures
            final(self).interval == old(self).interval,
            keepalive_disk(*old(self), *old(store), *disk, due@, *final(self), *final(store), out),
    {
        let mut save: Persist = Persist::No;
        if let Some(d) = disk {
            if let Some(i) = store.find_current() {
                if AccountStore::auth_identity_matches(&store.accounts[i].auth_json, &d.auth)
                    && !store.accounts[i].auth_json.same(&d.auth) {
                    if let Some(id) = copy_opt(&store.current) {
                        let taken: bool = store.sync_account_from_auth_json(id.as_str(), d);
                        assert(taken);
                    }
                    save = Persist::BestEffort;
                    self.news = true;
                }
            }
        }
        self.targets = collect_targets(store, due);
        let next: KeepaliveAction = self.go_on(0);
        KeepaliveStep { save, entry: None, failed: None, next }
    }

    fn on_renewed(&mut self, store: &mut AccountStore, t: &TokenResponse, now: Timestamp) -> (out:
        KeepaliveStep)
        requires
            now.in_calendar(),
            old(self).at < old(self).targets@.len(),
        ensures
            final(self).interval == old(self).interval,
            keepalive_refreshed(
                *old(self),
                *old(store),
                Ok(*t),
                now,
                *final(self),
                *final(store),
                out,
            ),
    {
        let at: usize = self.at;
        let size: usize = self.targets.len();
        assert(at < size);
        let after: usize = at + 1;
        let active: bool = match &store.current {
            Some(c) => eq_str(c.as_str(), self.targets[at].id.as_str()),
            None => false,
        };
        let place: Option<usize> = store.find(self.targets[at].id.as_str());
        let off: bool = match place {
            Some(i) => !store.accounts[i].keepalive.inactive_refresh_enabled,
            None => false,
        };
        if active || off {
            let next: KeepaliveAction = self.go_on(after);
            return KeepaliveStep { save: Persist::No, entry: None, failed: None, next };
        }
        if let Some(i) = place {
            AccountStore::apply_refreshed_tokens(&mut store.accounts[i], t, now);
            store.accounts[i].keepalive.last_attempt = Some(now);
            store.accounts[i].keepalive.last_error = None;
        }
        self.news = true;
        let entry: SwitchEntry = SwitchEntry {
            from_name: None,
            to_name: self.targets[at].name.clone(),
            reason: SwitchReason::BackgroundKeepalive,
            from_quota: None,
            to_quota: None,
        };
        let next: KeepaliveAction = self.go_on(after);
        KeepaliveStep { save: Persist::BestEffort, entry: Some(entry), failed: None, next }
    }

    fn on_failed(&mut self, store: &mut AccountStore, reason: String, now: Timestamp) -> (out:
        KeepaliveStep)
        requires
            old(self).at < old(self).targets@.len(),
        ensures
            final(self).interval == old(self).interval,
            keepalive_refreshed(
                *old(self),
                *old(store),
                Err(reason),
                now,
                *final(self),
                *final(store),
                out,
            ),
    {
        let at: usize = self.at;
        let size: usize = self.targets.len();
        assert(at < size);
        let after: usize = at + 1;
        let signed_out: bool = is_logged_out_error(reason.as_str());
        let dead: bool = is_reused_or_revoked_error(reason.as_str()) || signed_out;
        if let Some(i) = store.find(self.targets[at].id.as_str()) {
            let a: &mut Account = &mut store.accounts[i];
            a.keepalive.last_attempt = Some(now);
            a.keepalive.last_error = Some(reason.clone());
            if dead {
                a.keepalive.inactive_refresh_enabled = false;
                if signed_out {
                    a.is_logged_out = true;
                } else {
                    a.is_token_invalid = true;
                }
            }
        }
        self.news = true;
        let failed: RefreshFailed = RefreshFailed {
            account_name: self.targets[at].name.clone(),
            reason,
        };
        let next: KeepaliveAction = self.go_on(after);
        KeepaliveStep { save: Persist::BestEffort, entry: None, failed: Some(failed), next }
    }

    /// Takes the round one step on.
    pub fn step(&mut self, store: &mut AccountStore, event: KeepaliveEvent, now: Timestamp) -> (out:
        KeepaliveStep)
        requires
            now.in_calendar(),
        ensures
            keepalive_step(*old(self), *old(store), event, now, *final(self), *final(store), out),
    {
        match (self.phase, event) {
            (KeepalivePhase::Disk, KeepaliveEvent::DiskRead(disk, due)) => {
                self.on_disk(store, &disk, &due)
            },
            (KeepalivePhase::Refreshing, KeepaliveEvent::Refreshed(result)) => {
                if self.at < self.targets.len() {
                    match result {
                        Ok(t) => self.on_renewed(store, &t, now),
                        Err(reason) => self.on_failed(store, reason, now),
                    }
                } else {
                    KeepaliveStep {
                        save: Persist::No,
                        entry: None,
                        failed: None,
                        next: KeepaliveAction::Wait,
                    }
                }
            },
            _ => KeepaliveStep {
                save: Persist::No,
                entry: None,
                failed: None,
                next: KeepaliveAction::Wait,
            },
        }
    }
}

/// Starts a round. Where the keepalive is switched off, the next round is put off instead.
pub fn start(store: &AccountStore) -> (start: (KeepaliveRound, KeepaliveAction))
    ensures
        start.0.targets@.len() == 0,
        !start.0.news,
        start.0.interval == if store.settings.refresh_interval_minutes == 0 {
            30
        } else {
            store.settings.refresh_interval_minutes
        },
        if store.settings.background_refresh {
            start.0.phase == KeepalivePhase::Disk && start.1 is ReadDisk
        } else {
            start.0.phase == KeepalivePhase::Done && start.1 == (KeepaliveAction::Again {
                seconds: 60,
                news: false,
            })
        },
{
    let interval: u32 = if store.settings.refresh_interval_minutes == 0 {
        30
    } else {
        store.settings.refresh_interval_minutes
    };
    let round: KeepaliveRound = KeepaliveRound {
        phase: if store.settings.background_refresh {
            KeepalivePhase::Disk
        } else {
            KeepalivePhase::Done
        },
        targets: Vec::new(),
        at: 0,
        interval,
        news: false,
    };
    if store.settings.background_refresh {
        (round, KeepaliveAction::ReadDisk)
    } else {
        (round, KeepaliveAction::Again { seconds: 60, news: false })
    }
}

/// The keepalive changes neither which accounts there are nor which one is active, nor the
/// settings.
pub proof fn keepalive_keeps_the_accounts(
    r0: KeepaliveRound,
    s0: AccountStore,
    event: KeepaliveEvent,
    now: Timestamp,
    r: KeepaliveRound,
    s1: AccountStore,
    out: KeepaliveStep,
)
    requires
        keepalive_step(r0, s0, event, now, r, s1, out),
    ensures
        crate::account::same_ids(s0.accounts@, s1.accounts@),
        s1.current == s0.current,
        s1.settings == s0.settings,
{
    crate::account::lemma_place_from(s0.accounts@, r0.targets@[r0.at as int].id@, 0);
    if let Some(c) = s0.current {
        crate::account::lemma_place_from(s0.accounts@, c@, 0);
    }
}

/// A refresh that comes back never touches the active account unless it fails: its login is left to
/// whoever uses it.
pub proof fn renewal_leaves_the_active_account(
    r0: KeepaliveRound,
    s0: AccountStore,
    t: TokenResponse,
    now: Timestamp,
    r: KeepaliveRound,
    s1: AccountStore,
    out: KeepaliveStep,
)
    requires
        keepalive_step(r0, s0, KeepaliveEvent::Refreshed(Ok(t)), now, r, s1, out),
    ensures
        s1.current_account() == s0.current_account(),
{
    if let Some(c) = s0.current {
        crate::account::lemma_place_from(s0.accounts@, c@, 0);
        crate::account::lemma_place_from(s1.accounts@, c@, 0);
        let id = r0.targets@[r0.at as int].id@;
        crate::account::lemma_place_from(s0.accounts@, id, 0);
        keepalive_keeps_the_accounts(r0, s0, KeepaliveEvent::Refreshed(Ok(t)), now, r, s1, out);
        let p = crate::account::place_from(s0.accounts@, c@, 0);
        let q = crate::account::place_from(s1.accounts@, c@, 0);
        if q < p {
            assert(s1.accounts@[q].id == s0.accounts@[q].id);
        }
        if p < q {
            assert(s1.accounts@[p].id == s0.accounts@[p].id);
        }
    }
}

/// A token that is of no more use ends the keepalive of the account, so that it is not tried again.
pub proof fn dead_tokens_end_the_keepalive(
    before: Account,
    after: Account,
    reason: String,
    now: Timestamp,
)
    requires
        renewal_failed(before, after, reason, now),
        crate::signals::tells_revoked(crate::text::lowered(reason@))
            || crate::signals::tells_signed_out(crate::text::lowered(reason@)),
    ensures
        !after.keepalive.inactive_refresh_enabled,
        !after.usable(),
{
}


/// With one account more there is one target more just where that account is not the active one,
/// is due and has a refresh token of its own or in its login document; it comes last, and the
/// others stay as they were.
pub proof fn due_accounts_with_a_token_are_renewed(
    accounts: Seq<Account>,
    a: Account,
    current: Option<Seq<char>>,
    due: Seq<String>,
)
    ensures
        keepalive_targets(Seq::empty(), current, due) == Seq::<TargetView>::empty(),
        ({
            let before = keepalive_targets(accounts, current, due);
            let after = keepalive_targets(accounts.push(a), current, due);
            let is_due = exists|i: int| 0 <= i < due.len() && (#[trigger] due[i])@ == a.id@;
            &&& current == Some(a.id@) ==> after == before
            &&& !is_due ==> after == before
            &&& a.refresh_token is None && crate::account::refresh_token_in(a.auth_json@) is None
                ==> after == before
            &&& current != Some(a.id@) && is_due && a.refresh_token is Some ==> after
                == before.push((a.id@, a.name@, a.refresh_token->0@))
            &&& current != Some(a.id@) && is_due && a.refresh_token is None
                && crate::account::refresh_token_in(a.auth_json@) is Some ==> after == before.push(
                (a.id@, a.name@, crate::account::refresh_token_in(a.auth_json@)->0),
            )
        }),
{
    assert(accounts.push(a).drop_last() =~= accounts);
}

/// Where the login document on disk is of the identity of the active account and another one than
/// the account holds, the account takes it over, which is written to disk and shown; in every other
/// case the accounts are left as they are and nothing is written.
pub proof fn news_on_disk_are_taken_over(
    r0: KeepaliveRound,
    s0: AccountStore,
    disk: Option<DiskAuth>,
    due: Vec<String>,
    now: Timestamp,
    r: KeepaliveRound,
    s1: AccountStore,
    out: KeepaliveStep,
)
    requires
        keepalive_step(r0, s0, KeepaliveEvent::DiskRead(disk, due), now, r, s1, out),
        r0.phase == KeepalivePhase::Disk,
    ensures
        (disk is None || s0.current_account() is None) ==> s1.accounts@ == s0.accounts@ && out.save
            == Persist::No && r.news == r0.news,
        disk is Some && s0.current_account() is Some && !crate::account::one_identity(
            s0.current_account()->0.auth_json@,
            disk->0.auth@,
        ) ==> s1.accounts@ == s0.accounts@ && out.save == Persist::No && r.news == r0.news,
        disk is Some && s0.current_account() is Some && crate::json::compared(
            s0.current_account()->0.auth_json,
        ) == crate::json::compared(disk->0.auth) ==> s1.accounts@ == s0.accounts@ && out.save
            == Persist::No && r.news == r0.news,
        disk is Some && s0.current_account() is Some && crate::account::one_identity(
            s0.current_account()->0.auth_json@,
            disk->0.auth@,
        ) && crate::json::compared(s0.current_account()->0.auth_json) != crate::json::compared(
            disk->0.auth,
        ) ==> s1.current_account() is Some && s1.current_account()->0.auth_json@ == disk->0.auth@
            && out.save == Persist::BestEffort && r.news,
        out.entry is None,
        out.failed is None,
        r.interval == r0.interval,
{
    if let Some(c) = s0.current {
        crate::account::lemma_place_from(s0.accounts@, c@, 0);
        crate::account::lemma_place_from(s1.accounts@, c@, 0);
        keepalive_keeps_the_accounts(r0, s0, KeepaliveEvent::DiskRead(disk, due), now, r, s1, out);
        let p = crate::account::place_from(s0.accounts@, c@, 0);
        let q = crate::account::place_from(s1.accounts@, c@, 0);
        if s0.current_account() is Some && q < p {
            assert(s1.accounts@[q].id == s0.accounts@[q].id);
        }
    }
}

/// One target is renewed after the other, each with its own refresh token; after the last the
/// round is over, and the next one begins after the minutes that were set.
pub proof fn targets_are_renewed_in_turn(
    r0: KeepaliveRound,
    s0: AccountStore,
    result: Result<TokenResponse, String>,
    now: Timestamp,
    r: KeepaliveRound,
    s1: AccountStore,
    out: KeepaliveStep,
)
    requires
        keepalive_step(r0, s0, KeepaliveEvent::Refreshed(result), now, r, s1, out),
        r0.phase == KeepalivePhase::Refreshing,
        r0.at < r0.targets@.len(),
    ensures
        r.targets@ == r0.targets@,
        r.interval == r0.interval,
        r0.at + 1 < r0.targets@.len() ==> r.at == r0.at + 1 && r.phase == KeepalivePhase::Refreshing
            && (out.next matches KeepaliveAction::Refresh { refresh_token } && refresh_token
            == r0.targets@[r0.at + 1].refresh_token),
        r0.at + 1 >= r0.targets@.len() ==> r.phase == KeepalivePhase::Done && (
        out.next matches KeepaliveAction::Again { seconds, news } && seconds == r0.interval * 60
            && news == r.news),
{
}

/// New tokens stand in the account that they were fetched for, which is noted and written to disk;
/// they are thrown away where the account became the active one or its keepalive was switched off.
/// No other account changes.
pub proof fn what_renewals_do(
    r0: KeepaliveRound,
    s0: AccountStore,
    t: TokenResponse,
    now: Timestamp,
    r: KeepaliveRound,
    s1: AccountStore,
    out: KeepaliveStep,
    i: int,
)
    requires
        keepalive_step(r0, s0, KeepaliveEvent::Refreshed(Ok(t)), now, r, s1, out),
        r0.phase == KeepalivePhase::Refreshing,
        r0.at < r0.targets@.len(),
        0 <= i < s0.accounts@.len(),
    ensures
        out.failed is None,
        s1.accounts@.len() == s0.accounts@.len(),
        s0.accounts@[i].id@ != r0.targets@[r0.at as int].id@ ==> s1.accounts@[i]
            == s0.accounts@[i],
        (s0.current matches Some(c) && c@ == r0.targets@[r0.at as int].id@) ==> s1.accounts@
            == s0.accounts@ && out.save == Persist::No && out.entry is None && r.news == r0.news,
        (crate::account::lookup(s0.accounts@, r0.targets@[r0.at as int].id@) matches Some(a)
            && !a.keepalive.inactive_refresh_enabled) ==> s1.accounts@ == s0.accounts@ && out.save
            == Persist::No && out.entry is None && r.news == r0.news,
        (crate::account::lookup(s0.accounts@, r0.targets@[r0.at as int].id@) matches Some(a)
            && a.keepalive.inactive_refresh_enabled) && !(s0.current matches Some(c) && c@
            == r0.targets@[r0.at as int].id@) ==> ({
            &&& out.save == Persist::BestEffort
            &&& r.news
            &&& (out.entry matches Some(e) && e.to_name == r0.targets@[r0.at as int].name
                && e.from_name is None && e.reason == SwitchReason::BackgroundKeepalive)
            &&& crate::account::lookup(s1.accounts@, r0.targets@[r0.at as int].id@) is Some
            &&& ({
                let a = crate::account::lookup(s0.accounts@, r0.targets@[r0.at as int].id@)->0;
                let b = crate::account::lookup(s1.accounts@, r0.targets@[r0.at as int].id@)->0;
                &&& (crate::json::field(a.auth_json@, "tokens"@) matches Some(o) && o is Object)
                    ==> crate::account::access_token_in(b.auth_json@) == Some(t.access_token@)
                &&& t.refresh_token is Some ==> crate::json::opt_text(b.refresh_token)
                    == crate::json::opt_text(t.refresh_token)
                &&& b.keepalive.last_attempt == Some(now)
                &&& b.keepalive.last_error is None
                &&& b.keepalive.inactive_refresh_enabled
                &&& b.id == a.id && b.name == a.name
            })
        }),
{
    let id = r0.targets@[r0.at as int].id@;
    crate::account::lemma_place_from(s0.accounts@, id, 0);
    if crate::account::lookup(s0.accounts@, id) is Some && !renewal_unwanted(s0, id) {
        let rel = |a: Account, b: Account| renewed(a, b, t, now);
        assert(crate::account::account_changed(s0, s1, id, rel));
        crate::account::lemma_lookup_after(s0, s1, id, rel);
        let a = crate::account::lookup(s0.accounts@, id)->0;
        let b = crate::account::lookup(s1.accounts@, id)->0;
        assert(renewed(a, b, t, now));
        if crate::json::field(a.auth_json@, "tokens"@) matches Some(o) && o is Object {
            crate::account::refreshed_accounts_hold_the_new_tokens(
                a,
                Account { keepalive: a.keepalive, ..b },
                t,
                now,
            );
        }
    }
}

/// A renewal that failed is remembered with its reason in the account that it was for, is shown and
/// written to disk. Only words for a sign-out or for a token of no more use mark the account and
/// end its keepalive.
pub proof fn what_failed_renewals_do(
    r0: KeepaliveRound,
    s0: AccountStore,
    reason: String,
    now: Timestamp,
    r: KeepaliveRound,
    s1: AccountStore,
    out: KeepaliveStep,
    i: int,
)
    requires
        keepalive_step(r0, s0, KeepaliveEvent::Refreshed(Err(reason)), now, r, s1, out),
        r0.phase == KeepalivePhase::Refreshing,
        r0.at < r0.targets@.len(),
        0 <= i < s0.accounts@.len(),
    ensures
        out.entry is None,
        out.save == Persist::BestEffort,
        r.news,
        out.failed matches Some(f) && f.account_name == r0.targets@[r0.at as int].name && f.reason
            == reason,
        s1.accounts@.len() == s0.accounts@.len(),
        s0.accounts@[i].id@ != r0.targets@[r0.at as int].id@ ==> s1.accounts@[i]
            == s0.accounts@[i],
        crate::account::lookup(s0.accounts@, r0.targets@[r0.at as int].id@) matches Some(a) ==> ({
            let b = crate::account::lookup(s1.accounts@, r0.targets@[r0.at as int].id@)->0;
            let low = crate::text::lowered(reason@);
            &&& crate::account::lookup(s1.accounts@, r0.targets@[r0.at as int].id@) is Some
            &&& b.keepalive.last_attempt == Some(now)
            &&& b.keepalive.last_error == Some(reason)
            &&& b.auth_json == a.auth_json && b.refresh_token == a.refresh_token && b.is_banned
                == a.is_banned
            &&& crate::signals::tells_signed_out(low) ==> b.is_logged_out && b.is_token_invalid
                == a.is_token_invalid && !b.keepalive.inactive_refresh_enabled
            &&& crate::signals::tells_revoked(low) && !crate::signals::tells_signed_out(low)
                ==> b.is_token_invalid && b.is_logged_out == a.is_logged_out
                && !b.keepalive.inactive_refresh_enabled
            &&& !crate::signals::tells_revoked(low) && !crate::signals::tells_signed_out(low)
                ==> b.is_token_invalid == a.is_token_invalid && b.is_logged_out == a.is_logged_out
                && b.keepalive.inactive_refresh_enabled == a.keepalive.inactive_refresh_enabled
        }),
{
    let id = r0.targets@[r0.at as int].id@;
    crate::account::lemma_place_from(s0.accounts@, id, 0);
    if crate::account::lookup(s0.accounts@, id) is Some {
        let rel = |a: Account, b: Account| renewal_failed(a, b, reason, now);
        crate::account::lemma_lookup_after(s0, s1, id, rel);
    }
}


/// An event that does not belong to where the round stands changes nothing, and neither does a
/// refresh after the last target.
pub proof fn strange_events_change_nothing(
    r0: KeepaliveRound,
    s0: AccountStore,
    event: KeepaliveEvent,
    now: Timestamp,
    r: KeepaliveRound,
    s1: AccountStore,
    out: KeepaliveStep,
)
    requires
        keepalive_step(r0, s0, event, now, r, s1, out),
        !(r0.phase == KeepalivePhase::Disk && event is DiskRead),
        !(r0.phase == KeepalivePhase::Refreshing && event is Refreshed && r0.at
            < r0.targets@.len()),
    ensures
        s1.accounts@ == s0.accounts@,
        s1.current == s0.current,
        s1.settings == s0.settings,
        r == r0,
        out.save == Persist::No,
        out.entry is None,
        out.failed is None,
        out.next is Wait,
{
}

} // verus!
