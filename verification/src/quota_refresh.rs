//! The scheduled refresh of quotas: a few accounts at a time, those that were not looked at for
//! the longest time first.
use crate::account::{copy_opt, Account, AccountStore, TokenResponse};
use crate::clock::Timestamp;
use crate::quota::Persist;
use crate::signals::{quota_trouble, QuotaTrouble};
use crate::switch::{SwitchEntry, SwitchReason};
use crate::usage::{usage_to_cached, UsageDisplay};
use vstd::prelude::*;

verus! {

// ---------------------------------------------------------------------------
// Whose turn it is
// ---------------------------------------------------------------------------

/// An account that may be looked at: its id, its name, and when it was last looked at.
pub type Aged = (Seq<char>, Seq<char>, Timestamp);

/// When the quota of an account was last looked at; before all time where it never was.
pub open spec fn last_seen(a: Account) -> Timestamp {
    match a.cached_quota {
        Some(q) => q.updated_at,
        None => Timestamp { secs: crate::clock::FIRST_SECOND, nanos: 0 },
    }
}

/// The accounts that can be used, in their order.
pub open spec fn usable_accounts(accounts: Seq<Account>) -> Seq<Aged>
    decreases accounts.len(),
{
    if accounts.len() == 0 {
        Seq::empty()
    } else {
        let rest = usable_accounts(accounts.drop_last());
        let a = accounts.last();
        if a.usable() {
            rest.push((a.id@, a.name@, last_seen(a)))
        } else {
            rest
        }
    }
}

/// The position at which one that was last looked at at `t` joins a queue: behind all that were
/// not looked at later.
pub open spec fn queue_place(queue: Seq<Aged>, t: Timestamp) -> int
    decreases queue.len(),
{
    if queue.len() == 0 || !t.earlier(queue.last().2) {
        queue.len() as int
    } else {
        queue_place(queue.drop_last(), t)
    }
}

/// The accounts by the time at which they were last looked at; of equal ones, the earlier one
/// stays first.
pub open spec fn queued(list: Seq<Aged>) -> Seq<Aged>
    decreases list.len(),
{
    if list.len() == 0 {
        Seq::empty()
    } else {
        let rest = queued(list.drop_last());
        rest.insert(queue_place(rest, list.last().2), list.last())
    }
}

/// The first `n` of a queue.
pub open spec fn first_few(queue: Seq<Aged>, n: int) -> Seq<Aged> {
    if n < queue.len() {
        queue.take(n)
    } else {
        queue
    }
}

/// The accounts whose turn it is.
pub open spec fn turn_of(store: AccountStore) -> Seq<Aged> {
    first_few(
        queued(usable_accounts(store.accounts@)),
        if store.settings.quota_refresh_batch == 0 {
            1
        } else {
            store.settings.quota_refresh_batch as int
        },
    )
}

/// The ids and the names of a queue.
pub open spec fn names_of(queue: Seq<Aged>) -> Seq<(Seq<char>, Seq<char>)> {
    queue.map_values(|x: Aged| (x.0, x.1))
}

/// What a list of targets says.
pub open spec fn target_list(list: Seq<(String, String)>) -> Seq<(Seq<char>, Seq<char>)> {
    list.map_values(|x: (String, String)| (x.0@, x.1@))
}

proof fn lemma_queue_place(queue: Seq<Aged>, t: Timestamp)
    ensures
        0 <= queue_place(queue, t) <= queue.len(),
        forall|i: int| queue_place(queue, t) <= i < queue.len() ==> t.earlier((#[trigger] queue[i]).2),
        queue_place(queue, t) > 0 ==> !t.earlier(queue[queue_place(queue, t) - 1].2),
    decreases queue.len(),
{
    if queue.len() > 0 && t.earlier(queue.last().2) {
        lemma_queue_place(queue.drop_last(), t);
        assert forall|i: int| queue_place(queue, t) <= i < queue.len() implies t.earlier(
            (#[trigger] queue[i]).2,
        ) by {
            if i < queue.len() - 1 {
                assert(queue.drop_last()[i] == queue[i]);
            }
        }
    }
}

/// In a queue nobody was looked at earlier than somebody before.
pub proof fn oldest_come_first(list: Seq<Aged>)
    ensures
        forall|i: int, j: int|
            0 <= i <= j < queued(list).len() ==> !(#[trigger] queued(list)[j]).2.earlier(
                (#[trigger] queued(list)[i]).2,
            ),
    decreases list.len(),
{
    if list.len() > 0 {
        let rest = queued(list.drop_last());
        let x = list.last();
        oldest_come_first(list.drop_last());
        lemma_queue_place(rest, x.2);
        let p = queue_place(rest, x.2);
        let all = queued(list);
        assert(all =~= rest.insert(p, x));
        assert forall|i: int, j: int| 0 <= i <= j < all.len() implies !(#[trigger] all[j]).2.earlier(
            (#[trigger] all[i]).2,
        ) by {
            let ri = if i < p { i } else { i - 1 };
            let rj = if j < p { j } else { j - 1 };
            if i != p && j != p {
                assert(!rest[rj].2.earlier(rest[ri].2));
            } else if i == p && j > p {
                assert(x.2.earlier(rest[rj].2));
            } else if j == p && i < p {
                assert(!rest[p - 1].2.earlier(rest[ri].2));
            }
        }
    }
}

/// A queue holds the accounts that it was made of, each as often as it was there.
pub proof fn queue_keeps_everyone(list: Seq<Aged>)
    ensures
        queued(list).to_multiset() == list.to_multiset(),
        queued(list).len() == list.len(),
    decreases list.len(),
{
    broadcast use vstd::seq_lib::group_to_multiset_ensures;

    if list.len() > 0 {
        let rest = queued(list.drop_last());
        let x = list.last();
        queue_keeps_everyone(list.drop_last());
        lemma_queue_place(rest, x.2);
        vstd::seq_lib::to_multiset_insert(rest, queue_place(rest, x.2), x);
        assert(list =~= list.drop_last().push(x));
    } else {
        assert(queued(list) =~= list);
    }
}

fn seen_at(a: &Account) -> (t: Timestamp)
    ensures
        t == last_seen(*a),
{
    match &a.cached_quota {
        Some(q) => q.updated_at,
        None => Timestamp { secs: crate::clock::FIRST_SECOND, nanos: 0 },
    }
}

spec fn aged_list(list: Seq<(String, String, Timestamp)>) -> Seq<Aged> {
    list.map_values(|x: (String, String, Timestamp)| (x.0@, x.1@, x.2))
}

/// The ids and the names of the accounts whose turn it is.
pub fn refresh_targets(store: &AccountStore) -> (targets: Vec<(String, String)>)
    ensures
        target_list(targets@) == names_of(turn_of(*store)),
{
    let mut queue: Vec<(String, String, Timestamp)> = Vec::new();
    let mut i: usize = 0;
    assert(aged_list(queue@) =~= queued(usable_accounts(store.accounts@.take(0))));
    while i < store.accounts.len()
        invariant
            i <= store.accounts@.len(),
            aged_list(queue@) == queued(usable_accounts(store.accounts@.take(i as int))),
        decreases store.accounts@.len() - i,
    {
        let a: &Account = &store.accounts[i];
        assert(store.accounts@.take(i + 1).drop_last() =~= store.accounts@.take(i as int));
        if a.is_usable() {
            let t: Timestamp = seen_at(a);
            let ghost before = queue@;
            let ghost rest = usable_accounts(store.accounts@.take(i as int));
            let ghost x = (a.id@, a.name@, t);
            assert(rest.push(x).drop_last() =~= rest);
            let mut at: usize = queue.len();
            assert(aged_list(queue@).take(at as int) =~= aged_list(queue@));
            while at > 0 && t.is_before(&queue[at - 1].2)
                invariant
                    at <= queue@.len(),
                    queue_place(aged_list(queue@), t) == queue_place(
                        aged_list(queue@).take(at as int),
                        t,
                    ),
                decreases at,
            {
                assert(aged_list(queue@).take(at as int).drop_last() =~= aged_list(queue@).take(
                    at - 1,
                ));
                at -= 1;
            }
            queue.insert(at, (a.id.clone(), a.name.clone(), t));
            assert(aged_list(queue@) =~= aged_list(before).insert(at as int, x));
        }
        i += 1;
    }
    assert(store.accounts@.take(store.accounts@.len() as int) =~= store.accounts@);
    let batch: u32 = if store.settings.quota_refresh_batch == 0 {
        1
    } else {
        store.settings.quota_refresh_batch
    };
    let mut targets: Vec<(String, String)> = Vec::new();
    let mut k: usize = 0;
    while k < queue.len() && (k as u64) < batch as u64
        invariant
            k <= queue@.len(),
            k <= batch,
            target_list(targets@) =~= names_of(aged_list(queue@).take(k as int)),
        decreases queue@.len() - k,
    {
        let ghost before = targets@;
        targets.push((queue[k].0.clone(), queue[k].1.clone()));
        assert(target_list(targets@) =~= target_list(before).push(
            (queue@[k as int].0@, queue@[k as int].1@),
        ));
        assert(aged_list(queue@).take(k + 1) =~= aged_list(queue@).take(k as int).push(
            aged_list(queue@)[k as int],
        ));
        k += 1;
    }
    assert(aged_list(queue@).take(queue@.len() as int) =~= aged_list(queue@));
    targets
}

// ---------------------------------------------------------------------------
// A round
// ---------------------------------------------------------------------------

/// Where a round stands.
#[derive(Debug, Clone, Copy, PartialEq, Eq, Structural)]
pub enum RoundPhase {
    /// A refresh is on its way.
    Refreshing,
    /// The usage report is being fetched.
    Fetching,
    /// The pause between two accounts.
    Resting,
    /// The round is over.
    Done,
}

/// A round of quota refreshes.
#[derive(Debug)]
pub struct QuotaRound {
    pub targets: Vec<(String, String)>,
    pub at: usize,
    /// The pause between two accounts, in minutes.
    pub interval: u32,
    pub phase: RoundPhase,
    pub account_id: Option<String>,
    pub refresh_token: Option<String>,
}

/// What has happened to a round.
#[derive(Debug)]
pub enum RoundEvent {
    /// A refresh came back.
    Refreshed(Result<TokenResponse, String>),
    /// The usage report came back.
    Fetched(Result<UsageDisplay, String>),
    /// The pause is over.
    Rested,
}

/// What is to be done for a round.
#[allow(inconsistent_fields)]
#[derive(Debug)]
pub enum RoundAction {
    /// Exchange this refresh token for new tokens.
    Refresh { refresh_token: String },
    /// Fetch the usage report, with or without a local refresh where the tokens have run out.
    Fetch {
        access_token: String,
        account_id: Option<String>,
        refresh_token: Option<String>,
        allow_local_refresh: bool,
    },
    /// Rest for so many seconds and go on.
    Rest { seconds: u64 },
    /// The round is over: begin another one after so many seconds.
    Again { seconds: u64 },
    /// Nothing: the event does not belong to where the round stands.
    Wait,
}

/// A step of a round: what to do with the store, what to log, and what to do next. Where there is
/// an entry, the accounts are shown anew.
#[derive(Debug)]
pub struct RoundStep {
    pub save: Persist,
    pub entry: Option<SwitchEntry>,
    pub next: RoundAction,
}

/// The account has something to ask for its quota with.
pub open spec fn has_credentials(a: Account) -> bool {
    crate::account::access_token_in(a.auth_json@) is Some || a.refresh_token is Some
}

/// The first target from `from` on that is still there and has something to ask with.
pub open spec fn askable_from(
    store: AccountStore,
    targets: Seq<(String, String)>,
    from: int,
) -> int
    decreases targets.len() - from,
{
    if from >= targets.len() {
        targets.len() as int
    } else if crate::account::lookup(store.accounts@, targets[from].0@) matches Some(a)
        && has_credentials(a) {
        from
    } else {
        askable_from(store, targets, from + 1)
    }
}

/// The round goes on with the first target from `from` on that can be asked, and is over where
/// there is none.
pub open spec fn goes_on_from(
    store: AccountStore,
    from: int,
    r: QuotaRound,
    next: RoundAction,
) -> bool {
    let at = askable_from(store, r.targets@, from);
    if at >= r.targets@.len() {
        r.phase == RoundPhase::Done && next == (RoundAction::Again { seconds: 0 })
    } else {
        let a = crate::account::lookup(store.accounts@, r.targets@[at].0@)->0;
        &&& r.at == at
        &&& crate::json::opt_text(r.account_id) == crate::account::account_id_in(a.auth_json@)
        &&& r.refresh_token == a.refresh_token
        &&& match crate::account::access_token_in(a.auth_json@) {
            Some(token) => r.phase == RoundPhase::Fetching && round_fetches(r, next, token),
            None => r.phase == RoundPhase::Refreshing && (next matches RoundAction::Refresh {
                refresh_token,
            } && a.refresh_token == Some(refresh_token)),
        }
    }
}

/// The usage report is fetched with this token, without a local refresh.
pub open spec fn round_fetches(r: QuotaRound, next: RoundAction, token: Seq<char>) -> bool {
    next matches RoundAction::Fetch {
        access_token,
        account_id,
        refresh_token,
        allow_local_refresh,
    } && access_token@ == token && account_id == r.account_id && refresh_token == r.refresh_token
        && !allow_local_refresh
}

/// What the failed query of a scheduled refresh leaves on the account.
pub open spec fn round_marked(a: Account, trouble: QuotaTrouble) -> Account {
    match trouble {
        QuotaTrouble::Banned => a.flagged(Some(true), None, None),
        QuotaTrouble::TokenInvalid => a.flagged(None, Some(true), Some(false)),
        QuotaTrouble::LoggedOut => a,
        QuotaTrouble::Other => a,
    }
}

/// The entry for a quota that was refreshed.
pub open spec fn refresh_entry(name: String, u: UsageDisplay, entry: Option<SwitchEntry>) -> bool {
    entry matches Some(e) && e.from_name is None && e.to_name == name && e.reason
        == SwitchReason::AutoQuotaRefresh && e.from_quota is None && e.to_quota == Some(
        u.five_hour_left,
    )
}

/// What follows when the usage report of a target came back.
pub open spec fn round_fetched(
    r0: QuotaRound,
    s0: AccountStore,
    result: Result<UsageDisplay, String>,
    now: Timestamp,
    r: QuotaRound,
    s1: AccountStore,
    out: RoundStep,
) -> bool {
    let target = r0.targets@[r0.at as int];
    &&& r.phase == RoundPhase::Resting
    &&& r.at == r0.at
    &&& out.next == (RoundAction::Rest { seconds: (r0.interval * 60) as u64 })
    &&& match result {
        Ok(u) => {
            &&& crate::account::account_changed(
                s0,
                s1,
                target.0@,
                |a: Account, b: Account|
                    b == Account { cached_quota: Some(crate::usage::cached_of(u, now)), ..a },
            )
            &&& out.save == crate::quota::save_if_there(s0, target.0@)
            &&& refresh_entry(target.1, u, out.entry)
        },
        Err(e) => {
            let trouble = crate::signals::trouble_in(e@);
            &&& crate::account::account_changed(
                s0,
                s1,
                target.0@,
                |a: Account, b: Account| b == round_marked(a, trouble),
            )
            &&& out.save == if trouble == QuotaTrouble::Banned || trouble
                == QuotaTrouble::TokenInvalid {
                crate::quota::save_if_there(s0, target.0@)
            } else {
                Persist::No
            }
            &&& out.entry is None
        },
    }
}

/// One step of a round.
pub open spec fn round_step(
    r0: QuotaRound,
    s0: AccountStore,
    event: RoundEvent,
    now: Timestamp,
    r: QuotaRound,
    s1: AccountStore,
    out: RoundStep,
) -> bool {
    &&& r.targets@ == r0.targets@
    &&& r.interval == r0.interval
    &&& if r0.at >= r0.targets@.len() {
        crate::account::unchanged(s0, s1) && out.save == Persist::No && out.entry is None && out.next
            is Wait && r == r0
    } else {
        match (r0.phase, event) {
            (RoundPhase::Refreshing, RoundEvent::Refreshed(Ok(t))) => {
                &&& crate::account::account_changed(
                    s0,
                    s1,
                    r0.targets@[r0.at as int].0@,
                    |a: Account, b: Account| crate::account::tokens_applied(a, b, t, now),
                )
                &&& out.save == crate::quota::save_if_there(s0, r0.targets@[r0.at as int].0@)
                &&& out.entry is None
                &&& r.at == r0.at
                &&& r.account_id == r0.account_id
                &&& r.refresh_token == r0.refresh_token
                &&& r.phase == RoundPhase::Fetching
                &&& round_fetches(r, out.next, t.access_token@)
            },
            (RoundPhase::Refreshing, RoundEvent::Refreshed(Err(_))) => {
                &&& crate::account::unchanged(s0, s1)
                &&& out.save == Persist::No && out.entry is None
                &&& goes_on_from(s1, r0.at + 1, r, out.next)
            },
            (RoundPhase::Fetching, RoundEvent::Fetched(result)) => round_fetched(
                r0,
                s0,
                result,
                now,
                r,
                s1,
                out,
            ),
            (RoundPhase::Resting, RoundEvent::Rested) => {
                &&& crate::account::unchanged(s0, s1)
                &&& out.save == Persist::No && out.entry is None
                &&& goes_on_from(s1, r0.at + 1, r, out.next)
            },
            _ => crate::account::unchanged(s0, s1) && out.save == Persist::No && out.entry is None
                && out.next is Wait && r == r0,
        }
    }
}

impl QuotaRound {
    fn go_on_from(&mut self, store: &AccountStore, from: usize) -> (next: RoundAction)
        requires
            from <= old(self).targets@.len(),
        ensures
            final(self).targets@ == old(self).targets@,
            final(self).interval == old(self).interval,
            goes_on_from(*store, from as int, *final(self), next),
    {
        let mut at: usize = from;
        while at < self.targets.len()
            invariant
                from <= at <= self.targets@.len(),
                self.targets@ == old(self).targets@,
                self.interval == old(self).interval,
                askable_from(*store, self.targets@, from as int) == askable_from(
                    *store,
                    self.targets@,
                    at as int,
                ),
            decreases self.targets@.len() - at,
        {
            if let Some(i) = store.find(self.targets[at].0.as_str()) {
                let a: &Account = &store.accounts[i];
                match AccountStore::extract_access_token(&a.auth_json) {
                    Some(access_token) => {
                        self.at = at;
                        self.phase = RoundPhase::Fetching;
                        self.account_id = AccountStore::extract_account_id(&a.auth_json);
                        self.refresh_token = copy_opt(&a.refresh_token);
                        return RoundAction::Fetch {
                            access_token,
                            account_id: copy_opt(&self.account_id),
                            refresh_token: copy_opt(&self.refresh_token),
                            allow_local_refresh: false,
                        };
                    },
                    None => {
                        if let Some(rt) = &a.refresh_token {
                            self.at = at;
                            self.phase = RoundPhase::Refreshing;
                            self.account_id = AccountStore::extract_account_id(&a.auth_json);
                            self.refresh_token = Some(rt.clone());
                            return RoundAction::Refresh { refresh_token: rt.clone() };
                        }
                    },
                }
            }
            at += 1;
        }
        self.phase = RoundPhase::Done;
        RoundAction::Again { seconds: 0 }
    }

    /// Takes the round one step on.
    pub fn step(&mut self, store: &mut AccountStore, event: RoundEvent, now: Timestamp) -> (out:
        RoundStep)
        requires
            now.in_calendar(),
        ensures
            round_step(*old(self), *old(store), event, now, *final(self), *final(store), out),
    {
        if self.at >= self.targets.len() {
            return RoundStep { save: Persist::No, entry: None, next: RoundAction::Wait };
        }
        match (self.phase, event) {
            (RoundPhase::Refreshing, RoundEvent::Refreshed(Ok(t))) => {
                let found: bool = store.apply_tokens_to(self.targets[self.at].0.as_str(), &t, now);
                self.phase = RoundPhase::Fetching;
                RoundStep {
                    save: if found {
                        Persist::BestEffort
                    } else {
                        Persist::No
                    },
                    entry: None,
                    next: RoundAction::Fetch {
                        access_token: t.access_token,
                        account_id: copy_opt(&self.account_id),
                        refresh_token: copy_opt(&self.refresh_token),
                        allow_local_refresh: false,
                    },
                }
            },
            (RoundPhase::Refreshing, RoundEvent::Refreshed(Err(_))) => {
                let from: usize = self.at + 1;
                let next: RoundAction = self.go_on_from(store, from);
                RoundStep { save: Persist::No, entry: None, next }
            },
            (RoundPhase::Fetching, RoundEvent::Fetched(result)) => {
                let mut found: bool = false;
                let mut entry: Option<SwitchEntry> = None;
                match &result {
                    Ok(u) => {
                        if let Some(i) = store.find(self.targets[self.at].0.as_str()) {
                            store.accounts[i].cached_quota = Some(usage_to_cached(u, now));
                            found = true;
                        }
                        entry = Some(
                            SwitchEntry {
                                from_name: None,
                                to_name: self.targets[self.at].1.clone(),
                                reason: SwitchReason::AutoQuotaRefresh,
                                from_quota: None,
                                to_quota: Some(u.five_hour_left),
                            },
                        );
                    },
                    Err(e) => match quota_trouble(e.as_str()) {
                        QuotaTrouble::Banned => {
                            found =
                            store.flag(self.targets[self.at].0.as_str(), Some(true), None, None);
                        },
                        QuotaTrouble::TokenInvalid => {
                            found =
                            store.flag(
                                self.targets[self.at].0.as_str(),
                                None,
                                Some(true),
                                Some(false),
                            );
                        },
                        _ => {},
                    },
                }
                self.phase = RoundPhase::Resting;
                let seconds: u64 = self.interval as u64 * 60;
                RoundStep {
                    save: if found {
                        Persist::BestEffort
                    } else {
                        Persist::No
                    },
                    entry,
                    next: RoundAction::Rest { seconds },
                }
            },
            (RoundPhase::Resting, RoundEvent::Rested) => {
                let from: usize = self.at + 1;
                let next: RoundAction = self.go_on_from(store, from);
                RoundStep { save: Persist::No, entry: None, next }
            },
            _ => RoundStep { save: Persist::No, entry: None, next: RoundAction::Wait },
        }
    }
}

/// Starts a round. Where the refresh is switched off, or there is nobody to look at, the next round
/// is put off instead.
pub fn start_quota_refresh(store: &AccountStore) -> (start: (QuotaRound, RoundAction))
    ensures
        start.0.interval == if store.settings.quota_refresh_interval == 0 {
            1
        } else {
            store.settings.quota_refresh_interval
        },
        if !store.settings.quota_refresh_enabled {
            start.0.phase == RoundPhase::Done && start.1 == (RoundAction::Again { seconds: 30 })
        } else if turn_of(*store).len() == 0 {
            start.0.phase == RoundPhase::Done && start.1 == (RoundAction::Again { seconds: 60 })
        } else {
            target_list(start.0.targets@) == names_of(turn_of(*store)) && goes_on_from(
                *store,
                0,
                start.0,
                start.1,
            )
        },
{
    let interval: u32 = if store.settings.quota_refresh_interval == 0 {
        1
    } else {
        store.settings.quota_refresh_interval
    };
    let mut round: QuotaRound = QuotaRound {
        targets: Vec::new(),
        at: 0,
        interval,
        phase: RoundPhase::Done,
        account_id: None,
        refresh_token: None,
    };
    if !store.settings.quota_refresh_enabled {
        return (round, RoundAction::Again { seconds: 30 });
    }
    round.targets = refresh_targets(store);
    assert(target_list(round.targets@).len() == round.targets@.len());
    assert(names_of(turn_of(*store)).len() == turn_of(*store).len());
    if round.targets.len() == 0 {
        return (round, RoundAction::Again { seconds: 60 });
    }
    let next: RoundAction = round.go_on_from(store, 0);
    (round, next)
}

/// A scheduled refresh changes neither which accounts there are nor which one is active, nor the
/// settings.
pub proof fn round_keeps_the_accounts(
    r0: QuotaRound,
    s0: AccountStore,
    event: RoundEvent,
    now: Timestamp,
    r: QuotaRound,
    s1: AccountStore,
    out: RoundStep,
)
    requires
        round_step(r0, s0, event, now, r, s1, out),
    ensures
        crate::account::same_ids(s0.accounts@, s1.accounts@),
        s1.current == s0.current,
        s1.settings == s0.settings,
{
    crate::account::lemma_place_from(s0.accounts@, r0.targets@[r0.at as int].0@, 0);
}

/// Between one target that was asked and the next there is a pause of at least a minute, where the
/// settings are those that a round starts with.
pub proof fn rounds_are_slow(
    r0: QuotaRound,
    s0: AccountStore,
    result: Result<UsageDisplay, String>,
    now: Timestamp,
    r: QuotaRound,
    s1: AccountStore,
    out: RoundStep,
)
    requires
        r0.phase == RoundPhase::Fetching,
        r0.at < r0.targets@.len(),
        r0.interval >= 1,
        round_step(r0, s0, RoundEvent::Fetched(result), now, r, s1, out),
    ensures
        out.next matches RoundAction::Rest { seconds } && seconds >= 60,
{
}

// ---------------------------------------------------------------------------
// Whose turn it is, and what comes of it
// ---------------------------------------------------------------------------

/// Everyone that nothing speaks against waits for a turn, under their own id and name, since their
/// quota was last looked at; nobody else does.
pub proof fn good_accounts_wait_for_their_turn(accounts: Seq<Account>)
    ensures
        usable_accounts(accounts) == accounts.filter(
            |a: Account| !a.is_banned && !a.is_token_invalid && !a.is_logged_out,
        ).map_values(
            |a: Account|
                (
                    a.id@,
                    a.name@,
                    match a.cached_quota {
                        Some(q) => q.updated_at,
                        None => Timestamp { secs: crate::clock::FIRST_SECOND, nanos: 0 },
                    },
                ),
        ),
    decreases accounts.len(),
{
    reveal(Seq::filter);
    let good = |a: Account| !a.is_banned && !a.is_token_invalid && !a.is_logged_out;
    let shown = |a: Account|
        (
            a.id@,
            a.name@,
            match a.cached_quota {
                Some(q) => q.updated_at,
                None => Timestamp { secs: crate::clock::FIRST_SECOND, nanos: 0 },
            },
        );
    if accounts.len() > 0 {
        let rest = accounts.drop_last();
        good_accounts_wait_for_their_turn(rest);
        assert(usable_accounts(rest) == rest.filter(good).map_values(shown));
        let a = accounts.last();
        if good(a) {
            assert(accounts.filter(good) =~= rest.filter(good).push(a));
            assert(rest.filter(good).push(a).map_values(shown) =~= rest.filter(good).map_values(
                shown,
            ).push(shown(a)));
        } else {
            assert(accounts.filter(good) =~= rest.filter(good));
        }
        assert(usable_accounts(accounts) =~= accounts.filter(good).map_values(shown));
    } else {
        assert(usable_accounts(accounts) =~= accounts.filter(good).map_values(shown));
    }
}

/// One that joins the queue stands behind all that were not looked at later and before all that were,
/// and the others keep their order.
pub proof fn latecomers_join_behind_their_equals(list: Seq<Aged>, x: Aged)
    ensures
        exists|p: int|
            {
                &&& 0 <= p < queued(list.push(x)).len()
                &&& #[trigger] queued(list.push(x))[p] == x
                &&& queued(list.push(x)).remove(p) == queued(list)
                &&& forall|i: int|
                    0 <= i < p ==> !x.2.earlier((#[trigger] queued(list)[i]).2)
                &&& forall|i: int|
                    p <= i < queued(list).len() ==> x.2.earlier((#[trigger] queued(list)[i]).2)
            },
{
    let rest = queued(list);
    let p = queue_place(rest, x.2);
    assert(list.push(x).drop_last() =~= list);
    lemma_queue_place(rest, x.2);
    oldest_come_first(list);
    let all = queued(list.push(x));
    assert(all =~= rest.insert(p, x));
    assert(all.remove(p) =~= rest);
    assert(all[p] == x);
    assert forall|i: int| 0 <= i < p implies !x.2.earlier((#[trigger] queued(list)[i]).2) by {
        assert(!queued(list)[p - 1].2.earlier(queued(list)[i].2));
    }
}

/// A round takes the first of the queue, as many as the settings say, one at least, and all where
/// there are fewer.
pub proof fn rounds_take_the_first_of_the_queue(store: AccountStore)
    ensures
        ({
            let queue = queued(usable_accounts(store.accounts@));
            let turn = turn_of(store);
            let batch = store.settings.quota_refresh_batch;
            &&& turn == queue.take(turn.len() as int)
            &&& batch > 0 && batch <= queue.len() ==> turn.len() == batch
            &&& batch == 0 && queue.len() > 0 ==> turn.len() == 1
            &&& batch > queue.len() ==> turn.len() == queue.len()
            &&& turn.len() <= queue.len()
        }),
{
    let queue = queued(usable_accounts(store.accounts@));
    assert(queue.take(queue.len() as int) =~= queue);
}

/// A round passes over targets that are gone or have nothing to ask with, and over no others.
pub proof fn rounds_pass_over_nobody_else(
    store: AccountStore,
    targets: Seq<(String, String)>,
    from: int,
)
    requires
        0 <= from <= targets.len(),
    ensures
        ({
            let at = askable_from(store, targets, from);
            &&& from <= at <= targets.len()
            &&& at < targets.len() ==> (crate::account::lookup(
                store.accounts@,
                targets[at].0@,
            ) matches Some(a) && (crate::account::access_token_in(a.auth_json@) is Some
                || a.refresh_token is Some))
            &&& forall|i: int|
                from <= i < at ==> (crate::account::lookup(
                    store.accounts@,
                    (#[trigger] targets[i]).0@,
                ) matches Some(a) ==> crate::account::access_token_in(a.auth_json@) is None
                    && a.refresh_token is None)
        }),
    decreases targets.len() - from,
{
    if from < targets.len() {
        rounds_pass_over_nobody_else(store, targets, from + 1);
    }
}

/// A round asks with the access token of its target and without a local refresh; where there is no
/// access token it refreshes first.
pub proof fn rounds_ask_with_what_the_account_has(
    store: AccountStore,
    from: int,
    r: QuotaRound,
    next: RoundAction,
)
    requires
        0 <= from <= r.targets@.len(),
        goes_on_from(store, from, r, next),
    ensures
        next matches RoundAction::Fetch { access_token, allow_local_refresh, .. } ==> {
            &&& !allow_local_refresh
            &&& r.at < r.targets@.len()
            &&& crate::account::lookup(store.accounts@, r.targets@[r.at as int].0@) matches Some(a)
                && crate::account::access_token_in(a.auth_json@) == Some(access_token@)
        },
        next matches RoundAction::Refresh { refresh_token } ==> {
            &&& r.at < r.targets@.len()
            &&& crate::account::lookup(store.accounts@, r.targets@[r.at as int].0@) matches Some(a)
                && a.refresh_token == Some(refresh_token) && crate::account::access_token_in(
                a.auth_json@,
            ) is None
        },
        next is Again ==> forall|i: int|
            from <= i < r.targets@.len() ==> (crate::account::lookup(
                store.accounts@,
                (#[trigger] r.targets@[i]).0@,
            ) matches Some(a) ==> crate::account::access_token_in(a.auth_json@) is None
                && a.refresh_token is None),
        next is Fetch || next is Refresh || next is Again,
{
    rounds_pass_over_nobody_else(store, r.targets@, from);
}

/// A report of a round is remembered with its target and logged, and a pause of so many minutes as
/// the round has follows. A failure marks the target as banned or its token as invalid by the word in
/// its message, and is not logged.
pub proof fn what_a_round_leaves(
    r0: QuotaRound,
    s0: AccountStore,
    result: Result<UsageDisplay, String>,
    now: Timestamp,
    r: QuotaRound,
    s1: AccountStore,
    out: RoundStep,
)
    requires
        r0.phase == RoundPhase::Fetching,
        r0.at < r0.targets@.len(),
        round_step(r0, s0, RoundEvent::Fetched(result), now, r, s1, out),
        crate::account::lookup(s0.accounts@, r0.targets@[r0.at as int].0@) is Some,
    ensures
        ({
            let id = r0.targets@[r0.at as int].0@;
            let a = crate::account::lookup(s0.accounts@, id)->0;
            let b = crate::account::lookup(s1.accounts@, id)->0;
            &&& crate::account::lookup(s1.accounts@, id) is Some
            &&& out.next matches RoundAction::Rest { seconds } && seconds == 60 * r0.interval
            &&& result matches Ok(u) ==> {
                &&& b.cached_quota matches Some(q) && q.five_hour_left == u.five_hour_left
                    && q.weekly_left == u.weekly_left && q.five_hour_reset_at
                    == u.five_hour_reset_at && q.weekly_reset_at == u.weekly_reset_at
                    && q.updated_at == now
                &&& b == Account { cached_quota: b.cached_quota, ..a }
                &&& out.entry matches Some(e) && e.to_name == r0.targets@[r0.at as int].1
                    && e.reason == SwitchReason::AutoQuotaRefresh && e.to_quota == Some(
                    u.five_hour_left,
                )
            }
            &&& result matches Err(e) ==> {
                let banned = crate::text::occurs(e@, "ACCOUNT_BANNED"@);
                let invalid = !banned && crate::text::occurs(e@, "TOKEN_INVALID"@);
                &&& out.entry is None
                &&& banned ==> b == Account { is_banned: true, ..a }
                &&& invalid ==> b == Account { is_token_invalid: true, is_logged_out: false, ..a }
                &&& !banned && !invalid ==> b == a
            }
        }),
{
    let id = r0.targets@[r0.at as int].0@;
    match result {
        Ok(u) => {
            crate::account::lemma_lookup_after(
                s0,
                s1,
                id,
                |a: Account, b: Account|
                    b == Account { cached_quota: Some(crate::usage::cached_of(u, now)), ..a },
            );
        },
        Err(e) => {
            let trouble = crate::signals::trouble_in(e@);
            crate::account::lemma_lookup_after(
                s0,
                s1,
                id,
                |a: Account, b: Account| b == round_marked(a, trouble),
            );
        },
    }
}


/// A report that came back is noted in the log with the name of its account and what that has left
/// of its five hours; the round rests at the same target for the minutes that were set, and goes on
/// behind it.
pub proof fn reports_are_noted_and_rested_after(
    r0: QuotaRound,
    s0: AccountStore,
    event: RoundEvent,
    now: Timestamp,
    r: QuotaRound,
    s1: AccountStore,
    out: RoundStep,
)
    requires
        round_step(r0, s0, event, now, r, s1, out),
        r0.at < r0.targets@.len(),
    ensures
        r.targets@ == r0.targets@,
        r.interval == r0.interval,
        r0.phase == RoundPhase::Fetching && (event matches RoundEvent::Fetched(x) && x is Ok) ==> (
        out.entry matches Some(e) && e.from_name is None && e.from_quota is None && e.to_name
            == r0.targets@[r0.at as int].1 && e.reason == SwitchReason::AutoQuotaRefresh
            && e.to_quota == Some(event->Fetched_0->Ok_0.five_hour_left)),
        r0.phase == RoundPhase::Fetching && (event matches RoundEvent::Fetched(x) && x is Err)
            ==> out.entry is None,
        r0.phase == RoundPhase::Fetching && event is Fetched ==> r.phase == RoundPhase::Resting
            && r.at == r0.at && out.next == (RoundAction::Rest {
            seconds: (r0.interval * 60) as u64,
        }),
        r0.phase == RoundPhase::Refreshing && (event matches RoundEvent::Refreshed(x) && x is Ok)
            ==> r.phase == RoundPhase::Fetching && r.at == r0.at && out.entry is None && (
        out.next matches RoundAction::Fetch {
            access_token,
            account_id,
            refresh_token,
            allow_local_refresh,
        } && access_token@ == event->Refreshed_0->Ok_0.access_token@ && account_id == r0.account_id
            && refresh_token == r0.refresh_token && !allow_local_refresh),
        r0.phase == RoundPhase::Refreshing && (event matches RoundEvent::Refreshed(x) && x is Err)
            ==> s1.accounts@ == s0.accounts@ && out.save == Persist::No && out.entry is None,
        r0.phase == RoundPhase::Resting && event is Rested ==> s1.accounts@ == s0.accounts@
            && out.save == Persist::No && out.entry is None,
        r.phase == RoundPhase::Done && r0.phase != RoundPhase::Done ==> out.next == (
        RoundAction::Again { seconds: 0 }),
        out.next is Wait ==> s1.accounts@ == s0.accounts@ && out.save == Persist::No && r == r0,
{
}

} // verus!
