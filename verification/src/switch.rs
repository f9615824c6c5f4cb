//! Making another account the active one: on request, in search of the best one, and on its own
//! accord when the proxy needs it.
use crate::account::{copy_opt, Account, AccountStore, DiskAuth};
use crate::clock::Timestamp;
use crate::json::Json;
use crate::proxy::{count_on, ProxyStats};
use crate::quota::Persist;
use crate::selection::{is_free_plan, score_candidate_accounts_at};
use crate::text::{concat2, concat3, eq_str, to_lowercase};
use crate::usage::{usage_to_cached, UsageDisplay};
use vstd::prelude::*;

verus! {

// ---------------------------------------------------------------------------
// The step that all switches share
// ---------------------------------------------------------------------------

/// Why an account became active, or was refreshed.
#[derive(Debug, Clone, Copy, PartialEq, Eq, Structural)]
pub enum SwitchReason {
    Manual,
    Http429,
    QuotaThreshold,
    WebSocketPrecheck,
    WebSocketRateLimit,
    BannedDetected,
    AutoQuotaRefresh,
    BackgroundKeepalive,
}

/// An entry of the switch log.
#[derive(Debug)]
pub struct SwitchEntry {
    pub from_name: Option<String>,
    pub to_name: String,
    pub reason: SwitchReason,
    pub from_quota: Option<i32>,
    pub to_quota: Option<i32>,
}

/// The store in which `id` has become the active account at `now`.
pub open spec fn made_active(
    before: AccountStore,
    after: AccountStore,
    id: Seq<char>,
    now: Timestamp,
) -> bool {
    &&& after.current matches Some(c) && c@ == id
    &&& after.settings == before.settings
    &&& crate::account::changed_at(
        before.accounts@,
        after.accounts@,
        crate::account::place(before.accounts@, id),
        |a: Account, b: Account| b == Account { last_used: Some(now), ..a },
    )
}

/// The name of an account, empty where there is none.
pub open spec fn name_of(a: Option<Account>) -> Seq<char> {
    match a {
        Some(a) => a.name@,
        None => Seq::empty(),
    }
}

/// What is known to be left of the five hour window of an account.
pub open spec fn five_hours_of(a: Option<Account>) -> Option<i32> {
    match a {
        Some(a) => match a.cached_quota {
            Some(q) => Some(q.five_hour_left),
            None => None,
        },
        None => None,
    }
}

/// The name of the account at `at`, empty where there is none.
fn name_at(store: &AccountStore, at: Option<usize>) -> (name: String)
    requires
        at matches Some(i) ==> i < store.accounts@.len(),
    ensures
        name@ == name_of(
            match at {
                Some(i) => Some(store.accounts@[i as int]),
                None => None,
            },
        ),
{
    match at {
        Some(i) => store.accounts[i].name.clone(),
        None => String::new(),
    }
}

/// What is known to be left of the five hour window of the account at `at`.
fn five_hours_at(store: &AccountStore, at: Option<usize>) -> (left: Option<i32>)
    requires
        at matches Some(i) ==> i < store.accounts@.len(),
    ensures
        left == five_hours_of(
            match at {
                Some(i) => Some(store.accounts@[i as int]),
                None => None,
            },
        ),
{
    match at {
        Some(i) => match &store.accounts[i].cached_quota {
            Some(q) => Some(q.five_hour_left),
            None => None,
        },
        None => None,
    }
}

impl AccountStore {
    /// The login document that has to stand on disk for the account `id` to be the active one.
    pub fn switch_document(&self, id: &str) -> (document: Result<Json, String>)
        ensures
            match crate::account::lookup(self.accounts@, id@) {
                Some(a) => document matches Ok(d) && d@ == a.auth_json@,
                None => document matches Err(e) && e@ == "Account "@ + id@ + " not found"@,
            },
    {
        match self.find(id) {
            Some(i) => Ok(self.accounts[i].auth_json.copy()),
            None => Err(concat3("Account ", id, " not found")),
        }
    }

    /// Makes `id` the active account, once its login document stands on disk.
    pub fn set_active(&mut self, id: &str, now: Timestamp)
        ensures
            made_active(*old(self), *final(self), id@, now),
    {
        if let Some(i) = self.find(id) {
            self.accounts[i].last_used = Some(now);
        }
        self.current = Some(id.to_owned());
    }
}

// ---------------------------------------------------------------------------
// Switching on request
// ---------------------------------------------------------------------------

/// Where a switch stands.
#[derive(Debug, Clone, Copy, PartialEq, Eq, Structural)]
pub enum SwitchPhase {
    /// The login document on disk is being read.
    Disk,
    /// The usage report is being fetched.
    Fetch,
    /// The lock of the account is being waited for.
    Lock,
    /// The login document is being written to disk.
    Write,
    /// The store is being written to disk.
    Save,
    /// There is nothing more to do.
    Done,
}

/// A switch to an account.
#[derive(Debug)]
pub struct AccountSwitch {
    pub id: String,
    pub phase: SwitchPhase,
    pub access_token: String,
    pub account_id: Option<String>,
    pub refresh_token: Option<String>,
}

/// What has happened to a switch.
#[derive(Debug)]
pub enum SwitchEvent {
    /// The login document on disk was read.
    DiskRead(Result<DiskAuth, String>),
    /// The usage report came back.
    Fetched(Result<UsageDisplay, String>),
    /// The lock of the account was taken, or not in time.
    Locked(bool),
    /// The login document was written to disk.
    Written(Result<(), String>),
    /// The store was written to disk.
    Saved(Result<(), String>),
}

/// What is to be done for a switch.
#[allow(inconsistent_fields)]
#[derive(Debug)]
pub enum SwitchAction {
    /// Fetch the usage report, with or without a local refresh where the tokens have run out.
    Fetch {
        access_token: String,
        account_id: Option<String>,
        refresh_token: Option<String>,
        allow_local_refresh: bool,
    },
    /// Take the lock of the account, within five seconds.
    TakeLock,
    /// Write this login document to disk.
    WriteDocument(Json),
    /// Write the store to disk and hand back how that went.
    SaveStore,
    /// The switch is over: log it, break off the open connections, and show it.
    Finish(SwitchEntry),
    /// The switch is over, and has failed.
    Fail(String),
    /// Nothing: the event does not belong to where the switch stands.
    Wait,
}

/// A step of a switch: what to do with the store and the lock, and what to do next.
#[derive(Debug)]
pub struct SwitchStep {
    pub save: Persist,
    /// Give the lock of the account back.
    pub unlock: bool,
    pub next: SwitchAction,
}

/// The lock of the account is held.
pub open spec fn holds_lock(phase: SwitchPhase) -> bool {
    phase == SwitchPhase::Write || phase == SwitchPhase::Save
}

/// The switch is over, and has failed with this message.
pub open spec fn switch_failed(w: AccountSwitch, next: SwitchAction, message: Seq<char>) -> bool {
    w.phase == SwitchPhase::Done && (next matches SwitchAction::Fail(m) && m@ == message)
}

/// The usage report is fetched with what the switch knows of the account, without a local refresh.
pub open spec fn switch_fetches(w: AccountSwitch, next: SwitchAction) -> bool {
    w.phase == SwitchPhase::Fetch && (next matches SwitchAction::Fetch {
        access_token,
        account_id,
        refresh_token,
        allow_local_refresh,
    } && access_token == w.access_token && account_id == w.account_id && refresh_token
        == w.refresh_token && !allow_local_refresh)
}

/// The switch goes on with the credentials of its account, as they are: whether the tokens have
/// run out is not asked.
pub open spec fn switch_credentials(
    store: AccountStore,
    w: AccountSwitch,
    next: SwitchAction,
) -> bool {
    match crate::account::lookup(store.accounts@, w.id@) {
        None => switch_failed(w, next, "Account "@ + w.id@ + " not found"@),
        Some(a) => match crate::account::access_token_in(a.auth_json@) {
            None => switch_failed(w, next, "Account missing access_token"@),
            Some(token) => {
                &&& switch_fetches(w, next)
                &&& w.access_token@ == token
                &&& w.refresh_token == a.refresh_token
                &&& crate::json::opt_text(w.account_id) == crate::account::account_id_in(
                    a.auth_json@,
                )
            },
        },
    }
}

/// What follows when the login document on disk was read: the active account takes it over where
/// it is its own.
pub open spec fn switch_disk(
    s0: AccountStore,
    disk: Result<DiskAuth, String>,
    w: AccountSwitch,
    s1: AccountStore,
    out: SwitchStep,
) -> bool {
    &&& match disk {
        Ok(d) => if s0.current_account() matches Some(a) && crate::account::one_identity(
            a.auth_json@,
            d.auth@,
        ) {
            &&& crate::account::current_changed(
                s0,
                s1,
                |a: Account, b: Account| crate::account::auth_taken(a, b, d),
            )
            &&& out.save == Persist::BestEffort
        } else {
            crate::account::unchanged(s0, s1) && out.save == Persist::No
        },
        Err(_) => crate::account::unchanged(s0, s1) && out.save == Persist::No,
    }
    &&& switch_credentials(s1, w, out.next)
}

/// What follows when the usage report came back: it is remembered, and the switch goes on either
/// way.
pub open spec fn switch_fetched(
    s0: AccountStore,
    result: Result<UsageDisplay, String>,
    now: Timestamp,
    w: AccountSwitch,
    s1: AccountStore,
    out: SwitchStep,
) -> bool {
    &&& w.phase == SwitchPhase::Lock
    &&& out.next is TakeLock
    &&& match result {
        Ok(u) => {
            &&& crate::account::account_changed(
                s0,
                s1,
                w.id@,
                |a: Account, b: Account|
                    b == Account { cached_quota: Some(crate::usage::cached_of(u, now)), ..a },
            )
            &&& out.save == crate::quota::save_if_there(s0, w.id@)
        },
        Err(_) => crate::account::unchanged(s0, s1) && out.save == Persist::No,
    }
}

/// The first account from `from` on that is not active and has been in use.
pub open spec fn used_before(store: AccountStore, from: int) -> Option<Account>
    decreases store.accounts@.len() - from,
{
    if from < 0 || from >= store.accounts@.len() {
        None
    } else {
        let a = store.accounts@[from];
        if !(store.current matches Some(c) && c@ == a.id@) && a.last_used is Some {
            Some(a)
        } else {
            used_before(store, from + 1)
        }
    }
}

/// The entry that a switch on request leaves in the log.
pub open spec fn manual_entry(store: AccountStore, id: Seq<char>, entry: SwitchEntry) -> bool {
    let to = crate::account::lookup(store.accounts@, id);
    &&& crate::json::opt_text(entry.from_name) == match used_before(store, 0) {
        Some(a) => Some(a.name@),
        None => None,
    }
    &&& entry.to_name@ == name_of(to)
    &&& entry.reason == SwitchReason::Manual
    &&& entry.from_quota is None
    &&& entry.to_quota == five_hours_of(to)
}

/// What follows when the lock was waited for.
pub open spec fn switch_locked(
    store: AccountStore,
    locked: bool,
    w: AccountSwitch,
    out: SwitchStep,
) -> bool {
    if !locked {
        !out.unlock && switch_failed(
            w,
            out.next,
            "This account is being refreshed by another process, please try again later"@,
        )
    } else {
        match crate::account::lookup(store.accounts@, w.id@) {
            Some(a) => {
                &&& !out.unlock
                &&& w.phase == SwitchPhase::Write
                &&& out.next matches SwitchAction::WriteDocument(d) && d@ == a.auth_json@
            },
            None => out.unlock && switch_failed(w, out.next, "Account "@ + w.id@ + " not found"@),
        }
    }
}

/// One step of a switch.
pub open spec fn switch_step(
    w0: AccountSwitch,
    s0: AccountStore,
    event: SwitchEvent,
    now: Timestamp,
    w: AccountSwitch,
    s1: AccountStore,
    out: SwitchStep,
) -> bool {
    &&& w.id == w0.id
    &&& match (w0.phase, event) {
        (SwitchPhase::Disk, SwitchEvent::DiskRead(disk)) => !out.unlock && switch_disk(
            s0,
            disk,
            w,
            s1,
            out,
        ),
        (SwitchPhase::Fetch, SwitchEvent::Fetched(result)) => !out.unlock && switch_fetched(
            s0,
            result,
            now,
            w,
            s1,
            out,
        ),
        (SwitchPhase::Lock, SwitchEvent::Locked(locked)) => {
            &&& crate::account::unchanged(s0, s1)
            &&& out.save == Persist::No
            &&& switch_locked(s0, locked, w, out)
        },
        (SwitchPhase::Write, SwitchEvent::Written(Ok(()))) => {
            &&& made_active(s0, s1, w.id@, now)
            &&& out.save == Persist::No && !out.unlock
            &&& w.phase == SwitchPhase::Save
            &&& out.next is SaveStore
        },
        (SwitchPhase::Write, SwitchEvent::Written(Err(e))) => {
            &&& crate::account::unchanged(s0, s1)
            &&& out.save == Persist::No && out.unlock
            &&& switch_failed(w, out.next, e@)
        },
        (SwitchPhase::Save, SwitchEvent::Saved(Err(e))) => {
            &&& crate::account::unchanged(s0, s1)
            &&& out.save == Persist::No && out.unlock
            &&& switch_failed(w, out.next, e@)
        },
        (SwitchPhase::Save, SwitchEvent::Saved(Ok(()))) => {
            &&& crate::account::unchanged(s0, s1)
            &&& out.save == Persist::No && out.unlock
            &&& w.phase == SwitchPhase::Done
            &&& out.next matches SwitchAction::Finish(entry) && manual_entry(s0, w.id@, entry)
        },
        _ => {
            &&& crate::account::unchanged(s0, s1)
            &&& w == w0
            &&& out.save == Persist::No && !out.unlock
            &&& out.next is Wait
        },
    }
}

fn previous_name(store: &AccountStore) -> (name: Option<String>)
    ensures
        crate::json::opt_text(name) == match used_before(*store, 0) {
            Some(a) => Some(a.name@),
            None => None,
        },
{
    let mut i: usize = 0;
    while i < store.accounts.len()
        invariant
            i <= store.accounts@.len(),
            used_before(*store, 0) == used_before(*store, i as int),
        decreases store.accounts@.len() - i,
    {
        let a: &Account = &store.accounts[i];
        let active: bool = match &store.current {
            Some(c) => eq_str(c.as_str(), a.id.as_str()),
            None => false,
        };
        if !active && a.last_used.is_some() {
            return Some(a.name.clone());
        }
        i += 1;
    }
    None
}

impl AccountSwitch {
    fn fail(&mut self, message: String, unlock: bool) -> (out: SwitchStep)
        ensures
            final(self).id == old(self).id,
            switch_failed(*final(self), out.next, message@),
            out.save == Persist::No,
            out.unlock == unlock,
    {
        self.phase = SwitchPhase::Done;
        SwitchStep { save: Persist::No, unlock, next: SwitchAction::Fail(message) }
    }

    fn credentials(&mut self, store: &AccountStore) -> (next: SwitchAction)
        ensures
            final(self).id == old(self).id,
            switch_credentials(*store, *final(self), next),
    {
        match store.find(self.id.as_str()) {
            None => {
                self.phase = SwitchPhase::Done;
                SwitchAction::Fail(concat3("Account ", self.id.as_str(), " not found"))
            },
            Some(i) => {
                let a: &Account = &store.accounts[i];
                match AccountStore::extract_access_token(&a.auth_json) {
                    None => {
                        self.phase = SwitchPhase::Done;
                        SwitchAction::Fail("Account missing access_token".to_owned())
                    },
                    Some(token) => {
                        self.phase = SwitchPhase::Fetch;
                        self.access_token = token;
                        self.refresh_token = copy_opt(&a.refresh_token);
                        self.account_id = AccountStore::extract_account_id(&a.auth_json);
                        SwitchAction::Fetch {
                            access_token: self.access_token.clone(),
                            account_id: copy_opt(&self.account_id),
                            refresh_token: copy_opt(&self.refresh_token),
                            allow_local_refresh: false,
                        }
                    },
                }
            },
        }
    }

    fn on_disk(&mut self, store: &mut AccountStore, disk: Result<DiskAuth, String>) -> (out:
        SwitchStep)
        ensures
            final(self).id == old(self).id,
            !out.unlock,
            switch_disk(*old(store), disk, *final(self), *final(store), out),
    {
        let mut save: Persist = Persist::No;
        if let Ok(d) = &disk {
            if let Some(id) = copy_opt(&store.current) {
                if store.sync_account_from_auth_json(id.as_str(), d) {
                    save = Persist::BestEffort;
                }
            }
        }
        let next: SwitchAction = self.credentials(store);
        SwitchStep { save, unlock: false, next }
    }

    fn on_locked(&mut self, store: &AccountStore, locked: bool) -> (out: SwitchStep)
        ensures
            final(self).id == old(self).id,
            out.save == Persist::No,
            switch_locked(*store, locked, *final(self), out),
    {
        if !locked {
            return self.fail(
                "This account is being refreshed by another process, please try again later".to_owned(),
                false,
            );
        }
        match store.switch_document(self.id.as_str()) {
            Ok(document) => {
                self.phase = SwitchPhase::Write;
                SwitchStep {
                    save: Persist::No,
                    unlock: false,
                    next: SwitchAction::WriteDocument(document),
                }
            },
            Err(e) => self.fail(e, true),
        }
    }

    /// Takes the switch one step on.
    pub fn step(&mut self, store: &mut AccountStore, event: SwitchEvent, now: Timestamp) -> (out:
        SwitchStep)
        ensures
            switch_step(*old(self), *old(store), event, now, *final(self), *final(store), out),
    {
        match (self.phase, event) {
            (SwitchPhase::Disk, SwitchEvent::DiskRead(disk)) => self.on_disk(store, disk),
            (SwitchPhase::Fetch, SwitchEvent::Fetched(result)) => {
                let mut save: Persist = Persist::No;
                if let Ok(u) = &result {
                    if let Some(i) = store.find(self.id.as_str()) {
                        store.accounts[i].cached_quota = Some(usage_to_cached(u, now));
                        save = Persist::BestEffort;
                    }
                }
                self.phase = SwitchPhase::Lock;
                SwitchStep { save, unlock: false, next: SwitchAction::TakeLock }
            },
            (SwitchPhase::Lock, SwitchEvent::Locked(locked)) => self.on_locked(store, locked),
            (SwitchPhase::Write, SwitchEvent::Written(Ok(_))) => {
                store.set_active(self.id.as_str(), now);
                self.phase = SwitchPhase::Save;
                SwitchStep { save: Persist::No, unlock: false, next: SwitchAction::SaveStore }
            },
            (SwitchPhase::Write, SwitchEvent::Written(Err(e))) => self.fail(e, true),
            (SwitchPhase::Save, SwitchEvent::Saved(Err(e))) => self.fail(e, true),
            (SwitchPhase::Save, SwitchEvent::Saved(Ok(_))) => {
                self.phase = SwitchPhase::Done;
                let at: Option<usize> = store.find(self.id.as_str());
                let entry: SwitchEntry = SwitchEntry {
                    from_name: previous_name(store),
                    to_name: name_at(store, at),
                    reason: SwitchReason::Manual,
                    from_quota: None,
                    to_quota: five_hours_at(store, at),
                };
                SwitchStep { save: Persist::No, unlock: true, next: SwitchAction::Finish(entry) }
            },
            _ => SwitchStep { save: Persist::No, unlock: false, next: SwitchAction::Wait },
        }
    }
}

/// Starts a switch to the account `id`: the login document on disk is read first.
pub fn switch_account(id: &str) -> (w: AccountSwitch)
    ensures
        w.id@ == id@,
        w.phase == SwitchPhase::Disk,
{
    AccountSwitch {
        id: id.to_owned(),
        phase: SwitchPhase::Disk,
        access_token: String::new(),
        account_id: None,
        refresh_token: None,
    }
}

/// The lock of the account is given back exactly when the switch stops holding it, on every way
/// out.
pub proof fn switch_gives_the_lock_back(
    w0: AccountSwitch,
    s0: AccountStore,
    event: SwitchEvent,
    now: Timestamp,
    w: AccountSwitch,
    s1: AccountStore,
    out: SwitchStep,
)
    requires
        switch_step(w0, s0, event, now, w, s1, out),
    ensures
        out.unlock == ((holds_lock(w0.phase) || (w0.phase == SwitchPhase::Lock && event
            == SwitchEvent::Locked(true))) && !holds_lock(w.phase)),
        holds_lock(w.phase) ==> holds_lock(w0.phase) || event == SwitchEvent::Locked(true),
{
}

/// The active account changes only once the login document of the new one stands on disk, and
/// then to the account of the switch. No step changes which accounts there are, or the settings.
pub proof fn switch_writes_before_it_switches(
    w0: AccountSwitch,
    s0: AccountStore,
    event: SwitchEvent,
    now: Timestamp,
    w: AccountSwitch,
    s1: AccountStore,
    out: SwitchStep,
)
    requires
        switch_step(w0, s0, event, now, w, s1, out),
    ensures
        s1.current != s0.current ==> {
            &&& w0.phase == SwitchPhase::Write
            &&& event matches SwitchEvent::Written(r) && r is Ok
            &&& s1.current matches Some(c) && c@ == w.id@
        },
        crate::account::same_ids(s0.accounts@, s1.accounts@),
        s1.settings == s0.settings,
{
    crate::account::lemma_place_from(s0.accounts@, w.id@, 0);
    if let Some(c) = s0.current {
        crate::account::lemma_place_from(s0.accounts@, c@, 0);
    }
}

/// The tokens of an account are left alone.
pub open spec fn tokens_kept(a: Account, b: Account) -> bool {
    b.auth_json@ == a.auth_json@ && b.refresh_token == a.refresh_token
}

/// A switch renews no tokens: those of every account stay as they are, except that the active
/// account takes over the login document that stands on disk.
pub proof fn switch_renews_no_tokens(
    w0: AccountSwitch,
    s0: AccountStore,
    event: SwitchEvent,
    now: Timestamp,
    w: AccountSwitch,
    s1: AccountStore,
    out: SwitchStep,
    i: int,
)
    requires
        switch_step(w0, s0, event, now, w, s1, out),
        0 <= i < s0.accounts@.len(),
    ensures
        i < s1.accounts@.len(),
        tokens_kept(s0.accounts@[i], s1.accounts@[i]) || {
            &&& w0.phase == SwitchPhase::Disk
            &&& s0.current matches Some(c) && c@ == s0.accounts@[i].id@
            &&& event matches SwitchEvent::DiskRead(Ok(d)) && crate::account::auth_taken(
                s0.accounts@[i],
                s1.accounts@[i],
                d,
            )
        },
{
    crate::account::lemma_place_from(s0.accounts@, w.id@, 0);
    if let Some(c) = s0.current {
        crate::account::lemma_place_from(s0.accounts@, c@, 0);
    }
}

/// An account that has become the active one is the one that is found as such.
pub proof fn made_active_is_current(
    before: AccountStore,
    after: AccountStore,
    id: Seq<char>,
    now: Timestamp,
)
    requires
        made_active(before, after, id, now),
        crate::account::place(before.accounts@, id) is Some,
    ensures
        after.current_account() matches Some(a) && a.id@ == id && a.last_used == Some(now),
{
    crate::account::lemma_place_from(before.accounts@, id, 0);
    crate::account::lemma_place_from(after.accounts@, id, 0);
    let p = crate::account::place_from(before.accounts@, id, 0);
    let q = crate::account::place_from(after.accounts@, id, 0);
    if q < p {
        assert(before.accounts@[q].id@ != id);
    }
    if p < q {
        assert(after.accounts@[p].id@ != id);
    }
}

// ---------------------------------------------------------------------------
// Switching to the best account
// ---------------------------------------------------------------------------

/// A search for the next account: the candidates, best first, and the one that is being asked
/// for its quota.
#[derive(Debug)]
pub struct SmartSwitch {
    pub candidates: Vec<(String, String, i64)>,
    pub at: usize,
}

/// What is to be done for a search.
#[derive(Debug)]
pub enum SmartAction {
    /// Ask for the quota of this account.
    Query { id: String },
    /// Switch to this account.
    Switch { id: String },
    /// There is no account to switch to.
    Fail(String),
}

/// The report, whose plan in lower case is `plan`, shows that there is something left.
pub open spec fn has_quota(u: UsageDisplay, plan: Seq<char>) -> bool {
    u.five_hour_left > 0 && (crate::selection::free_plan(plan) || u.weekly_left > 0)
}

/// Whether the report, whose plan in lower case is `plan`, shows that there is something left.
pub fn shows_quota(u: &UsageDisplay, plan: &str) -> (b: bool)
    ensures
        b == has_quota(*u, plan@),
{
    if is_free_plan(plan) {
        u.five_hour_left > 0
    } else {
        u.five_hour_left > 0 && u.weekly_left > 0
    }
}

/// One step of a search, in which the quota of the candidate came back.
pub open spec fn smart_step(
    before: SmartSwitch,
    quota: Result<UsageDisplay, String>,
    after: SmartSwitch,
    action: SmartAction,
) -> bool {
    let n = before.candidates@.len();
    &&& after.candidates@ == before.candidates@
    &&& if before.at < n && (quota matches Ok(u) && has_quota(
        u,
        crate::text::lowered(u.plan_type@),
    )) {
        after.at == before.at && (action matches SmartAction::Switch { id } && id
            == before.candidates@[before.at as int].0)
    } else if before.at + 1 < n {
        after.at == before.at + 1 && (action matches SmartAction::Query { id } && id
            == before.candidates@[before.at + 1].0)
    } else {
        after.at == n && (action matches SmartAction::Fail(m) && m@
            == "Checked all accounts, no account with available quota found"@)
    }
}

impl SmartSwitch {
    /// Takes the search one step on, with the quota of the candidate that was asked for.
    pub fn step(&mut self, quota: Result<UsageDisplay, String>) -> (action: SmartAction)
        ensures
            smart_step(*old(self), quota, *final(self), action),
    {
        let n: usize = self.candidates.len();
        if self.at < n {
            if let Ok(u) = &quota {
                let plan: String = to_lowercase(u.plan_type.as_str());
                if shows_quota(u, plan.as_str()) {
                    return SmartAction::Switch { id: self.candidates[self.at].0.clone() };
                }
            }
        }
        if n > 0 && self.at < n - 1 {
            self.at = self.at + 1;
            SmartAction::Query { id: self.candidates[self.at].0.clone() }
        } else {
            self.at = n;
            SmartAction::Fail(
                "Checked all accounts, no account with available quota found".to_owned(),
            )
        }
    }
}

/// Starts the search for the next account at the second `now`.
pub fn switch_to_next_account_at(store: &AccountStore, now: i64) -> (start: (
    SmartSwitch,
    SmartAction,
))
    ensures
        crate::selection::scored_list(start.0.candidates@) == crate::selection::ranking(
            *store,
            now as int,
        ),
        start.0.at == 0,
        if start.0.candidates@.len() == 0 {
            start.1 matches SmartAction::Fail(m) && m@ == "No available accounts"@
        } else {
            start.1 matches SmartAction::Query { id } && id == start.0.candidates@[0].0
        },
{
    let candidates: Vec<(String, String, i64)> = score_candidate_accounts_at(store, now);
    let action: SmartAction = if candidates.len() == 0 {
        SmartAction::Fail("No available accounts".to_owned())
    } else {
        SmartAction::Query { id: candidates[0].0.clone() }
    };
    (SmartSwitch { candidates, at: 0 }, action)
}

/// Starts the search for the next account now.
pub fn switch_to_next_account_internal(store: &AccountStore) -> (start: (SmartSwitch, SmartAction))
    ensures
        exists|now: i64|
            0 <= now <= crate::clock::LAST_SECOND && crate::selection::scored_list(
                start.0.candidates@,
            ) == #[trigger] crate::selection::ranking(*store, now as int),
        start.0.at == 0,
        if start.0.candidates@.len() == 0 {
            start.1 matches SmartAction::Fail(m) && m@ == "No available accounts"@
        } else {
            start.1 matches SmartAction::Query { id } && id == start.0.candidates@[0].0
        },
{
    let t: Timestamp = crate::clock::now();
    switch_to_next_account_at(store, t.secs)
}

/// A search asks the candidates one after the other, best first, and ends: it switches to the
/// first one that turns out to have quota left, and fails when none is left to ask.
pub proof fn search_goes_down_the_ranking(
    before: SmartSwitch,
    quota: Result<UsageDisplay, String>,
    after: SmartSwitch,
    action: SmartAction,
)
    requires
        smart_step(before, quota, after, action),
        before.at < before.candidates@.len(),
    ensures
        action is Switch <==> (quota matches Ok(u) && has_quota(
            u,
            crate::text::lowered(u.plan_type@),
        )),
        action matches SmartAction::Switch { id } ==> id == before.candidates@[before.at as int].0,
        action is Query ==> after.at == before.at + 1 && after.at < after.candidates@.len(),
        action is Fail ==> before.at + 1 == before.candidates@.len(),
{
}

// ---------------------------------------------------------------------------
// Switching on the proxy's own accord
// ---------------------------------------------------------------------------

/// A switch that the proxy makes on its own accord.
#[derive(Debug)]
pub struct AutoSwitch {
    pub id: String,
    pub reason: SwitchReason,
    pub from_name: Option<String>,
    pub from_quota: Option<i32>,
}

/// What there is to do after a switch: the entry for the log, the text of a notification and the
/// text of a message for the open conversation, where they are wanted. The open connections are
/// broken off, and the name of the new account is announced.
#[derive(Debug)]
pub struct SwitchEffects {
    pub entry: SwitchEntry,
    pub notify: Option<String>,
    pub inject: Option<String>,
}

/// The switch notes where it comes from, and the document is that of the account it goes to.
pub open spec fn auto_begun(
    store: AccountStore,
    id: Seq<char>,
    reason: SwitchReason,
    start: Result<(AutoSwitch, Json), String>,
) -> bool {
    match crate::account::lookup(store.accounts@, id) {
        None => start matches Err(e) && e@ == "Account "@ + id + " not found"@,
        Some(a) => match start {
            Err(_) => false,
            Ok(s) => {
                &&& s.0.id@ == id
                &&& s.0.reason == reason
                &&& crate::json::opt_text(s.0.from_name) == match store.current_account() {
                    Some(c) => Some(c.name@),
                    None => None,
                }
                &&& s.0.from_quota == five_hours_of(store.current_account())
                &&& s.1@ == a.auth_json@
            },
        },
    }
}

/// What there is to do after the switch `w` in the store.
pub open spec fn effects_of(w: AutoSwitch, store: AccountStore, e: SwitchEffects) -> bool {
    let to = crate::account::lookup(store.accounts@, w.id@);
    let from = match w.from_name {
        Some(n) => n@,
        None => "None"@,
    };
    &&& e.entry.from_name == w.from_name
    &&& e.entry.to_name@ == name_of(to)
    &&& e.entry.reason == w.reason
    &&& e.entry.from_quota == w.from_quota
    &&& e.entry.to_quota == five_hours_of(to)
    &&& crate::json::opt_text(e.notify) == if store.settings.notify_on_switch {
        Some(from + " → "@ + name_of(to))
    } else {
        None
    }
    &&& crate::json::opt_text(e.inject) == if store.settings.inject_switch_message {
        Some("⚡ [Codex Switcher] Switched to "@ + name_of(to))
    } else {
        None
    }
}

/// Begins a switch to the account `id`: the document has to be written to disk next.
pub fn do_switch(store: &AccountStore, id: &str, reason: SwitchReason) -> (start: Result<
    (AutoSwitch, Json),
    String,
>)
    ensures
        auto_begun(*store, id@, reason, start),
{
    let at: Option<usize> = store.find_current();
    let from_name: Option<String> = match at {
        Some(i) => Some(store.accounts[i].name.clone()),
        None => None,
    };
    let from_quota: Option<i32> = five_hours_at(store, at);
    match store.switch_document(id) {
        Ok(document) => Ok(
            (AutoSwitch { id: id.to_owned(), reason, from_name, from_quota }, document),
        ),
        Err(e) => Err(e),
    }
}

impl AutoSwitch {
    /// Makes the account active, where its document was written; the store has to be written to
    /// disk next.
    pub fn written(
        &self,
        store: &mut AccountStore,
        outcome: Result<(), String>,
        now: Timestamp,
    ) -> (done: Result<(), String>)
        ensures
            done == outcome,
            match outcome {
                Ok(_) => made_active(*old(store), *final(store), self.id@, now),
                Err(_) => crate::account::unchanged(*old(store), *final(store)),
            },
    {
        match outcome {
            Ok(u) => {
                store.set_active(self.id.as_str(), now);
                Ok(u)
            },
            Err(e) => Err(e),
        }
    }

    /// Counts the switch and says what there is to do after it, where the store was written.
    pub fn saved(
        self,
        store: &AccountStore,
        stats: &mut ProxyStats,
        outcome: Result<(), String>,
    ) -> (effects: Result<SwitchEffects, String>)
        ensures
            final(stats).total_requests == old(stats).total_requests,
            match outcome {
                Ok(_) => {
                    &&& final(stats).auto_switches == crate::proxy::counted(old(stats).auto_switches)
                    &&& effects matches Ok(e) && effects_of(self, *store, e)
                },
                Err(e) => {
                    &&& final(stats).auto_switches == old(stats).auto_switches
                    &&& effects == Err::<SwitchEffects, String>(e)
                },
            },
    {
        if let Err(e) = outcome {
            return Err(e);
        }
        stats.auto_switches = count_on(stats.auto_switches);
        let at: Option<usize> = store.find(self.id.as_str());
        let to_name: String = name_at(store, at);
        let to_quota: Option<i32> = five_hours_at(store, at);
        let notify: Option<String> = if store.settings.notify_on_switch {
            let mut text: String = match &self.from_name {
                Some(n) => n.clone(),
                None => "None".to_owned(),
            };
            text.append(" → ");
            text.append(to_name.as_str());
            Some(text)
        } else {
            None
        };
        let inject: Option<String> = if store.settings.inject_switch_message {
            Some(concat2("⚡ [Codex Switcher] Switched to ", to_name.as_str()))
        } else {
            None
        };
        Ok(
            SwitchEffects {
                entry: SwitchEntry {
                    from_name: self.from_name,
                    to_name,
                    reason: self.reason,
                    from_quota: self.from_quota,
                    to_quota,
                },
                notify,
                inject,
            },
        )
    }
}


/// Making an account active notes when it was last used and changes nothing else, of it or of any
/// other account.
pub proof fn becoming_active_is_noted_and_no_more(
    before: AccountStore,
    after: AccountStore,
    id: Seq<char>,
    now: Timestamp,
    i: int,
)
    requires
        made_active(before, after, id, now),
        0 <= i < before.accounts@.len(),
    ensures
        after.current matches Some(c) && c@ == id,
        after.settings == before.settings,
        after.accounts@.len() == before.accounts@.len(),
        before.accounts@[i].id@ != id ==> after.accounts@[i] == before.accounts@[i],
        before.accounts@[i].id@ == id && (forall|k: int|
            0 <= k < i ==> (#[trigger] before.accounts@[k]).id@ != id) ==> after.accounts@[i]
            == (Account { last_used: Some(now), ..before.accounts@[i] }),
{
    crate::account::lemma_place_from(before.accounts@, id, 0);
}

proof fn lemma_used_before(store: AccountStore, from: int)
    requires
        0 <= from,
    ensures
        match used_before(store, from) {
            Some(a) => exists|i: int|
                {
                    &&& from <= i < store.accounts@.len()
                    &&& #[trigger] store.accounts@[i] == a
                    &&& a.last_used is Some
                    &&& !(store.current matches Some(c) && c@ == a.id@)
                    &&& forall|k: int|
                        from <= k < i ==> (#[trigger] store.accounts@[k]).last_used is None || (
                        store.current matches Some(c) && c@ == store.accounts@[k].id@)
                },
            None => forall|k: int|
                from <= k < store.accounts@.len() ==> (
                #[trigger] store.accounts@[k]).last_used is None || (store.current matches Some(c)
                    && c@ == store.accounts@[k].id@),
        },
    decreases store.accounts@.len() - from,
{
    if from < store.accounts@.len() {
        let a = store.accounts@[from];
        if !(!(store.current matches Some(c) && c@ == a.id@) && a.last_used is Some) {
            lemma_used_before(store, from + 1);
        }
    }
}

/// The entry of a switch on request names the first account that was used before and is not the
/// active one, if there is any, and the account that became active with what it is known to have
/// left of its five hours.
pub proof fn what_the_log_says_of_a_switch(store: AccountStore, id: Seq<char>, entry: SwitchEntry)
    requires
        manual_entry(store, id, entry),
    ensures
        entry.reason == SwitchReason::Manual,
        entry.from_quota is None,
        entry.from_name matches Some(n) ==> exists|i: int|
            {
                &&& 0 <= i < store.accounts@.len()
                &&& (#[trigger] store.accounts@[i]).name@ == n@
                &&& store.accounts@[i].last_used is Some
                &&& !(store.current matches Some(c) && c@ == store.accounts@[i].id@)
                &&& forall|k: int|
                    0 <= k < i ==> (#[trigger] store.accounts@[k]).last_used is None || (
                    store.current matches Some(c) && c@ == store.accounts@[k].id@)
            },
        entry.from_name is None ==> forall|k: int|
            0 <= k < store.accounts@.len() ==> (#[trigger] store.accounts@[k]).last_used is None
                || (store.current matches Some(c) && c@ == store.accounts@[k].id@),
        crate::account::lookup(store.accounts@, id) matches Some(a) ==> {
            &&& entry.to_name@ == a.name@
            &&& a.cached_quota is None ==> entry.to_quota is None
            &&& a.cached_quota is Some ==> entry.to_quota == Some(a.cached_quota->0.five_hour_left)
        },
        crate::account::lookup(store.accounts@, id) is None ==> entry.to_name@.len() == 0
            && entry.to_quota is None,
{
    lemma_used_before(store, 0);
}

/// A switch begins with what its account holds: without the account or its access token it fails
/// and says so; else the usage report is asked for with the tokens as they are, and no local
/// refresh.
pub proof fn switches_ask_with_what_the_account_has(
    w0: AccountSwitch,
    s0: AccountStore,
    disk: Result<DiskAuth, String>,
    now: Timestamp,
    w: AccountSwitch,
    s1: AccountStore,
    out: SwitchStep,
)
    requires
        switch_step(w0, s0, SwitchEvent::DiskRead(disk), now, w, s1, out),
        w0.phase == SwitchPhase::Disk,
    ensures
        w.id == w0.id,
        !out.unlock,
        disk is Err ==> s1.accounts@ == s0.accounts@ && out.save == Persist::No,
        s0.current_account() is None ==> s1.accounts@ == s0.accounts@ && out.save == Persist::No,
        disk is Ok && (s0.current_account() matches Some(a) && !crate::account::one_identity(
            a.auth_json@,
            disk->Ok_0.auth@,
        )) ==> s1.accounts@ == s0.accounts@ && out.save == Persist::No,
        disk is Ok && (s0.current_account() matches Some(a) && crate::account::one_identity(
            a.auth_json@,
            disk->Ok_0.auth@,
        )) ==> out.save == Persist::BestEffort && (s1.current_account() matches Some(b)
            && b.auth_json@ == disk->Ok_0.auth@),
        crate::account::lookup(s1.accounts@, w0.id@) is None ==> w.phase == SwitchPhase::Done && (
        out.next matches SwitchAction::Fail(m) && m@ == "Account "@ + w0.id@ + " not found"@),
        (crate::account::lookup(s1.accounts@, w0.id@) matches Some(a)
            && crate::account::access_token_in(a.auth_json@) is None) ==> w.phase
            == SwitchPhase::Done && (out.next matches SwitchAction::Fail(m) && m@
            == "Account missing access_token"@),
        (crate::account::lookup(s1.accounts@, w0.id@) matches Some(a)
            && crate::account::access_token_in(a.auth_json@) is Some) ==> ({
            let a = crate::account::lookup(s1.accounts@, w0.id@)->0;
            &&& w.phase == SwitchPhase::Fetch
            &&& out.next matches SwitchAction::Fetch {
                access_token,
                account_id,
                refresh_token,
                allow_local_refresh,
            } && access_token@ == crate::account::access_token_in(a.auth_json@)->0
                && crate::json::opt_text(account_id) == crate::account::account_id_in(a.auth_json@)
                && refresh_token == a.refresh_token && !allow_local_refresh
        }),
{
    if let Some(c) = s0.current {
        crate::account::lemma_place_from(s0.accounts@, c@, 0);
        crate::account::lemma_place_from(s1.accounts@, c@, 0);
        let p = crate::account::place_from(s0.accounts@, c@, 0);
        let q = crate::account::place_from(s1.accounts@, c@, 0);
        if s0.current_account() is Some && q < p {
            assert(s1.accounts@[q] == s0.accounts@[q]);
        }
    }
}

/// A usage report is remembered for the account that is switched to, and the switch goes on to its
/// lock; it goes on as well where there is no report, and then nothing changes.
pub proof fn switches_go_on_without_a_report(
    w0: AccountSwitch,
    s0: AccountStore,
    result: Result<UsageDisplay, String>,
    now: Timestamp,
    w: AccountSwitch,
    s1: AccountStore,
    out: SwitchStep,
    i: int,
)
    requires
        switch_step(w0, s0, SwitchEvent::Fetched(result), now, w, s1, out),
        w0.phase == SwitchPhase::Fetch,
        0 <= i < s0.accounts@.len(),
    ensures
        w.id == w0.id,
        w.phase == SwitchPhase::Lock,
        out.next is TakeLock,
        !out.unlock,
        s1.accounts@.len() == s0.accounts@.len(),
        result is Err ==> s1.accounts@ == s0.accounts@ && out.save == Persist::No,
        s0.accounts@[i].id@ != w0.id@ ==> s1.accounts@[i] == s0.accounts@[i],
        result is Ok && (crate::account::lookup(s0.accounts@, w0.id@) matches Some(a)) ==> ({
            let a = crate::account::lookup(s0.accounts@, w0.id@)->0;
            let b = crate::account::lookup(s1.accounts@, w0.id@)->0;
            let u = result->Ok_0;
            &&& out.save != Persist::No
            &&& crate::account::lookup(s1.accounts@, w0.id@) is Some
            &&& b == Account { cached_quota: b.cached_quota, ..a }
            &&& b.cached_quota matches Some(q) && q.five_hour_left == u.five_hour_left
                && q.weekly_left == u.weekly_left && q.plan_type@ == u.plan_type@
                && q.updated_at == now
        }),
{
    crate::account::lemma_place_from(s0.accounts@, w0.id@, 0);
    if result is Ok && crate::account::lookup(s0.accounts@, w0.id@) is Some {
        let u = result->Ok_0;
        let rel = |a: Account, b: Account|
            b == Account { cached_quota: Some(crate::usage::cached_of(u, now)), ..a };
        crate::account::lemma_lookup_after(s0, s1, w0.id@, rel);
    }
}

/// Without the lock a switch fails and nothing has changed. With it the login document of the
/// account is written; the account becomes active only once it stands on disk, and the switch is
/// over once the store does too. Where either cannot be written, that is what it fails with.
pub proof fn how_switches_end(
    w0: AccountSwitch,
    s0: AccountStore,
    event: SwitchEvent,
    now: Timestamp,
    w: AccountSwitch,
    s1: AccountStore,
    out: SwitchStep,
)
    requires
        switch_step(w0, s0, event, now, w, s1, out),
    ensures
        w0.phase == SwitchPhase::Lock && event == SwitchEvent::Locked(false) ==> s1.accounts@
            == s0.accounts@ && s1.current == s0.current && w.phase == SwitchPhase::Done && (
        out.next matches SwitchAction::Fail(m) && m@
            == "This account is being refreshed by another process, please try again later"@)
            && !out.unlock,
        w0.phase == SwitchPhase::Lock && event == SwitchEvent::Locked(true) && (
        crate::account::lookup(s0.accounts@, w0.id@) matches Some(a)) ==> s1.accounts@
            == s0.accounts@ && s1.current == s0.current && w.phase == SwitchPhase::Write && (
        out.next matches SwitchAction::WriteDocument(d) && d@ == crate::account::lookup(
            s0.accounts@,
            w0.id@,
        )->0.auth_json@) && !out.unlock,
        w0.phase == SwitchPhase::Lock && event == SwitchEvent::Locked(true)
            && crate::account::lookup(s0.accounts@, w0.id@) is None ==> s1.accounts@ == s0.accounts@
            && s1.current == s0.current && w.phase == SwitchPhase::Done && (
        out.next matches SwitchAction::Fail(m) && m@ == "Account "@ + w0.id@ + " not found"@)
            && out.unlock,
        w0.phase == SwitchPhase::Write && (event matches SwitchEvent::Written(r) && r is Ok)
            ==> w.phase == SwitchPhase::Save && out.next is SaveStore && !out.unlock && (
        s1.current matches Some(c) && c@ == w0.id@),
        w0.phase == SwitchPhase::Write && (event matches SwitchEvent::Written(r) && r is Err)
            ==> w.phase == SwitchPhase::Done && out.unlock && s1.accounts@ == s0.accounts@
            && s1.current == s0.current && (out.next matches SwitchAction::Fail(m) && m@
            == event->Written_0->Err_0@),
        w0.phase == SwitchPhase::Save && (event matches SwitchEvent::Saved(r) && r is Err)
            ==> w.phase == SwitchPhase::Done && out.unlock && s1.accounts@ == s0.accounts@
            && s1.current == s0.current && (out.next matches SwitchAction::Fail(m) && m@
            == event->Saved_0->Err_0@),
        w0.phase == SwitchPhase::Save && (event matches SwitchEvent::Saved(r) && r is Ok)
            ==> w.phase == SwitchPhase::Done && out.unlock && s1.accounts@ == s0.accounts@
            && s1.current == s0.current && (out.next matches SwitchAction::Finish(entry)
            && manual_entry(s0, w0.id@, entry)),
{
}

/// A report shows that something is left where something is left of the five hours, and of the
/// week as well unless the plan is a free one or not known.
pub proof fn what_counts_as_left(u: UsageDisplay, plan: Seq<char>)
    ensures
        u.five_hour_left <= 0 ==> !has_quota(u, plan),
        u.five_hour_left > 0 && u.weekly_left > 0 ==> has_quota(u, plan),
        u.five_hour_left > 0 && u.weekly_left <= 0 ==> (has_quota(u, plan) <==> plan == "free"@
            || plan == "unknown"@),
{
}

/// The search asks each candidate in its turn, switches to the first whose report shows something
/// left, and says in the end that there was none.
pub proof fn the_search_takes_the_first_with_something_left(
    before: SmartSwitch,
    quota: Result<UsageDisplay, String>,
    after: SmartSwitch,
    action: SmartAction,
)
    requires
        smart_step(before, quota, after, action),
        before.at < before.candidates@.len(),
    ensures
        after.candidates@ == before.candidates@,
        (quota matches Ok(u) && u.five_hour_left > 0 && u.weekly_left > 0) ==> (
        action matches SmartAction::Switch { id } && id
            == before.candidates@[before.at as int].0),
        (quota matches Ok(u) && u.five_hour_left <= 0) ==> action !is Switch,
        quota is Err ==> action !is Switch,
        (quota is Err || (quota matches Ok(u) && u.five_hour_left <= 0)) && before.at + 1
            < before.candidates@.len() ==> after.at == before.at + 1 && (
        action matches SmartAction::Query { id } && id == before.candidates@[before.at + 1].0),
        (quota is Err || (quota matches Ok(u) && u.five_hour_left <= 0)) && before.at + 1
            == before.candidates@.len() ==> (action matches SmartAction::Fail(m) && m@
            == "Checked all accounts, no account with available quota found"@),
{
}

/// A switch of the proxy's own accord goes to the account that it was asked for, with that
/// account's login document, and remembers the active account with what it is known to have left.
pub proof fn own_switches_know_where_they_come_from(
    store: AccountStore,
    id: Seq<char>,
    reason: SwitchReason,
    start: Result<(AutoSwitch, Json), String>,
)
    requires
        auto_begun(store, id, reason, start),
    ensures
        crate::account::lookup(store.accounts@, id) is None ==> (start matches Err(e) && e@
            == "Account "@ + id + " not found"@),
        crate::account::lookup(store.accounts@, id) is Some ==> start is Ok,
        start matches Ok(s) ==> {
            &&& crate::account::lookup(store.accounts@, id) is Some
            &&& s.0.id@ == id
            &&& s.0.reason == reason
            &&& s.1@ == crate::account::lookup(store.accounts@, id)->0.auth_json@
            &&& store.current_account() is None ==> s.0.from_name is None && s.0.from_quota is None
            &&& store.current_account() is Some ==> (s.0.from_name matches Some(n) && n@
                == store.current_account()->0.name@)
            &&& (store.current_account() matches Some(a) && a.cached_quota is Some)
                ==> s.0.from_quota == Some(
                store.current_account()->0.cached_quota->0.five_hour_left,
            )
            &&& (store.current_account() matches Some(a) && a.cached_quota is None)
                ==> s.0.from_quota is None
        },
{
}

/// After such a switch the log has where it came from, where it went and why; the notification and
/// the message for the conversation are there just where the settings want them, and name the new
/// account.
pub proof fn what_follows_own_switches(w: AutoSwitch, store: AccountStore, e: SwitchEffects)
    requires
        effects_of(w, store, e),
        crate::account::lookup(store.accounts@, w.id@) is Some,
    ensures
        e.entry.from_name == w.from_name,
        e.entry.from_quota == w.from_quota,
        e.entry.reason == w.reason,
        e.entry.to_name@ == crate::account::lookup(store.accounts@, w.id@)->0.name@,
        crate::account::lookup(store.accounts@, w.id@)->0.cached_quota matches Some(q)
            ==> e.entry.to_quota == Some(q.five_hour_left),
        crate::account::lookup(store.accounts@, w.id@)->0.cached_quota is None
            ==> e.entry.to_quota is None,
        e.notify is Some <==> store.settings.notify_on_switch,
        e.inject is Some <==> store.settings.inject_switch_message,
        e.notify is Some && w.from_name is Some ==> e.notify->0@ == w.from_name->0@ + " → "@
            + e.entry.to_name@,
        e.notify is Some && w.from_name is None ==> e.notify->0@ == "None"@ + " → "@
            + e.entry.to_name@,
        e.inject is Some ==> e.inject->0@ == "⚡ [Codex Switcher] Switched to "@
            + e.entry.to_name@,
{
}

} // verus!
