//! The managed accounts: what is known of each login, and which one is active.
use crate::clock::{rfc3339, shift, Timestamp};
use crate::json::{get_of, string_of, Json, JsonView};
use crate::text::eq_str;
use vstd::prelude::*;

verus! {

/// The quota of an account as it was last seen, in whole per cent.
#[derive(Debug)]
pub struct CachedQuota {
    pub five_hour_left: i32,
    pub five_hour_reset: String,
    pub five_hour_reset_at: Option<i64>,
    pub five_hour_label: String,
    pub weekly_left: i32,
    pub weekly_reset: String,
    pub weekly_reset_at: Option<i64>,
    pub weekly_label: String,
    pub plan_type: String,
    pub is_valid_for_cli: bool,
    pub updated_at: Timestamp,
}

/// How the tokens of an account that is not active are kept alive.
#[derive(Debug)]
pub struct KeepaliveState {
    pub inactive_refresh_enabled: bool,
    pub last_attempt: Option<Timestamp>,
    pub last_error: Option<String>,
}

/// A managed account.
#[derive(Debug)]
pub struct Account {
    pub id: String,
    pub name: String,
    /// The login document of the account.
    pub auth_json: Json,
    /// The e-mail address that the login document names, where it names one.
    pub email: Option<String>,
    pub refresh_token: Option<String>,
    pub created_at: Timestamp,
    pub last_used: Option<Timestamp>,
    pub notes: Option<String>,
    pub cached_quota: Option<CachedQuota>,
    pub keepalive: KeepaliveState,
    pub is_banned: bool,
    pub is_token_invalid: bool,
    pub is_logged_out: bool,
}

/// The settings of the program.
#[derive(Debug, Clone, Copy)]
pub struct AppSettings {
    pub background_refresh: bool,
    pub refresh_interval_minutes: u32,
    pub inactive_refresh_days: u32,
    pub proxy_enabled: bool,
    pub proxy_port: u16,
    pub proxy_allow_lan: bool,
    pub proxy_threshold_5h: u32,
    pub proxy_threshold_weekly: u32,
    pub proxy_free_guard: u32,
    pub quota_refresh_enabled: bool,
    pub quota_refresh_interval: u32,
    pub quota_refresh_batch: u32,
    pub allow_auto_switch_to_free: bool,
    pub notify_on_switch: bool,
    pub inject_switch_message: bool,
}

/// All managed accounts, and the one that is active.
#[derive(Debug)]
pub struct AccountStore {
    pub accounts: Vec<Account>,
    pub current: Option<String>,
    pub settings: AppSettings,
}

/// A login document from outside the store, with the e-mail address that it names.
#[derive(Debug)]
pub struct DiskAuth {
    pub auth: Json,
    pub email: Option<String>,
}

/// What a token refresh hands back.
#[derive(Debug)]
pub struct TokenResponse {
    pub access_token: String,
    pub refresh_token: Option<String>,
    pub id_token: Option<String>,
    pub expires_in: Option<i64>,
    /// The e-mail address that the id token names, where there is one and it names one.
    pub email: Option<String>,
}

// ---------------------------------------------------------------------------
// Reading login documents
// ---------------------------------------------------------------------------

/// The token `name` of a login document.
pub open spec fn token_in(auth: JsonView, name: Seq<char>) -> Option<Seq<char>> {
    crate::json::text_of(
        crate::json::field_of(crate::json::field(auth, "tokens"@), name),
    )
}

/// The access token of a login document.
pub open spec fn access_token_in(auth: JsonView) -> Option<Seq<char>> {
    token_in(auth, "access_token"@)
}

/// The refresh token of a login document.
pub open spec fn refresh_token_in(auth: JsonView) -> Option<Seq<char>> {
    token_in(auth, "refresh_token"@)
}

/// The account id of a login document: its own member, else the one among the tokens.
pub open spec fn account_id_in(auth: JsonView) -> Option<Seq<char>> {
    match crate::json::field(auth, "account_id"@) {
        Some(v) => crate::json::text_of(Some(v)),
        None => token_in(auth, "account_id"@),
    }
}

/// Two login documents belong to one identity: both name an account id, and it is the same.
pub open spec fn one_identity(a: JsonView, b: JsonView) -> bool {
    account_id_in(a) is Some && account_id_in(a) == account_id_in(b)
}

impl AccountStore {
    /// The access token of a login document.
    pub fn extract_access_token(auth: &Json) -> (token: Option<String>)
        ensures
            crate::json::opt_text(token) == access_token_in(auth@),
    {
        string_of(get_of(auth.get("tokens"), "access_token"))
    }

    /// The refresh token of a login document.
    pub fn extract_refresh_token(auth: &Json) -> (token: Option<String>)
        ensures
            crate::json::opt_text(token) == refresh_token_in(auth@),
    {
        string_of(get_of(auth.get("tokens"), "refresh_token"))
    }

    /// The account id of a login document.
    pub fn extract_account_id(auth: &Json) -> (id: Option<String>)
        ensures
            crate::json::opt_text(id) == account_id_in(auth@),
    {
        match auth.get("account_id") {
            Some(v) => string_of(Some(v)),
            None => string_of(get_of(auth.get("tokens"), "account_id")),
        }
    }

    /// Whether two login documents belong to one identity.
    pub fn auth_identity_matches(a: &Json, b: &Json) -> (same: bool)
        ensures
            same == one_identity(a@, b@),
    {
        match (Self::extract_account_id(a), Self::extract_account_id(b)) {
            (Some(x), Some(y)) => x == y,
            _ => false,
        }
    }
}

// ---------------------------------------------------------------------------
// Finding accounts
// ---------------------------------------------------------------------------

/// The position of the first account from `from` on with the id `id`; the number of accounts if
/// there is none.
pub open spec fn place_from(accounts: Seq<Account>, id: Seq<char>, from: int) -> int
    decreases accounts.len() - from,
{
    if from >= accounts.len() {
        accounts.len() as int
    } else if accounts[from].id@ == id {
        from
    } else {
        place_from(accounts, id, from + 1)
    }
}

/// The position of the account with the id `id`.
pub open spec fn place(accounts: Seq<Account>, id: Seq<char>) -> Option<int> {
    let at = place_from(accounts, id, 0);
    if 0 <= at < accounts.len() {
        Some(at)
    } else {
        None
    }
}

/// The account with the id `id`.
pub open spec fn lookup(accounts: Seq<Account>, id: Seq<char>) -> Option<Account> {
    match place(accounts, id) {
        Some(at) => Some(accounts[at]),
        None => None,
    }
}

pub(crate) proof fn lemma_place_from(accounts: Seq<Account>, id: Seq<char>, from: int)
    requires
        0 <= from <= accounts.len(),
    ensures
        from <= place_from(accounts, id, from) <= accounts.len(),
        place_from(accounts, id, from) < accounts.len() ==> accounts[place_from(
            accounts,
            id,
            from,
        )].id@ == id,
        forall|i: int| from <= i < place_from(accounts, id, from) ==> accounts[i].id@ != id,
    decreases accounts.len() - from,
{
    if from < accounts.len() && accounts[from].id@ != id {
        lemma_place_from(accounts, id, from + 1);
    }
}

/// No two accounts share an id.
pub open spec fn distinct_ids(accounts: Seq<Account>) -> bool {
    forall|i: int, j: int|
        0 <= i < j < accounts.len() ==> #[trigger] accounts[i].id@ != #[trigger] accounts[j].id@
}

/// The same accounts stand in the same order, whatever else has changed of them.
pub open spec fn same_ids(before: Seq<Account>, after: Seq<Account>) -> bool {
    &&& after.len() == before.len()
    &&& forall|k: int| 0 <= k < before.len() ==> (#[trigger] after[k]).id == before[k].id
}

/// The accounts are those of before, but for the one at `at`, which `rel` relates to what it was.
pub open spec fn changed_at(
    before: Seq<Account>,
    after: Seq<Account>,
    at: Option<int>,
    rel: spec_fn(Account, Account) -> bool,
) -> bool {
    match at {
        Some(i) => {
            &&& after.len() == before.len()
            &&& rel(before[i], after[i])
            &&& forall|k: int| 0 <= k < before.len() && k != i ==> after[k] == before[k]
        },
        None => after == before,
    }
}

/// The store is that of before, but for the account `id`, which `rel` relates to what it was.
/// Where there is no such account, nothing has changed.
pub open spec fn account_changed(
    before: AccountStore,
    after: AccountStore,
    id: Seq<char>,
    rel: spec_fn(Account, Account) -> bool,
) -> bool {
    &&& after.current == before.current
    &&& after.settings == before.settings
    &&& changed_at(before.accounts@, after.accounts@, place(before.accounts@, id), rel)
}

/// The store is that of before, but for the active account, which `rel` relates to what it was.
pub open spec fn current_changed(
    before: AccountStore,
    after: AccountStore,
    rel: spec_fn(Account, Account) -> bool,
) -> bool {
    &&& after.current == before.current
    &&& after.settings == before.settings
    &&& changed_at(before.accounts@, after.accounts@, before.current_place(), rel)
}

/// The two stores hold the same.
pub open spec fn unchanged(before: AccountStore, after: AccountStore) -> bool {
    &&& after.current == before.current
    &&& after.settings == before.settings
    &&& after.accounts@ == before.accounts@
}

impl AccountStore {
    /// The active account.
    pub open spec fn current_place(self) -> Option<int> {
        match self.current {
            Some(id) => place(self.accounts@, id@),
            None => None,
        }
    }

    /// The active account.
    pub open spec fn current_account(self) -> Option<Account> {
        match self.current {
            Some(id) => lookup(self.accounts@, id@),
            None => None,
        }
    }

    /// The position of the account with the id `id`.
    pub fn find(&self, id: &str) -> (at: Option<usize>)
        ensures
            match at {
                Some(i) => place(self.accounts@, id@) == Some(i as int) && i < self.accounts@.len()
                    && self.accounts@[i as int].id@ == id@,
                None => place(self.accounts@, id@) is None,
            },
    {
        let mut i: usize = 0;
        while i < self.accounts.len()
            invariant
                i <= self.accounts@.len(),
                place_from(self.accounts@, id@, 0) == place_from(self.accounts@, id@, i as int),
            decreases self.accounts@.len() - i,
        {
            if eq_str(self.accounts[i].id.as_str(), id) {
                return Some(i);
            }
            i += 1;
        }
        None
    }

    /// The position of the active account.
    pub fn find_current(&self) -> (at: Option<usize>)
        ensures
            match at {
                Some(i) => self.current_place() == Some(i as int) && i < self.accounts@.len()
                    && self.current_account() == Some(self.accounts@[i as int]),
                None => self.current_place() is None && self.current_account() is None,
            },
    {
        match &self.current {
            Some(id) => self.find(id.as_str()),
            None => None,
        }
    }
}

// ---------------------------------------------------------------------------
// Changing accounts
// ---------------------------------------------------------------------------

impl Account {
    /// The account with those flags set that are given.
    pub open spec fn flagged(
        self,
        banned: Option<bool>,
        token_invalid: Option<bool>,
        logged_out: Option<bool>,
    ) -> Account {
        Account {
            is_banned: banned.unwrap_or(self.is_banned),
            is_token_invalid: token_invalid.unwrap_or(self.is_token_invalid),
            is_logged_out: logged_out.unwrap_or(self.is_logged_out),
            ..self
        }
    }

    /// The account can be used: it is not banned, its token is valid and it is logged in.
    pub open spec fn usable(self) -> bool {
        !self.is_banned && !self.is_token_invalid && !self.is_logged_out
    }

    /// Whether the account can be used.
    pub fn is_usable(&self) -> (b: bool)
        ensures
            b == self.usable(),
    {
        !self.is_banned && !self.is_token_invalid && !self.is_logged_out
    }

    /// The account with nothing left of the five hour window, as far as a quota is known.
    pub open spec fn depleted(self) -> Account {
        Account {
            cached_quota: match self.cached_quota {
                Some(q) => Some(CachedQuota { five_hour_left: 0, ..q }),
                None => None,
            },
            ..self
        }
    }
}

/// The tokens of a login document after a refresh. A refresh token that is known but stands
/// nowhere in the document is put there when the refresh brings none.
pub open spec fn refreshed_tokens(
    tokens: JsonView,
    new: TokenResponse,
    known: Option<Seq<char>>,
    now: Timestamp,
) -> JsonView {
    let a = crate::json::with_field(tokens, "access_token"@, JsonView::Str(new.access_token@));
    let b = match new.refresh_token {
        Some(rt) => crate::json::with_field(a, "refresh_token"@, JsonView::Str(rt@)),
        None => match known {
            Some(rt) => if crate::json::field(a, "refresh_token"@) is None {
                crate::json::with_field(a, "refresh_token"@, JsonView::Str(rt))
            } else {
                a
            },
            None => a,
        },
    };
    let c = match new.id_token {
        Some(it) => crate::json::with_field(b, "id_token"@, JsonView::Str(it@)),
        None => b,
    };
    match expiry(new, now) {
        Some(t) => crate::json::with_field(
            c,
            "expires_at"@,
            JsonView::Str(crate::clock::rfc3339_text(t.secs, t.nanos)),
        ),
        None => c,
    }
}

/// When the new access token expires, where that is known and the calendar can name it.
pub open spec fn expiry(new: TokenResponse, now: Timestamp) -> Option<Timestamp> {
    match new.expires_in {
        Some(secs) => crate::clock::shifted(now, secs as int),
        None => None,
    }
}

/// A login document after a refresh: its tokens are renewed where it has an object of them, and
/// the time of the refresh is noted.
pub open spec fn refreshed_auth(
    auth: JsonView,
    new: TokenResponse,
    known: Option<Seq<char>>,
    now: Timestamp,
) -> JsonView {
    let renewed = match crate::json::field(auth, "tokens"@) {
        Some(tokens) => if tokens is Object {
            crate::json::with_field(auth, "tokens"@, refreshed_tokens(tokens, new, known, now))
        } else {
            auth
        },
        None => auth,
    };
    crate::json::with_field(
        renewed,
        "last_refresh"@,
        JsonView::Str(crate::clock::rfc3339_text(now.secs, now.nanos)),
    )
}

/// The new tokens stand in the account, and nothing else of it has changed.
pub open spec fn tokens_applied(
    before: Account,
    after: Account,
    new: TokenResponse,
    now: Timestamp,
) -> bool {
    &&& after.auth_json@ == refreshed_auth(
        before.auth_json@,
        new,
        crate::json::opt_text(before.refresh_token),
        now,
    )
    &&& crate::json::opt_text(after.refresh_token) == match new.refresh_token {
        Some(rt) => Some(rt@),
        None => crate::json::opt_text(before.refresh_token),
    }
    &&& crate::json::opt_text(after.email) == match new.id_token {
        Some(_) => crate::json::opt_text(new.email),
        None => crate::json::opt_text(before.email),
    }
    &&& after == Account {
        auth_json: after.auth_json,
        refresh_token: after.refresh_token,
        email: after.email,
        ..before
    }
}

/// The login document of the account is `disk`, and what is read from it agrees with it.
pub open spec fn auth_taken(before: Account, after: Account, disk: DiskAuth) -> bool {
    &&& after.auth_json@ == disk.auth@
    &&& crate::json::opt_text(after.email) == crate::json::opt_text(disk.email)
    &&& crate::json::opt_text(after.refresh_token) == match refresh_token_in(disk.auth@) {
        Some(rt) => Some(rt),
        None => crate::json::opt_text(before.refresh_token),
    }
    &&& after == Account {
        auth_json: after.auth_json,
        refresh_token: after.refresh_token,
        email: after.email,
        ..before
    }
}

/// A copy of an optional string.
pub fn copy_opt(s: &Option<String>) -> (t: Option<String>)
    ensures
        t == *s,
{
    match s {
        Some(x) => Some(x.clone()),
        None => None,
    }
}

impl AccountStore {
    /// Puts the tokens of a refresh into an account.
    pub fn apply_refreshed_tokens(account: &mut Account, new: &TokenResponse, now: Timestamp)
        requires
            now.in_calendar(),
        ensures
            tokens_applied(*old(account), *final(account), *new, now),
    {
        let ghost before = *account;
        let ghost auth0 = account.auth_json@;
        let mut renewed: Option<Json> = None;
        match account.auth_json.get("tokens") {
            Some(t) => {
                let mut tokens: Json = t.copy();
                let is_object: bool = match &tokens {
                    Json::Object(_) => true,
                    _ => false,
                };
                if is_object {
                    tokens.insert("access_token", Json::Str(new.access_token.clone()));
                    match &new.refresh_token {
                        Some(rt) => tokens.insert("refresh_token", Json::Str(rt.clone())),
                        None => match &account.refresh_token {
                            Some(rt) => if tokens.get("refresh_token").is_none() {
                                tokens.insert("refresh_token", Json::Str(rt.clone()));
                            },
                            None => {},
                        },
                    }
                    match &new.id_token {
                        Some(it) => tokens.insert("id_token", Json::Str(it.clone())),
                        None => {},
                    }
                    match new.expires_in {
                        Some(secs) => match shift(now, secs) {
                            Some(t) => tokens.insert("expires_at", Json::Str(rfc3339(t))),
                            None => {},
                        },
                        None => {},
                    }
                    renewed = Some(tokens);
                }
            },
            None => {},
        }
        match renewed {
            Some(tokens) => account.auth_json.insert("tokens", tokens),
            None => {},
        }
        account.auth_json.insert("last_refresh", Json::Str(rfc3339(now)));
        match &new.refresh_token {
            Some(rt) => {
                account.refresh_token = Some(rt.clone());
            },
            None => {},
        }
        match &new.id_token {
            Some(_) => {
                account.email = copy_opt(&new.email);
            },
            None => {},
        }
    }

    /// Puts the tokens of a refresh into the account `id`. Whether there is such an account.
    pub fn apply_tokens_to(&mut self, id: &str, new: &TokenResponse, now: Timestamp) -> (found: bool)
        requires
            now.in_calendar(),
        ensures
            found == (place(old(self).accounts@, id@) is Some),
            account_changed(
                *old(self),
                *final(self),
                id@,
                |a: Account, b: Account| tokens_applied(a, b, *new, now),
            ),
    {
        match self.find(id) {
            Some(i) => {
                Self::apply_refreshed_tokens(&mut self.accounts[i], new, now);
                true
            },
            None => false,
        }
    }

    /// Sets the given flags of the account `id`. Whether there is such an account.
    pub fn flag(
        &mut self,
        id: &str,
        banned: Option<bool>,
        token_invalid: Option<bool>,
        logged_out: Option<bool>,
    ) -> (found: bool)
        ensures
            found == (place(old(self).accounts@, id@) is Some),
            account_changed(
                *old(self),
                *final(self),
                id@,
                |a: Account, b: Account| b == a.flagged(banned, token_invalid, logged_out),
            ),
    {
        match self.find(id) {
            Some(i) => {
                if let Some(b) = banned {
                    self.accounts[i].is_banned = b;
                }
                if let Some(b) = token_invalid {
                    self.accounts[i].is_token_invalid = b;
                }
                if let Some(b) = logged_out {
                    self.accounts[i].is_logged_out = b;
                }
                true
            },
            None => false,
        }
    }

    /// Takes over a login document from outside, where the account `id` exists and both documents
    /// belong to one identity. Whether it was taken over.
    pub fn sync_account_from_auth_json(&mut self, id: &str, disk: &DiskAuth) -> (taken: bool)
        ensures
            taken == (lookup(old(self).accounts@, id@) matches Some(a) && one_identity(
                a.auth_json@,
                disk.auth@,
            )),
            taken ==> account_changed(
                *old(self),
                *final(self),
                id@,
                |a: Account, b: Account| auth_taken(a, b, *disk),
            ),
            !taken ==> unchanged(*old(self), *final(self)),
    {
        match self.find(id) {
            Some(i) => {
                if Self::auth_identity_matches(&self.accounts[i].auth_json, &disk.auth) {
                    match Self::extract_refresh_token(&disk.auth) {
                        Some(rt) => {
                            self.accounts[i].refresh_token = Some(rt);
                        },
                        None => {},
                    }
                    self.accounts[i].auth_json = disk.auth.copy();
                    self.accounts[i].email = copy_opt(&disk.email);
                    true
                } else {
                    false
                }
            },
            None => false,
        }
    }
}

// ---------------------------------------------------------------------------
// What holds of accounts
// ---------------------------------------------------------------------------

/// An account is found exactly where one has the id that is asked for; it is the first of them.
pub proof fn accounts_are_found_by_their_ids(accounts: Seq<Account>, id: Seq<char>)
    ensures
        lookup(accounts, id) is None <==> forall|i: int|
            0 <= i < accounts.len() ==> (#[trigger] accounts[i]).id@ != id,
        lookup(accounts, id) matches Some(a) ==> exists|i: int|
            {
                &&& 0 <= i < accounts.len()
                &&& #[trigger] accounts[i] == a
                &&& a.id@ == id
                &&& place(accounts, id) == Some(i)
                &&& forall|k: int| 0 <= k < i ==> (#[trigger] accounts[k]).id@ != id
            },
{
    lemma_place_from(accounts, id, 0);
    let p = place_from(accounts, id, 0);
    if p < accounts.len() {
        assert(accounts[p].id@ == id);
    }
}

/// The active account is the one that the store names.
pub proof fn the_active_account_is_the_one_named(store: AccountStore)
    ensures
        store.current is None ==> store.current_account() is None,
        store.current matches Some(c) ==> {
            &&& store.current_account() == lookup(store.accounts@, c@)
            &&& store.current_account() matches Some(a) ==> a.id@ == c@
        },
{
    if let Some(c) = store.current {
        lemma_place_from(store.accounts@, c@, 0);
    }
}

/// A change of one account leaves every other one, their order, the active one and the settings as
/// they were.
pub proof fn a_change_touches_one_account(
    before: AccountStore,
    after: AccountStore,
    id: Seq<char>,
    rel: spec_fn(Account, Account) -> bool,
    i: int,
)
    requires
        account_changed(before, after, id, rel),
        0 <= i < before.accounts@.len(),
    ensures
        after.accounts@.len() == before.accounts@.len(),
        after.current == before.current,
        after.settings == before.settings,
        before.accounts@[i].id@ != id ==> after.accounts@[i] == before.accounts@[i],
        before.accounts@[i].id@ == id && (forall|k: int|
            0 <= k < i ==> (#[trigger] before.accounts@[k]).id@ != id) ==> rel(
            before.accounts@[i],
            after.accounts@[i],
        ),
{
    lemma_place_from(before.accounts@, id, 0);
}

/// The same of a change of the active account; without one nothing changes.
pub proof fn a_change_of_the_active_account_touches_no_other(
    before: AccountStore,
    after: AccountStore,
    rel: spec_fn(Account, Account) -> bool,
    i: int,
)
    requires
        current_changed(before, after, rel),
        0 <= i < before.accounts@.len(),
    ensures
        after.accounts@.len() == before.accounts@.len(),
        after.current == before.current,
        after.settings == before.settings,
        !(before.current matches Some(c) && c@ == before.accounts@[i].id@) ==> after.accounts@[i]
            == before.accounts@[i],
        (before.current matches Some(c) && c@ == before.accounts@[i].id@) && (forall|k: int|
            0 <= k < i ==> (#[trigger] before.accounts@[k]).id@ != before.accounts@[i].id@) ==> rel(
            before.accounts@[i],
            after.accounts@[i],
        ),
{
    if let Some(c) = before.current {
        lemma_place_from(before.accounts@, c@, 0);
    }
}

/// The tokens of a login document stand in its object of tokens, each under its own name.
pub proof fn tokens_stand_under_their_names(
    auth: JsonView,
    members: Map<Seq<char>, JsonView>,
    tokens: Map<Seq<char>, JsonView>,
    text: Seq<char>,
)
    requires
        auth == JsonView::Object(members),
        members.contains_key("tokens"@),
        members["tokens"@] == JsonView::Object(tokens),
    ensures
        access_token_in(auth) == Some(text) <==> tokens.contains_key("access_token"@)
            && tokens["access_token"@] == JsonView::Str(text),
        refresh_token_in(auth) == Some(text) <==> tokens.contains_key("refresh_token"@)
            && tokens["refresh_token"@] == JsonView::Str(text),
        !members.contains_key("account_id"@) ==> (account_id_in(auth) == Some(text)
            <==> tokens.contains_key("account_id"@) && tokens["account_id"@] == JsonView::Str(
            text,
        )),
{
}

/// A document that is no object, or that has no object of tokens, holds no token; the account id
/// may then only be a member of its own.
pub proof fn no_tokens_without_an_object_of_them(auth: JsonView, text: Seq<char>)
    ensures
        auth !is Object ==> access_token_in(auth) is None && refresh_token_in(auth) is None
            && account_id_in(auth) is None,
        auth matches JsonView::Object(members) ==> {
            &&& !members.contains_key("tokens"@) || members["tokens"@] !is Object
                ==> access_token_in(auth) is None && refresh_token_in(auth) is None
            &&& members.contains_key("account_id"@) ==> (account_id_in(auth) == Some(text)
                <==> members["account_id"@] == JsonView::Str(text))
        },
{
}

/// Documents of one identity name one account id; that goes both ways, from each to the next, and
/// a document that names none is of nobody's identity.
pub proof fn identities_agree(a: JsonView, b: JsonView, c: JsonView)
    ensures
        one_identity(a, b) ==> one_identity(b, a),
        one_identity(a, b) && one_identity(b, c) ==> one_identity(a, c),
        account_id_in(a) is None ==> !one_identity(a, b) && !one_identity(b, a),
        account_id_in(a) != account_id_in(b) ==> !one_identity(a, b),
        account_id_in(a) is Some ==> one_identity(a, a),
{
}

/// Flags that are not given stay, and nothing but flags is set.
pub proof fn flags_are_set_one_by_one(
    a: Account,
    banned: Option<bool>,
    token_invalid: Option<bool>,
    logged_out: Option<bool>,
)
    ensures
        ({
            let b = a.flagged(banned, token_invalid, logged_out);
            &&& banned == Some(true) ==> b.is_banned
            &&& banned == Some(false) ==> !b.is_banned
            &&& banned is None ==> b.is_banned == a.is_banned
            &&& token_invalid == Some(true) ==> b.is_token_invalid
            &&& token_invalid == Some(false) ==> !b.is_token_invalid
            &&& token_invalid is None ==> b.is_token_invalid == a.is_token_invalid
            &&& logged_out == Some(true) ==> b.is_logged_out
            &&& logged_out == Some(false) ==> !b.is_logged_out
            &&& logged_out is None ==> b.is_logged_out == a.is_logged_out
            &&& b == Account {
                is_banned: b.is_banned,
                is_token_invalid: b.is_token_invalid,
                is_logged_out: b.is_logged_out,
                ..a
            }
        }),
{
}

/// An account can be used where nothing speaks against it.
pub proof fn usable_accounts_have_no_flags(a: Account)
    ensures
        a.usable() <==> !(a.is_banned || a.is_token_invalid || a.is_logged_out),
{
}

/// Emptying the five hours changes what is left of them and nothing else; of a quota that is not
/// known nothing can be emptied.
pub proof fn depletion_empties_the_five_hours(a: Account)
    ensures
        a.cached_quota is None ==> a.depleted() == a,
        a.cached_quota matches Some(q) ==> (a.depleted().cached_quota matches Some(d)
            && d.five_hour_left == 0 && d.weekly_left == q.weekly_left && d.five_hour_reset_at
            == q.five_hour_reset_at && d.weekly_reset_at == q.weekly_reset_at && d.plan_type
            == q.plan_type && d.updated_at == q.updated_at),
        a.depleted() == (Account { cached_quota: a.depleted().cached_quota, ..a }),
{
}

proof fn lemma_token_names_differ()
    ensures
        "access_token"@ != "refresh_token"@,
        "access_token"@ != "id_token"@,
        "access_token"@ != "expires_at"@,
        "access_token"@ != "account_id"@,
        "refresh_token"@ != "id_token"@,
        "refresh_token"@ != "expires_at"@,
        "refresh_token"@ != "account_id"@,
        "id_token"@ != "expires_at"@,
        "id_token"@ != "account_id"@,
        "account_id"@ != "expires_at"@,
        "tokens"@ != "last_refresh"@,
        "tokens"@ != "account_id"@,
        "last_refresh"@ != "account_id"@,
{
    reveal_strlit("access_token");
    reveal_strlit("refresh_token");
    reveal_strlit("id_token");
    reveal_strlit("account_id");
    reveal_strlit("expires_at");
    reveal_strlit("tokens");
    reveal_strlit("last_refresh");
    assert("id_token"@.len() == 8 && "account_id"@.len() == 10 && "expires_at"@.len() == 10);
    assert("access_token"@.len() == 12 && "refresh_token"@.len() == 13 && "tokens"@.len() == 6);
    assert("last_refresh"@.len() == 12);
    assert("account_id"@[0] != "expires_at"@[0]);
}

/// After a refresh the account holds the new access token, and the new refresh token where there is
/// one, else the one it had; it is of the same identity, and nothing else of it has changed.
pub proof fn refreshed_accounts_hold_the_new_tokens(
    before: Account,
    after: Account,
    new: TokenResponse,
    now: Timestamp,
)
    requires
        tokens_applied(before, after, new, now),
        crate::json::field(before.auth_json@, "tokens"@) matches Some(t) && t is Object,
    ensures
        access_token_in(after.auth_json@) == Some(new.access_token@),
        new.refresh_token matches Some(rt) ==> {
            &&& refresh_token_in(after.auth_json@) == Some(rt@)
            &&& crate::json::opt_text(after.refresh_token) == Some(rt@)
        },
        new.refresh_token is None ==> {
            &&& crate::json::opt_text(after.refresh_token) == crate::json::opt_text(
                before.refresh_token,
            )
            &&& refresh_token_in(before.auth_json@) is Some ==> refresh_token_in(after.auth_json@)
                == refresh_token_in(before.auth_json@)
        },
        new.id_token matches Some(it) ==> {
            &&& token_in(after.auth_json@, "id_token"@) == Some(it@)
            &&& crate::json::opt_text(after.email) == crate::json::opt_text(new.email)
        },
        new.id_token is None ==> {
            &&& token_in(after.auth_json@, "id_token"@) == token_in(before.auth_json@, "id_token"@)
            &&& crate::json::opt_text(after.email) == crate::json::opt_text(before.email)
        },
        new.expires_in matches Some(secs) ==> (crate::clock::FIRST_SECOND <= now.secs + secs
            <= crate::clock::LAST_SECOND ==> token_in(after.auth_json@, "expires_at"@) == Some(
            crate::clock::rfc3339_text((now.secs + secs) as i64, now.nanos),
        )),
        new.expires_in is None ==> token_in(after.auth_json@, "expires_at"@) == token_in(
            before.auth_json@,
            "expires_at"@,
        ),
        account_id_in(after.auth_json@) == account_id_in(before.auth_json@),
        after.id == before.id,
        after.name == before.name,
        after.notes == before.notes,
        after.created_at == before.created_at,
        after.last_used == before.last_used,
        after.cached_quota == before.cached_quota,
        after.keepalive == before.keepalive,
        after.is_banned == before.is_banned,
        after.is_token_invalid == before.is_token_invalid,
        after.is_logged_out == before.is_logged_out,
{
    lemma_token_names_differ();
}

/// A refresh notes when it was, whatever the document held, and keeps every member of the document
/// but its tokens.
pub proof fn refreshes_are_noted(
    auth: JsonView,
    members: Map<Seq<char>, JsonView>,
    new: TokenResponse,
    known: Option<Seq<char>>,
    now: Timestamp,
    key: Seq<char>,
)
    requires
        auth == JsonView::Object(members),
    ensures
        ({
            let after = refreshed_auth(auth, new, known, now);
            &&& crate::json::text_of(crate::json::field(after, "last_refresh"@)) == Some(
                crate::clock::rfc3339_text(now.secs, now.nanos),
            )
            &&& key != "last_refresh"@ && key != "tokens"@ ==> crate::json::field(after, key)
                == crate::json::field(auth, key)
        }),
{
    lemma_token_names_differ();
}

/// What is taken over from disk is the document as it is, with what is read from it; the refresh
/// token that was known stays where the document has none, and nothing else of the account changes.
pub proof fn taking_over_keeps_the_account(before: Account, after: Account, disk: DiskAuth)
    requires
        auth_taken(before, after, disk),
    ensures
        after.auth_json@ == disk.auth@,
        access_token_in(after.auth_json@) == access_token_in(disk.auth@),
        crate::json::opt_text(after.email) == crate::json::opt_text(disk.email),
        refresh_token_in(disk.auth@) is Some ==> crate::json::opt_text(after.refresh_token)
            == refresh_token_in(disk.auth@),
        refresh_token_in(disk.auth@) is None ==> crate::json::opt_text(after.refresh_token)
            == crate::json::opt_text(before.refresh_token),
        after.id == before.id,
        after.name == before.name,
        after.notes == before.notes,
        after.created_at == before.created_at,
        after.last_used == before.last_used,
        after.cached_quota == before.cached_quota,
        after.keepalive == before.keepalive,
        after.is_banned == before.is_banned,
        after.is_token_invalid == before.is_token_invalid,
        after.is_logged_out == before.is_logged_out,
{
}

pub(crate) proof fn lemma_lookup_after(
    s0: AccountStore,
    s1: AccountStore,
    id: Seq<char>,
    rel: spec_fn(Account, Account) -> bool,
)
    requires
        account_changed(s0, s1, id, rel),
        lookup(s0.accounts@, id) is Some,
        forall|a: Account, b: Account| #[trigger] rel(a, b) ==> b.id == a.id,
    ensures
        lookup(s1.accounts@, id) is Some,
        rel(lookup(s0.accounts@, id)->0, lookup(s1.accounts@, id)->0),
{
    lemma_place_from(s0.accounts@, id, 0);
    lemma_place_from(s1.accounts@, id, 0);
    let p = place_from(s0.accounts@, id, 0);
    let q = place_from(s1.accounts@, id, 0);
    assert(rel(s0.accounts@[p], s1.accounts@[p]));
    if q < p {
        assert(s1.accounts@[q] == s0.accounts@[q]);
    }
}


/// Stores that hold the same have the same accounts, the same active one and the same settings.
pub proof fn nothing_changes_where_nothing_is_changed(before: AccountStore, after: AccountStore)
    requires
        unchanged(before, after),
    ensures
        after.accounts@ == before.accounts@,
        after.current == before.current,
        after.settings == before.settings,
        after.current_account() == before.current_account(),
{
}

} // verus!
