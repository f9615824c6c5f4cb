//! The login document on disk and the accounts of the store: whether they agree, and how they are
//! brought to agree.
use crate::account::{copy_opt, Account, AccountStore, DiskAuth};
use crate::json::Json;
use crate::text::{concat3, eq_str, to_lowercase};
use vstd::prelude::*;

verus! {

// ---------------------------------------------------------------------------
// Conflicts
// ---------------------------------------------------------------------------

/// How the account is named in a conflict with a login document of the e-mail address `email`.
pub open spec fn conflict_name(name: Seq<char>, email: Option<Seq<char>>) -> Seq<char> {
    match email {
        Some(e) => if e == name {
            name
        } else {
            name + " ("@ + e + ")"@
        },
        None => name,
    }
}

/// The login document belongs to the account, but has another refresh token.
pub open spec fn token_conflict(a: Account, disk: DiskAuth) -> Option<Seq<char>> {
    let theirs = crate::account::refresh_token_in(disk.auth@);
    if crate::account::one_identity(a.auth_json@, disk.auth@) && theirs is Some && theirs
        != crate::account::refresh_token_in(a.auth_json@) {
        Some(conflict_name(a.name@, crate::json::opt_text(disk.email)))
    } else {
        None
    }
}

/// Whether the login document belongs to the account but has another refresh token; then how the
/// account is named.
pub fn detect_sync_conflict_for_current(account: &Account, disk: &DiskAuth) -> (conflict: Option<
    String,
>)
    ensures
        crate::json::opt_text(conflict) == token_conflict(*account, *disk),
{
    if !AccountStore::auth_identity_matches(&account.auth_json, &disk.auth) {
        return None;
    }
    let theirs: Option<String> = AccountStore::extract_refresh_token(&disk.auth);
    let ours: Option<String> = AccountStore::extract_refresh_token(&account.auth_json);
    let differ: bool = match (&theirs, &ours) {
        (Some(t), Some(o)) => !eq_str(t.as_str(), o.as_str()),
        (Some(_), None) => true,
        _ => false,
    };
    if !differ {
        return None;
    }
    match &disk.email {
        Some(email) => if eq_str(email.as_str(), account.name.as_str()) {
            Some(account.name.clone())
        } else {
            let mut text: String = concat3(account.name.as_str(), " (", email.as_str());
            text.append(")");
            Some(text)
        },
        None => Some(account.name.clone()),
    }
}

/// Whether the active account has a conflict with the login document on disk. A document that
/// cannot be read is no conflict.
pub fn check_sync_conflict(store: &AccountStore, disk: &Option<DiskAuth>) -> (conflict: Option<
    String,
>)
    ensures
        crate::json::opt_text(conflict) == match (*disk, store.current_account()) {
            (Some(d), Some(a)) => token_conflict(a, d),
            _ => None,
        },
{
    match (disk, store.find_current()) {
        (Some(d), Some(i)) => detect_sync_conflict_for_current(&store.accounts[i], d),
        _ => None,
    }
}

/// A login document of another identity is never a conflict.
pub proof fn strangers_are_no_conflict(a: Account, disk: DiskAuth)
    requires
        !crate::account::one_identity(a.auth_json@, disk.auth@),
    ensures
        token_conflict(a, disk) is None,
{
}

/// There is no conflict left once the account has taken the login document over.
pub proof fn taking_over_ends_the_conflict(before: Account, after: Account, disk: DiskAuth)
    requires
        crate::account::auth_taken(before, after, disk),
    ensures
        token_conflict(after, disk) is None,
{
}

// ---------------------------------------------------------------------------
// Which account is on disk
// ---------------------------------------------------------------------------

/// Two names are the same but for case.
pub open spec fn same_name(a: Seq<char>, b: Seq<char>) -> bool {
    crate::text::lowered(a) == crate::text::lowered(b)
}

/// The account goes by the e-mail address: its login document or its name gives it.
pub open spec fn goes_by(a: Account, email: Seq<char>) -> bool {
    (a.email matches Some(e) && same_name(e@, email)) || same_name(a.name@, email)
}

/// The first account from `from` on that goes by the e-mail address.
pub open spec fn by_email_from(accounts: Seq<Account>, email: Seq<char>, from: int) -> Option<int>
    decreases accounts.len() - from,
{
    if from < 0 || from >= accounts.len() {
        None
    } else if goes_by(accounts[from], email) {
        Some(from)
    } else {
        by_email_from(accounts, email, from + 1)
    }
}

/// The first account from `from` on that is of one identity with the login document.
pub open spec fn by_identity_from(
    accounts: Seq<Account>,
    auth: crate::json::JsonView,
    from: int,
) -> Option<int>
    decreases accounts.len() - from,
{
    if from < 0 || from >= accounts.len() {
        None
    } else if crate::account::one_identity(accounts[from].auth_json@, auth) {
        Some(from)
    } else {
        by_identity_from(accounts, auth, from + 1)
    }
}

/// The account that a login document belongs to: by its e-mail address, else by its identity.
pub open spec fn owner_of(accounts: Seq<Account>, disk: DiskAuth) -> Option<int> {
    let by_email = match disk.email {
        Some(e) => by_email_from(accounts, e@, 0),
        None => None,
    };
    match by_email {
        Some(i) => Some(i),
        None => by_identity_from(accounts, disk.auth@, 0),
    }
}

/// The id of the account at a position.
pub open spec fn id_at(accounts: Seq<Account>, at: Option<int>) -> Option<Seq<char>> {
    match at {
        Some(i) => Some(accounts[i].id@),
        None => None,
    }
}

fn is_same_name(a: &str, b: &str) -> (same: bool)
    ensures
        same == same_name(a@, b@),
{
    let x: String = to_lowercase(a);
    let y: String = to_lowercase(b);
    eq_str(x.as_str(), y.as_str())
}

fn account_goes_by(a: &Account, email: &str) -> (b: bool)
    ensures
        b == goes_by(*a, email@),
{
    let by_document: bool = match &a.email {
        Some(e) => is_same_name(e.as_str(), email),
        None => false,
    };
    by_document || is_same_name(a.name.as_str(), email)
}

fn find_by_email(accounts: &Vec<Account>, email: &str) -> (at: Option<usize>)
    ensures
        match at {
            Some(i) => by_email_from(accounts@, email@, 0) == Some(i as int) && i < accounts@.len(),
            None => by_email_from(accounts@, email@, 0) is None,
        },
{
    let mut i: usize = 0;
    while i < accounts.len()
        invariant
            i <= accounts@.len(),
            by_email_from(accounts@, email@, 0) == by_email_from(accounts@, email@, i as int),
        decreases accounts@.len() - i,
    {
        if account_goes_by(&accounts[i], email) {
            return Some(i);
        }
        i += 1;
    }
    None
}

fn find_by_identity(accounts: &Vec<Account>, auth: &Json) -> (at: Option<usize>)
    ensures
        match at {
            Some(i) => by_identity_from(accounts@, auth@, 0) == Some(i as int) && i
                < accounts@.len(),
            None => by_identity_from(accounts@, auth@, 0) is None,
        },
{
    let mut i: usize = 0;
    while i < accounts.len()
        invariant
            i <= accounts@.len(),
            by_identity_from(accounts@, auth@, 0) == by_identity_from(accounts@, auth@, i as int),
        decreases accounts@.len() - i,
    {
        if AccountStore::auth_identity_matches(&accounts[i].auth_json, auth) {
            return Some(i);
        }
        i += 1;
    }
    None
}

fn find_owner(accounts: &Vec<Account>, disk: &DiskAuth) -> (at: Option<usize>)
    ensures
        match at {
            Some(i) => owner_of(accounts@, *disk) == Some(i as int) && i < accounts@.len(),
            None => owner_of(accounts@, *disk) is None,
        },
{
    if let Some(email) = &disk.email {
        if let Some(i) = find_by_email(accounts, email.as_str()) {
            return Some(i);
        }
    }
    find_by_identity(accounts, &disk.auth)
}

/// Whether the store and the disk agree on the active account.
#[derive(Debug)]
pub struct SyncStatus {
    pub is_synced: bool,
    pub disk_email: Option<String>,
    pub matching_id: Option<String>,
    pub current_id: Option<String>,
}

/// The active account is the one on disk, by its identity or by its name.
pub open spec fn current_on_disk(store: AccountStore, disk: DiskAuth) -> bool {
    match store.current_account() {
        Some(a) => crate::account::one_identity(a.auth_json@, disk.auth@) || (disk.email matches Some(
            e,
        ) && same_name(a.name@, e@)),
        None => false,
    }
}

/// Whether the store and the disk agree.
pub open spec fn sync_shown(store: AccountStore, disk: Option<DiskAuth>, s: SyncStatus) -> bool {
    &&& s.current_id == store.current
    &&& match disk {
        None => s.is_synced && s.disk_email is None && s.matching_id is None,
        Some(d) => {
            &&& s.disk_email == d.email
            &&& if current_on_disk(store, d) {
                s.is_synced && s.matching_id == store.current
            } else {
                let owner = id_at(store.accounts@, owner_of(store.accounts@, d));
                &&& crate::json::opt_text(s.matching_id) == owner
                &&& s.is_synced == (crate::json::opt_text(store.current) == owner)
            }
        },
    }
}

/// Whether the store and the login document on disk agree on the active account. Where there is no
/// document, there is nothing to disagree on.
pub fn get_sync_status(store: &AccountStore, disk: &Option<DiskAuth>) -> (status: SyncStatus)
    ensures
        sync_shown(*store, *disk, status),
{
    let d: &DiskAuth = match disk {
        Some(d) => d,
        None => {
            return SyncStatus {
                is_synced: true,
                disk_email: None,
                matching_id: None,
                current_id: copy_opt(&store.current),
            };
        },
    };
    let on_disk: bool = match store.find_current() {
        Some(i) => {
            let a: &Account = &store.accounts[i];
            let by_name: bool = match &d.email {
                Some(e) => is_same_name(a.name.as_str(), e.as_str()),
                None => false,
            };
            AccountStore::auth_identity_matches(&a.auth_json, &d.auth) || by_name
        },
        None => false,
    };
    if on_disk {
        return SyncStatus {
            is_synced: true,
            disk_email: copy_opt(&d.email),
            matching_id: copy_opt(&store.current),
            current_id: copy_opt(&store.current),
        };
    }
    let matching_id: Option<String> = match find_owner(&store.accounts, d) {
        Some(i) => Some(store.accounts[i].id.clone()),
        None => None,
    };
    let is_synced: bool = match (&store.current, &matching_id) {
        (Some(c), Some(m)) => eq_str(c.as_str(), m.as_str()),
        (None, None) => true,
        _ => false,
    };
    SyncStatus {
        is_synced,
        disk_email: copy_opt(&d.email),
        matching_id,
        current_id: copy_opt(&store.current),
    }
}

/// Makes the account on disk the active one, without touching any account. The store is to be
/// written to disk next.
pub fn sync_active_with_disk(store: &mut AccountStore, disk: &DiskAuth) -> (done: Result<(), String>)
    ensures
        final(store).accounts@ == old(store).accounts@,
        final(store).settings == old(store).settings,
        match owner_of(old(store).accounts@, *disk) {
            Some(i) => done is Ok && crate::json::opt_text(final(store).current) == Some(
                old(store).accounts@[i].id@,
            ),
            None => {
                &&& done matches Err(e) && e@
                    == "Disk account not in management list, please import first"@
                &&& final(store).current == old(store).current
            },
        },
{
    match find_owner(&store.accounts, disk) {
        Some(i) => {
            store.current = Some(store.accounts[i].id.clone());
            Ok(())
        },
        None => Err("Disk account not in management list, please import first".to_owned()),
    }
}

/// Takes the login document on disk over into the account `id`. The store is to be written to disk
/// next.
pub fn sync_current_auth_to_account(store: &mut AccountStore, id: &str, disk: &DiskAuth) -> (done:
    Result<(), String>)
    ensures
        if crate::account::lookup(old(store).accounts@, id@) matches Some(a)
            && crate::account::one_identity(a.auth_json@, disk.auth@) {
            &&& done is Ok
            &&& crate::account::account_changed(
                *old(store),
                *final(store),
                id@,
                |a: Account, b: Account| crate::account::auth_taken(a, b, *disk),
            )
        } else {
            &&& done matches Err(e) && e@
                == "Sync failed: Account not found or User ID mismatch"@
            &&& crate::account::unchanged(*old(store), *final(store))
        },
{
    if store.sync_account_from_auth_json(id, disk) {
        Ok(())
    } else {
        Err("Sync failed: Account not found or User ID mismatch".to_owned())
    }
}

/// Once the store was aligned with the disk, the two agree.
pub proof fn alignment_brings_agreement(
    before: AccountStore,
    after: AccountStore,
    disk: DiskAuth,
    s: SyncStatus,
)
    requires
        after.accounts@ == before.accounts@,
        owner_of(before.accounts@, disk) matches Some(i) && crate::json::opt_text(after.current)
            == Some(before.accounts@[i].id@),
        sync_shown(after, Some(disk), s),
    ensures
        s.is_synced,
        crate::json::opt_text(s.matching_id) == crate::json::opt_text(s.current_id),
{
}


/// There is a conflict just where the login document is of the identity of the account and has a
/// refresh token that the document of the account has not; it is told with the name of the account,
/// and with the e-mail address where that is another.
pub proof fn conflicts_are_other_tokens_of_one_identity(a: Account, disk: DiskAuth)
    ensures
        token_conflict(a, disk) is Some <==> {
            &&& crate::account::account_id_in(a.auth_json@) is Some
            &&& crate::account::account_id_in(a.auth_json@) == crate::account::account_id_in(
                disk.auth@,
            )
            &&& crate::account::refresh_token_in(disk.auth@) is Some
            &&& crate::account::refresh_token_in(disk.auth@) != crate::account::refresh_token_in(
                a.auth_json@,
            )
        },
        token_conflict(a, disk) is Some && disk.email is None ==> token_conflict(a, disk) == Some(
            a.name@,
        ),
        token_conflict(a, disk) is Some && (disk.email matches Some(e) && e@ == a.name@)
            ==> token_conflict(a, disk) == Some(a.name@),
        token_conflict(a, disk) is Some && (disk.email matches Some(e) && e@ != a.name@)
            ==> token_conflict(a, disk) == Some(a.name@ + " ("@ + disk.email->0@ + ")"@),
{
}

proof fn lemma_by_email(accounts: Seq<Account>, email: Seq<char>, from: int)
    requires
        0 <= from,
    ensures
        match by_email_from(accounts, email, from) {
            Some(i) => from <= i < accounts.len() && goes_by(accounts[i], email) && forall|k: int|
                from <= k < i ==> !goes_by(#[trigger] accounts[k], email),
            None => forall|k: int|
                from <= k < accounts.len() ==> !goes_by(#[trigger] accounts[k], email),
        },
    decreases accounts.len() - from,
{
    if from < accounts.len() && !goes_by(accounts[from], email) {
        lemma_by_email(accounts, email, from + 1);
    }
}

proof fn lemma_by_identity(accounts: Seq<Account>, auth: crate::json::JsonView, from: int)
    requires
        0 <= from,
    ensures
        match by_identity_from(accounts, auth, from) {
            Some(i) => from <= i < accounts.len() && crate::account::one_identity(
                accounts[i].auth_json@,
                auth,
            ) && forall|k: int|
                from <= k < i ==> !crate::account::one_identity(
                    (#[trigger] accounts[k]).auth_json@,
                    auth,
                ),
            None => forall|k: int|
                from <= k < accounts.len() ==> !crate::account::one_identity(
                    (#[trigger] accounts[k]).auth_json@,
                    auth,
                ),
        },
    decreases accounts.len() - from,
{
    if from < accounts.len() && !crate::account::one_identity(accounts[from].auth_json@, auth) {
        lemma_by_identity(accounts, auth, from + 1);
    }
}

/// A login document belongs to the first account whose e-mail address or name is that of the
/// document, but for case; where there is none, to the first account of its identity; else to
/// nobody.
pub proof fn who_owns_a_login_document(accounts: Seq<Account>, disk: DiskAuth)
    ensures
        owner_of(accounts, disk) matches Some(i) ==> 0 <= i < accounts.len(),
        (exists|k: int|
            0 <= k < accounts.len() && disk.email is Some && ((
            #[trigger] accounts[k]).email matches Some(e) && crate::text::lowered(e@)
                == crate::text::lowered(disk.email->0@))) ==> owner_of(accounts, disk) is Some,
        (exists|k: int|
            0 <= k < accounts.len() && disk.email is Some && crate::text::lowered(
                (#[trigger] accounts[k]).name@,
            ) == crate::text::lowered(disk.email->0@)) ==> owner_of(accounts, disk) is Some,
        (exists|k: int|
            0 <= k < accounts.len() && crate::account::account_id_in(
                (#[trigger] accounts[k]).auth_json@,
            ) is Some && crate::account::account_id_in(accounts[k].auth_json@)
                == crate::account::account_id_in(disk.auth@)) ==> owner_of(accounts, disk) is Some,
        owner_of(accounts, disk) matches Some(i) ==> ({
            let named = disk.email is Some && ((accounts[i].email matches Some(e)
                && crate::text::lowered(e@) == crate::text::lowered(disk.email->0@))
                || crate::text::lowered(accounts[i].name@) == crate::text::lowered(
                disk.email->0@,
            ));
            &&& named || (crate::account::account_id_in(accounts[i].auth_json@) is Some
                && crate::account::account_id_in(accounts[i].auth_json@)
                == crate::account::account_id_in(disk.auth@))
            // nobody before the owner goes by the address, and where the owner does not either,
            // nobody does
            &&& forall|k: int|
                0 <= k < accounts.len() && (k < i || !named) && disk.email is Some
                    ==> crate::text::lowered((#[trigger] accounts[k]).name@)
                    != crate::text::lowered(disk.email->0@) && !(accounts[k].email matches Some(e)
                    && crate::text::lowered(e@) == crate::text::lowered(disk.email->0@))
            &&& !named ==> forall|k: int|
                0 <= k < i ==> !crate::account::one_identity(
                    (#[trigger] accounts[k]).auth_json@,
                    disk.auth@,
                )
        }),
{
    if let Some(e) = disk.email {
        lemma_by_email(accounts, e@, 0);
    }
    lemma_by_identity(accounts, disk.auth@, 0);
}

/// Without a login document there is nothing to disagree on. With one, the store and the disk agree
/// where the active account is of its identity or has its e-mail address for a name, but for case;
/// otherwise the owner of the document is told, and they agree where it is the active account.
pub proof fn when_store_and_disk_agree(store: AccountStore, disk: Option<DiskAuth>, s: SyncStatus)
    requires
        sync_shown(store, disk, s),
    ensures
        s.current_id == store.current,
        disk is None ==> s.is_synced && s.disk_email is None && s.matching_id is None,
        disk matches Some(d) ==> s.disk_email == d.email,
        disk is Some && (store.current_account() matches Some(a) && crate::account::one_identity(
            a.auth_json@,
            disk->0.auth@,
        )) ==> s.is_synced && s.matching_id == store.current,
        disk is Some && disk->0.email is Some && (store.current_account() matches Some(a)
            && crate::text::lowered(a.name@) == crate::text::lowered(disk->0.email->0@))
            ==> s.is_synced && s.matching_id == store.current,
        disk is Some && s.is_synced ==> crate::json::opt_text(s.matching_id)
            == crate::json::opt_text(store.current),
        disk is Some && !s.is_synced ==> crate::json::opt_text(s.matching_id)
            != crate::json::opt_text(store.current) && match owner_of(
            store.accounts@,
            disk->0,
        ) {
            Some(i) => s.matching_id matches Some(m) && m@ == store.accounts@[i].id@,
            None => s.matching_id is None,
        },
        disk is Some && store.current_account() is None ==> (s.is_synced
            <==> crate::json::opt_text(store.current) == match owner_of(
            store.accounts@,
            disk->0,
        ) {
            Some(i) => Some(store.accounts@[i].id@),
            None => None,
        }),
{
}

} // verus!
