//! Bringing accounts in, changing them and taking them out.
use crate::account::{Account, AccountStore, DiskAuth, KeepaliveState};
use crate::clock::Timestamp;
use crate::text::{concat2, concat3, eq_str, from_utf8_lossy, join, parse_i32, show_i64, trim};
use vstd::prelude::*;

verus! {

// ---------------------------------------------------------------------------
// Bringing accounts in
// ---------------------------------------------------------------------------

/// The account of the login document on disk, under the id `id` and with the keepalive that new
/// accounts begin with; none where the document holds no refresh token. It is to be added to the
/// store next.
pub fn import_current_account(
    disk: DiskAuth,
    id: String,
    name: String,
    notes: Option<String>,
    keepalive: KeepaliveState,
    now: Timestamp,
) -> (account: Result<Account, String>)
    ensures
        match account {
            Ok(a) => {
                &&& crate::account::refresh_token_in(disk.auth@) is Some
                &&& crate::json::opt_text(a.refresh_token) == crate::account::refresh_token_in(
                    disk.auth@,
                )
                &&& a.id == id && a.name == name && a.notes == notes
                &&& a.auth_json == disk.auth && a.email == disk.email
                &&& a.created_at == now && a.last_used is None
                &&& a.cached_quota is None && a.keepalive == keepalive && a.usable()
            },
            Err(e) => crate::account::refresh_token_in(disk.auth@) is None && e@
                == "Current auth.json missing refresh_token, cannot auto-renew. Please sign in again"@,
        },
{
    let refresh_token: Option<String> = AccountStore::extract_refresh_token(&disk.auth);
    if refresh_token.is_none() {
        return Err(
            "Current auth.json missing refresh_token, cannot auto-renew. Please sign in again".to_owned(),
        );
    }
    Ok(
        Account {
            id,
            name,
            auth_json: disk.auth,
            email: disk.email,
            refresh_token,
            created_at: now,
            last_used: None,
            notes,
            cached_quota: None,
            keepalive,
            is_banned: false,
            is_token_invalid: false,
            is_logged_out: false,
        },
    )
}

/// The accounts with `account` among them: in the place of the one of its id, else at the end.
pub open spec fn with_account(accounts: Seq<Account>, account: Account) -> Seq<Account> {
    match crate::account::place(accounts, account.id@) {
        Some(i) => accounts.update(i, account),
        None => accounts.push(account),
    }
}

/// Adds an account to the store. The store is to be written to disk next.
pub fn add_account(store: &mut AccountStore, account: Account)
    ensures
        final(store).accounts@ == with_account(old(store).accounts@, account),
        final(store).current == old(store).current,
        final(store).settings == old(store).settings,
        crate::account::distinct_ids(old(store).accounts@) ==> crate::account::distinct_ids(
            final(store).accounts@,
        ),
{
    proof {
        added_accounts_are_found(store.accounts@, account);
    }
    match store.find(account.id.as_str()) {
        Some(i) => {
            store.accounts.set(i, account);
        },
        None => {
            store.accounts.push(account);
        },
    }
}

/// An account that was added is the one that is found by its id, every other one is found as
/// before, and no two share an id as long as no two did.
pub proof fn added_accounts_are_found(accounts: Seq<Account>, account: Account)
    ensures
        crate::account::lookup(with_account(accounts, account), account.id@) == Some(account),
        forall|id: Seq<char>|
            id != account.id@ ==> #[trigger] crate::account::lookup(
                with_account(accounts, account),
                id,
            ) == crate::account::lookup(accounts, id),
        crate::account::distinct_ids(accounts) ==> crate::account::distinct_ids(
            with_account(accounts, account),
        ),
{
    let new = with_account(accounts, account);
    crate::account::lemma_place_from(accounts, account.id@, 0);
    let p = crate::account::place_from(accounts, account.id@, 0);
    crate::account::lemma_place_from(new, account.id@, 0);
    let q = crate::account::place_from(new, account.id@, 0);
    assert(new[p] == account);
    if q < p {
        assert(accounts[q].id@ != account.id@);
    }
    assert forall|id: Seq<char>| id != account.id@ implies #[trigger] crate::account::lookup(
        new,
        id,
    ) == crate::account::lookup(accounts, id) by {
        crate::account::lemma_place_from(accounts, id, 0);
        crate::account::lemma_place_from(new, id, 0);
        let x = crate::account::place_from(accounts, id, 0);
        let y = crate::account::place_from(new, id, 0);
        if x < accounts.len() {
            assert(new[x] == accounts[x]);
        }
        if y < new.len() {
            assert(y != p);
            assert(new[y] == accounts[y]);
        }
    }
    if crate::account::distinct_ids(accounts) {
        assert forall|a: int, b: int| 0 <= a < b < new.len() implies #[trigger] new[a].id@
            != #[trigger] new[b].id@ by {
            if a == p {
                assert(accounts[a].id@ != accounts[b].id@);
            } else if b != p {
                assert(accounts[a].id@ != accounts[b].id@);
            } else {
                assert(accounts[a].id@ != account.id@);
            }
        }
    }
}

/// The tokens of the account can be renewed: there is a refresh token.
pub open spec fn renewable(a: Account) -> bool {
    a.refresh_token is Some || crate::account::refresh_token_in(a.auth_json@) is Some
}

/// The names of the accounts whose tokens cannot be renewed, in their order.
pub open spec fn names_missing(accounts: Seq<Account>) -> Seq<Seq<char>>
    decreases accounts.len(),
{
    if accounts.len() == 0 {
        Seq::empty()
    } else if renewable(accounts.last()) {
        names_missing(accounts.drop_last())
    } else {
        names_missing(accounts.drop_last()).push(accounts.last().name@)
    }
}

/// The names of the accounts without a refresh token.
pub fn accounts_missing_refresh_token(store: &AccountStore) -> (names: Vec<String>)
    ensures
        crate::text::texts(names@) == names_missing(store.accounts@),
{
    let ghost all = store.accounts@;
    let mut names: Vec<String> = Vec::new();
    let mut i: usize = 0;
    assert(crate::text::texts(names@) =~= names_missing(all.take(0)));
    while i < store.accounts.len()
        invariant
            i <= store.accounts@.len(),
            all == store.accounts@,
            crate::text::texts(names@) == names_missing(all.take(i as int)),
        decreases store.accounts@.len() - i,
    {
        assert(all.take(i + 1).drop_last() =~= all.take(i as int));
        let a: &Account = &store.accounts[i];
        if a.refresh_token.is_none() && AccountStore::extract_refresh_token(
            &a.auth_json,
        ).is_none() {
            let ghost before = names@;
            names.push(a.name.clone());
            assert(crate::text::texts(names@) =~= crate::text::texts(before).push(a.name@));
        }
        i += 1;
    }
    assert(all.take(all.len() as int) =~= all);
    names
}

/// Puts other accounts in the place of those of the store, unless some of them have no refresh
/// token. The store is to be written to disk next.
pub fn import_accounts(store: &mut AccountStore, new: AccountStore) -> (outcome: Result<(), String>)
    ensures
        if names_missing(new.accounts@).len() == 0 {
            outcome is Ok && *final(store) == new
        } else {
            &&& *final(store) == *old(store)
            &&& outcome matches Err(e) && e@
                == "The following accounts are missing refresh_token and cannot auto-renew. Please sign in again before importing: "@
                + crate::text::joined(names_missing(new.accounts@), ", "@)
        },
{
    let missing: Vec<String> = accounts_missing_refresh_token(&new);
    if missing.len() == 0 {
        assert(crate::text::texts(missing@).len() == 0);
        *store = new;
        Ok(())
    } else {
        assert(crate::text::texts(missing@).len() == missing@.len());
        let names: String = join(&missing, ", ");
        Err(
            concat2(
                "The following accounts are missing refresh_token and cannot auto-renew. Please sign in again before importing: ",
                names.as_str(),
            ),
        )
    }
}

/// Accounts are brought in exactly where the tokens of every one of them can be renewed.
pub proof fn all_renewable_or_some_missing(accounts: Seq<Account>)
    ensures
        names_missing(accounts).len() == 0 <==> forall|i: int|
            0 <= i < accounts.len() ==> renewable(#[trigger] accounts[i]),
    decreases accounts.len(),
{
    if accounts.len() > 0 {
        let rest = accounts.drop_last();
        all_renewable_or_some_missing(rest);
        assert(accounts[accounts.len() - 1] == accounts.last());
        if names_missing(accounts).len() == 0 {
            assert forall|i: int| 0 <= i < accounts.len() implies renewable(
                #[trigger] accounts[i],
            ) by {
                if i < rest.len() {
                    assert(renewable(rest[i]));
                }
            }
        } else if forall|i: int| 0 <= i < accounts.len() ==> renewable(#[trigger] accounts[i]) {
            assert forall|i: int| 0 <= i < rest.len() implies renewable(#[trigger] rest[i]) by {
                assert(renewable(accounts[i]));
            }
        }
    }
}

// ---------------------------------------------------------------------------
// Changing accounts
// ---------------------------------------------------------------------------

/// Gives the account `id` another name or other notes, where they are given. The store is to be
/// written to disk next.
pub fn update_account(
    store: &mut AccountStore,
    id: &str,
    name: Option<String>,
    notes: Option<String>,
) -> (outcome: Result<(), String>)
    ensures
        match crate::account::place(old(store).accounts@, id@) {
            Some(_) => outcome is Ok,
            None => outcome matches Err(e) && e@ == "Account "@ + id@ + " not found"@,
        },
        crate::account::account_changed(
            *old(store),
            *final(store),
            id@,
            |a: Account, b: Account|
                b == Account {
                    name: match name {
                        Some(n) => n,
                        None => a.name,
                    },
                    notes: if notes is Some {
                        notes
                    } else {
                        a.notes
                    },
                    ..a
                },
        ),
        crate::account::same_ids(old(store).accounts@, final(store).accounts@),
{
    match store.find(id) {
        Some(i) => {
            if let Some(n) = name {
                store.accounts[i].name = n;
            }
            if notes.is_some() {
                store.accounts[i].notes = notes;
            }
            Ok(())
        },
        None => Err(concat3("Account ", id, " not found")),
    }
}

/// Switches the keepalive of the account `id` on or off. The store is to be written to disk next.
pub fn set_inactive_refresh_enabled(store: &mut AccountStore, id: &str, enabled: bool) -> (outcome:
    Result<(), String>)
    ensures
        match crate::account::place(old(store).accounts@, id@) {
            Some(_) => outcome is Ok,
            None => outcome matches Err(e) && e@ == "Account "@ + id@ + " not found"@,
        },
        crate::account::account_changed(
            *old(store),
            *final(store),
            id@,
            |a: Account, b: Account|
                b == Account {
                    keepalive: KeepaliveState { inactive_refresh_enabled: enabled, ..a.keepalive },
                    ..a
                },
        ),
        crate::account::same_ids(old(store).accounts@, final(store).accounts@),
{
    match store.find(id) {
        Some(i) => {
            store.accounts[i].keepalive.inactive_refresh_enabled = enabled;
            Ok(())
        },
        None => Err(concat3("Account ", id, " not found")),
    }
}

/// As long as the same accounts stand in the same order, no two share an id if no two did.
pub proof fn same_ids_stay_distinct(before: Seq<Account>, after: Seq<Account>)
    requires
        crate::account::same_ids(before, after),
        crate::account::distinct_ids(before),
    ensures
        crate::account::distinct_ids(after),
{
    assert forall|a: int, b: int| 0 <= a < b < after.len() implies #[trigger] after[a].id@
        != #[trigger] after[b].id@ by {
        assert(before[a].id@ != before[b].id@);
    }
}

// ---------------------------------------------------------------------------
// Taking accounts out
// ---------------------------------------------------------------------------

/// Takes the account `id` out of the store; where it was the active one, none is. The store is to
/// be written to disk next.
pub fn delete_account(store: &mut AccountStore, id: &str) -> (outcome: Result<(), String>)
    ensures
        final(store).settings == old(store).settings,
        final(store).current == (if old(store).current matches Some(c) && c@ == id@ {
            None
        } else {
            old(store).current
        }),
        match crate::account::place(old(store).accounts@, id@) {
            Some(i) => outcome is Ok && final(store).accounts@ == old(store).accounts@.remove(i),
            None => {
                &&& outcome matches Err(e) && e@ == "Account "@ + id@ + " not found"@
                &&& final(store).accounts@ == old(store).accounts@
            },
        },
{
    let active: bool = match &store.current {
        Some(c) => eq_str(c.as_str(), id),
        None => false,
    };
    if active {
        store.current = None;
    }
    match store.find(id) {
        Some(i) => {
            let _gone: Account = store.accounts.remove(i);
            Ok(())
        },
        None => Err(concat3("Account ", id, " not found")),
    }
}

/// An account that was taken out is not found any more, and the accounts that are left are those
/// of before, as long as no two share an id.
pub proof fn deleted_accounts_are_gone(accounts: Seq<Account>, id: Seq<char>, i: int)
    requires
        crate::account::distinct_ids(accounts),
        crate::account::place(accounts, id) == Some(i),
    ensures
        crate::account::place(accounts.remove(i), id) is None,
        crate::account::distinct_ids(accounts.remove(i)),
{
    let left = accounts.remove(i);
    crate::account::lemma_place_from(accounts, id, 0);
    crate::account::lemma_place_from(left, id, 0);
    let p = crate::account::place_from(left, id, 0);
    if p < left.len() {
        if p < i {
            assert(accounts[p].id@ != accounts[i].id@);
        } else {
            assert(accounts[i].id@ != accounts[p + 1].id@);
        }
    }
    assert forall|a: int, b: int| 0 <= a < b < left.len() implies #[trigger] left[a].id@
        != #[trigger] left[b].id@ by {
        let x = if a < i { a } else { a + 1 };
        let y = if b < i { b } else { b + 1 };
        assert(accounts[x].id@ != accounts[y].id@);
    }
}

// ---------------------------------------------------------------------------
// Ending Codex
// ---------------------------------------------------------------------------

/// The script that ends the processes of Codex, but not those of this program, and prints how many
/// it has ended.
pub fn kill_script() -> (script: String)
    ensures
        script@
            == "\n        killed=0\n        for pid in $(pgrep -f codex 2>/dev/null); do\n            cmd=$(ps -p \"$pid\" -o command= 2>/dev/null || true)\n            case \"$cmd\" in\n                *codex-switcher*|*Codex\\ Switcher*|*codex_switcher*) continue ;;\n            esac\n            kill -9 \"$pid\" 2>/dev/null && killed=$((killed+1))\n        done\n        echo \"$killed\"\n    "@,
{
    "\n        killed=0\n        for pid in $(pgrep -f codex 2>/dev/null); do\n            cmd=$(ps -p \"$pid\" -o command= 2>/dev/null || true)\n            case \"$cmd\" in\n                *codex-switcher*|*Codex\\ Switcher*|*codex_switcher*) continue ;;\n            esac\n            kill -9 \"$pid\" 2>/dev/null && killed=$((killed+1))\n        done\n        echo \"$killed\"\n    ".to_owned()
}

/// What is said about the processes that were ended, from what the script printed.
pub open spec fn kill_text(printed: Seq<char>) -> Seq<char> {
    match crate::text::written_int(crate::text::trimmed(printed)) {
        Some(n) => if 0 < n <= i32::MAX {
            "Terminated "@ + crate::text::decimal_int(n) + " codex processes"@
        } else {
            "No running codex processes found"@
        },
        None => "No running codex processes found"@,
    }
}

/// What is said about the processes that were ended, from what the script printed.
pub fn kill_report(printed: &str) -> (report: String)
    ensures
        report@ == kill_text(printed@),
{
    let count: String = trim(printed);
    match parse_i32(count.as_str()) {
        Some(n) => if n > 0 {
            concat3("Terminated ", show_i64(n as i64).as_str(), " codex processes")
        } else {
            "No running codex processes found".to_owned()
        },
        None => "No running codex processes found".to_owned(),
    }
}

/// What is said about the processes that were ended, from the bytes that the script printed.
pub fn kill_codex_processes(stdout: &[u8]) -> (report: String)
    ensures
        report@ == kill_text(crate::text::lossy_text(stdout@)),
{
    let printed: String = from_utf8_lossy(stdout);
    kill_report(printed.as_str())
}


/// An account that is added takes the place of the one of its id and leaves every other where it
/// stands; without one of its id it comes last.
pub proof fn added_accounts_take_their_place(accounts: Seq<Account>, account: Account, i: int)
    requires
        0 <= i < accounts.len(),
    ensures
        ({
            let new = with_account(accounts, account);
            &&& accounts[i].id@ != account.id@ ==> new[i] == accounts[i]
            &&& accounts[i].id@ == account.id@ ==> new.len() == accounts.len()
            &&& accounts[i].id@ == account.id@ && (forall|k: int|
                0 <= k < i ==> (#[trigger] accounts[k]).id@ != account.id@) ==> new[i] == account
            &&& (forall|k: int|
                0 <= k < accounts.len() ==> (#[trigger] accounts[k]).id@ != account.id@) ==> new
                == accounts.push(account)
        }),
{
    crate::account::lemma_place_from(accounts, account.id@, 0);
}

/// The names that are told of are those of the accounts that have no refresh token, neither of
/// their own nor in their login documents, in their order.
pub proof fn accounts_without_a_refresh_token_are_told(accounts: Seq<Account>)
    ensures
        names_missing(accounts) == accounts.filter(
            |a: Account|
                a.refresh_token is None && crate::account::refresh_token_in(a.auth_json@) is None,
        ).map_values(|a: Account| a.name@),
    decreases accounts.len(),
{
    let bare = |a: Account|
        a.refresh_token is None && crate::account::refresh_token_in(a.auth_json@) is None;
    let name = |a: Account| a.name@;
    reveal(Seq::filter);
    if accounts.len() > 0 {
        let rest = accounts.drop_last();
        accounts_without_a_refresh_token_are_told(rest);
        assert(names_missing(rest) == rest.filter(bare).map_values(name));
        if bare(accounts.last()) {
            assert(rest.filter(bare).push(accounts.last()).map_values(name) =~= rest.filter(
                bare,
            ).map_values(name).push(accounts.last().name@));
        }
    }
    assert(names_missing(accounts) =~= accounts.filter(bare).map_values(name));
}

/// Processes were ended where a number above none was printed, with or without blanks around it,
/// and it is the number that is told; anything else says that there were none.
pub proof fn what_is_said_of_ended_processes(printed: Seq<char>, n: int)
    ensures
        crate::text::written_int(crate::text::trimmed(printed)) == Some(n) && 0 < n <= 2147483647
            ==> kill_text(printed) == "Terminated "@ + crate::text::decimal_int(n)
            + " codex processes"@,
        crate::text::written_int(crate::text::trimmed(printed)) == Some(n) && n <= 0 ==> kill_text(
            printed,
        ) == "No running codex processes found"@,
        crate::text::written_int(crate::text::trimmed(printed)) is None ==> kill_text(printed)
            == "No running codex processes found"@,
{
}

} // verus!
