//! Which account comes next: scoring, ranking, and when to leave the active one.
use crate::account::{Account, AccountStore, CachedQuota};
use crate::text::{eq_str, to_lowercase};
use vstd::prelude::*;

verus! {

// ---------------------------------------------------------------------------
// Scoring
// ---------------------------------------------------------------------------

/// The plan, in lower case, is a free one.
pub open spec fn free_plan(plan: Seq<char>) -> bool {
    plan == "free"@ || plan == "unknown"@
}

/// Whether the plan, in lower case, is a free one.
pub fn is_free_plan(plan: &str) -> (b: bool)
    ensures
        b == free_plan(plan@),
{
    eq_str(plan, "free") || eq_str(plan, "unknown")
}

/// What a plan, in lower case, adds to the score of an account.
pub open spec fn plan_bonus(plan: Seq<char>) -> int {
    if plan == "pro"@ {
        30
    } else if plan == "plus"@ || plan == "team"@ || plan == "enterprise"@ {
        20
    } else if plan == "edu"@ || plan == "business"@ {
        15
    } else if free_plan(plan) {
        0
    } else {
        10
    }
}

/// What a window is worth: what is left of it, and half of it where it was used up but has been
/// reset since.
pub open spec fn window_worth(left: int, reset_at: Option<i64>, now: int) -> int {
    if left > 0 {
        left
    } else {
        match reset_at {
            Some(at) => if now >= at {
                50
            } else {
                0
            },
            None => 0,
        }
    }
}

/// What the quota is worth: the five hour window alone for a free plan, else the scarcer of the
/// two windows.
pub open spec fn quota_worth(q: CachedQuota, plan: Seq<char>, now: int) -> int {
    let five = window_worth(q.five_hour_left as int, q.five_hour_reset_at, now);
    let week = window_worth(q.weekly_left as int, q.weekly_reset_at, now);
    if free_plan(plan) || five <= week {
        five
    } else {
        week
    }
}

/// The score of a quota whose plan in lower case is `plan`; none where the account is out of the
/// question.
pub open spec fn quota_score(
    q: CachedQuota,
    plan: Seq<char>,
    allow_free: bool,
    now: int,
) -> Option<int> {
    if free_plan(plan) && !allow_free {
        None
    } else if quota_worth(q, plan, now) <= 0 {
        None
    } else {
        Some(quota_worth(q, plan, now) + plan_bonus(plan))
    }
}

/// The score of an account: none where it is active, cannot be used or has no quota, and an
/// even one where nothing is known of its quota.
pub open spec fn account_score(
    a: Account,
    current: Seq<char>,
    allow_free: bool,
    now: int,
) -> Option<int> {
    if a.id@ == current || !a.usable() {
        None
    } else {
        match a.cached_quota {
            None => Some(50),
            Some(q) => quota_score(q, crate::text::lowered(q.plan_type@), allow_free, now),
        }
    }
}

fn plan_points(plan: &str) -> (points: i64)
    ensures
        points == plan_bonus(plan@),
{
    if eq_str(plan, "pro") {
        30
    } else if eq_str(plan, "plus") || eq_str(plan, "team") || eq_str(plan, "enterprise") {
        20
    } else if eq_str(plan, "edu") || eq_str(plan, "business") {
        15
    } else if is_free_plan(plan) {
        0
    } else {
        10
    }
}

fn window_points(left: i32, reset_at: Option<i64>, now: i64) -> (points: i64)
    ensures
        points == window_worth(left as int, reset_at, now as int),
        0 <= points <= i32::MAX,
{
    if left > 0 {
        left as i64
    } else {
        match reset_at {
            Some(at) => if now >= at {
                50
            } else {
                0
            },
            None => 0,
        }
    }
}

/// The score of a quota whose plan in lower case is `plan`.
pub fn score_quota(q: &CachedQuota, plan: &str, allow_free: bool, now: i64) -> (score: Option<i64>)
    ensures
        match score {
            Some(s) => quota_score(*q, plan@, allow_free, now as int) == Some(s as int) && 0 < s <= i32::MAX
                + 30,
            None => quota_score(*q, plan@, allow_free, now as int) is None,
        },
{
    let free: bool = is_free_plan(plan);
    if free && !allow_free {
        return None;
    }
    let five: i64 = window_points(q.five_hour_left, q.five_hour_reset_at, now);
    let week: i64 = window_points(q.weekly_left, q.weekly_reset_at, now);
    let worth: i64 = if free || five <= week {
        five
    } else {
        week
    };
    if worth <= 0 {
        None
    } else {
        Some(worth + plan_points(plan))
    }
}

// ---------------------------------------------------------------------------
// Ranking
// ---------------------------------------------------------------------------

/// An account that may come next: its id, its name and its score.
pub type Scored = (Seq<char>, Seq<char>, int);

/// The id of the active account, empty where there is none.
pub open spec fn current_or_empty(store: AccountStore) -> Seq<char> {
    match store.current {
        Some(id) => id@,
        None => Seq::empty(),
    }
}

/// The candidates among the accounts, in the order of the accounts.
pub open spec fn candidates(
    accounts: Seq<Account>,
    current: Seq<char>,
    allow_free: bool,
    now: int,
) -> Seq<Scored>
    decreases accounts.len(),
{
    if accounts.len() == 0 {
        Seq::empty()
    } else {
        let rest = candidates(accounts.drop_last(), current, allow_free, now);
        let a = accounts.last();
        match account_score(a, current, allow_free, now) {
            Some(score) => rest.push((a.id@, a.name@, score)),
            None => rest,
        }
    }
}

/// The position at which a candidate with the score `score` joins a ranking: behind all that
/// score at least as much.
pub open spec fn rank_place(ranking: Seq<Scored>, score: int) -> int
    decreases ranking.len(),
{
    if ranking.len() == 0 || ranking.last().2 >= score {
        ranking.len() as int
    } else {
        rank_place(ranking.drop_last(), score)
    }
}

/// The candidates by descending score; of equal ones, the earlier one stays first.
pub open spec fn ranked(list: Seq<Scored>) -> Seq<Scored>
    decreases list.len(),
{
    if list.len() == 0 {
        Seq::empty()
    } else {
        let rest = ranked(list.drop_last());
        rest.insert(rank_place(rest, list.last().2), list.last())
    }
}

/// The candidates of a store at the second `now`, best first.
pub open spec fn ranking(store: AccountStore, now: int) -> Seq<Scored> {
    ranked(
        candidates(
            store.accounts@,
            current_or_empty(store),
            store.settings.allow_auto_switch_to_free,
            now,
        ),
    )
}

/// What a list of candidates says.
pub open spec fn scored_list(list: Seq<(String, String, i64)>) -> Seq<Scored> {
    list.map_values(|c: (String, String, i64)| (c.0@, c.1@, c.2 as int))
}

proof fn lemma_rank_place(ranking: Seq<Scored>, score: int)
    ensures
        0 <= rank_place(ranking, score) <= ranking.len(),
        forall|i: int| rank_place(ranking, score) <= i < ranking.len() ==> #[trigger] ranking[i].2 < score,
        rank_place(ranking, score) > 0 ==> ranking[rank_place(ranking, score) - 1].2 >= score,
    decreases ranking.len(),
{
    if ranking.len() > 0 && ranking.last().2 < score {
        lemma_rank_place(ranking.drop_last(), score);
        assert forall|i: int| rank_place(ranking, score) <= i < ranking.len() implies #[trigger] ranking[i].2
            < score by {
            if i < ranking.len() - 1 {
                assert(ranking.drop_last()[i] == ranking[i]);
            }
        }
    }
}

/// A ranking never ascends.
pub proof fn ranking_descends(list: Seq<Scored>)
    ensures
        forall|i: int, j: int|
            0 <= i <= j < ranked(list).len() ==> #[trigger] ranked(list)[i].2 >= #[trigger] ranked(list)[j].2,
    decreases list.len(),
{
    if list.len() > 0 {
        let rest = ranked(list.drop_last());
        let x = list.last();
        ranking_descends(list.drop_last());
        lemma_rank_place(rest, x.2);
        let p = rank_place(rest, x.2);
        let all = ranked(list);
        assert(all =~= rest.insert(p, x));
        assert forall|i: int, j: int| 0 <= i <= j < all.len() implies #[trigger] all[i].2
            >= #[trigger] all[j].2 by {
            let ri = if i < p { i } else { i - 1 };
            let rj = if j < p { j } else { j - 1 };
            if i != p && j != p {
                assert(rest[ri].2 >= rest[rj].2);
            } else if i == p && j > p {
                assert(rest[rj].2 < x.2);
            } else if j == p && i < p {
                assert(rest[ri].2 >= rest[p - 1].2);
            }
        }
    }
}

/// A ranking holds the candidates that it was made of, each as often as it was there.
pub proof fn ranking_keeps_candidates(list: Seq<Scored>)
    ensures
        ranked(list).to_multiset() == list.to_multiset(),
        ranked(list).len() == list.len(),
    decreases list.len(),
{
    broadcast use vstd::seq_lib::group_to_multiset_ensures;

    if list.len() > 0 {
        let rest = ranked(list.drop_last());
        let x = list.last();
        ranking_keeps_candidates(list.drop_last());
        lemma_rank_place(rest, x.2);
        vstd::seq_lib::to_multiset_insert(rest, rank_place(rest, x.2), x);
        assert(list =~= list.drop_last().push(x));
    } else {
        assert(ranked(list) =~= list);
    }
}

/// The candidates of the store at the second `now`, best first: id, name and score.
pub fn score_candidate_accounts_at(store: &AccountStore, now: i64) -> (list: Vec<
    (String, String, i64),
>)
    ensures
        scored_list(list@) == ranking(*store, now as int),
{
    let allow_free: bool = store.settings.allow_auto_switch_to_free;
    let mut list: Vec<(String, String, i64)> = Vec::new();
    let ghost current = current_or_empty(*store);
    let mut i: usize = 0;
    assert(store.accounts@.take(0) =~= Seq::empty());
    assert(scored_list(list@) =~= ranked(candidates(store.accounts@.take(0), current, allow_free, now as int)));
    while i < store.accounts.len()
        invariant
            i <= store.accounts@.len(),
            current == current_or_empty(*store),
            scored_list(list@) == ranked(
                candidates(store.accounts@.take(i as int), current, allow_free, now as int),
            ),
        decreases store.accounts@.len() - i,
    {
        let a: &Account = &store.accounts[i];
        assert(store.accounts@.take(i + 1).drop_last() =~= store.accounts@.take(i as int));
        let score: Option<i64> = score_account(a, &store.current, allow_free, now);
        if let Some(points) = score {
            let ghost before = list@;
            let ghost rest = candidates(
                store.accounts@.take(i as int),
                current,
                allow_free,
                now as int,
            );
            let ghost x = (a.id@, a.name@, points as int);
            assert(rest.push(x).drop_last() =~= rest);
            let mut at: usize = list.len();
            assert(scored_list(list@).take(at as int) =~= scored_list(list@));
            while at > 0 && list[at - 1].2 < points
                invariant
                    at <= list@.len(),
                    rank_place(scored_list(list@), points as int) == rank_place(
                        scored_list(list@).take(at as int),
                        points as int,
                    ),
                decreases at,
            {
                assert(scored_list(list@).take(at as int).drop_last() =~= scored_list(list@).take(
                    at - 1,
                ));
                at -= 1;
            }
            list.insert(at, (a.id.clone(), a.name.clone(), points));
            assert(scored_list(list@) =~= scored_list(before).insert(at as int, x));
        }
        i += 1;
    }
    assert(store.accounts@.take(store.accounts@.len() as int) =~= store.accounts@);
    list
}

fn score_account(a: &Account, current: &Option<String>, allow_free: bool, now: i64) -> (score: Option<
    i64,
>)
    ensures
        match score {
            Some(s) => account_score(
                *a,
                match *current {
                    Some(id) => id@,
                    None => Seq::empty(),
                },
                allow_free,
                now as int,
            ) == Some(s as int),
            None => account_score(
                *a,
                match *current {
                    Some(id) => id@,
                    None => Seq::empty(),
                },
                allow_free,
                now as int,
            ) is None,
        },
{
    let active: bool = match current {
        Some(id) => eq_str(a.id.as_str(), id.as_str()),
        None => {
            proof {
                reveal_strlit("");
            }
            assert(""@ =~= Seq::empty());
            eq_str(a.id.as_str(), "")
        },
    };
    if active || !a.is_usable() {
        return None;
    }
    match &a.cached_quota {
        None => Some(50),
        Some(q) => {
            let plan: String = to_lowercase(q.plan_type.as_str());
            score_quota(q, plan.as_str(), allow_free, now)
        },
    }
}

/// The candidates of the store now, best first: id, name and score.
pub fn score_candidate_accounts(store: &AccountStore) -> (list: Vec<(String, String, i64)>)
    ensures
        exists|now: i64|
            0 <= now <= crate::clock::LAST_SECOND && scored_list(list@) == #[trigger] ranking(
                *store,
                now as int,
            ),
{
    let t = crate::clock::now();
    score_candidate_accounts_at(store, t.secs)
}

// ---------------------------------------------------------------------------
// The next account
// ---------------------------------------------------------------------------

/// The account to go on with, or when the next window is reset.
#[derive(Debug)]
pub enum PickResult {
    Found { id: String, token: String },
    Exhausted { earliest_reset: Option<i64> },
}

/// A window of the account is reset at the second `at`, after `now`.
pub open spec fn reset_ahead(a: Account, at: i64, now: int) -> bool {
    match a.cached_quota {
        Some(q) => now < at && (q.five_hour_reset_at == Some(at) || q.weekly_reset_at == Some(at)),
        None => false,
    }
}

/// The first reset of any window of any account after `now`.
pub open spec fn first_reset(accounts: Seq<Account>, first: Option<i64>, now: int) -> bool {
    match first {
        Some(r) => {
            &&& exists|i: int| 0 <= i < accounts.len() && reset_ahead(#[trigger] accounts[i], r, now)
            &&& forall|i: int, at: i64|
                0 <= i < accounts.len() && #[trigger] reset_ahead(accounts[i], at, now) ==> r <= at
        },
        None => forall|i: int, at: i64|
            0 <= i < accounts.len() ==> !#[trigger] reset_ahead(accounts[i], at, now),
    }
}

/// The pick among the candidates of a store: the best one, where it has an access token.
pub open spec fn picked(store: AccountStore, now: int, pick: PickResult) -> bool {
    let list = ranking(store, now);
    if list.len() == 0 {
        match pick {
            PickResult::Exhausted { earliest_reset } => first_reset(
                store.accounts@,
                earliest_reset,
                now,
            ),
            _ => false,
        }
    } else {
        let token = match crate::account::lookup(store.accounts@, list[0].0) {
            Some(a) => crate::account::access_token_in(a.auth_json@),
            None => None,
        };
        match pick {
            PickResult::Found { id, token: t } => id@ == list[0].0 && token == Some(t@),
            PickResult::Exhausted { earliest_reset } => token is None && earliest_reset is None,
        }
    }
}

fn sooner(first: Option<i64>, at: Option<i64>, now: i64) -> (r: Option<i64>)
    ensures
        r == match at {
            Some(t) => if now < t {
                match first {
                    Some(f) => Some(
                        if f <= t {
                            f
                        } else {
                            t
                        },
                    ),
                    None => Some(t),
                }
            } else {
                first
            },
            None => first,
        },
{
    match at {
        Some(t) => if now < t {
            match first {
                Some(f) => if f <= t {
                    Some(f)
                } else {
                    Some(t)
                },
                None => Some(t),
            }
        } else {
            first
        },
        None => first,
    }
}

/// The first reset of any window of any account after `now`.
pub fn earliest_reset(accounts: &Vec<Account>, now: i64) -> (first: Option<i64>)
    ensures
        first_reset(accounts@, first, now as int),
{
    let mut first: Option<i64> = None;
    let mut i: usize = 0;
    while i < accounts.len()
        invariant
            i <= accounts@.len(),
            first_reset(accounts@.take(i as int), first, now as int),
        decreases accounts@.len() - i,
    {
        let ghost before = first;
        let ghost seen = accounts@.take(i as int);
        let ghost more = accounts@.take(i + 1);
        assert forall|k: int| 0 <= k < i implies seen[k] == more[k] by {}
        assert(more[i as int] == accounts@[i as int]);
        if let Some(q) = &accounts[i].cached_quota {
            first = sooner(first, q.five_hour_reset_at, now);
            first = sooner(first, q.weekly_reset_at, now);
        }
        proof {
            if let Some(r) = first {
                if before == Some(r) {
                    let k = choose|k: int|
                        0 <= k < seen.len() && reset_ahead(#[trigger] seen[k], r, now as int);
                    assert(reset_ahead(more[k], r, now as int));
                } else {
                    assert(reset_ahead(more[i as int], r, now as int));
                }
            }
            assert forall|k: int, at: i64|
                0 <= k < more.len() && #[trigger] reset_ahead(more[k], at, now as int) implies first matches Some(r) && r <= at by {
                if k < i {
                    assert(reset_ahead(seen[k], at, now as int));
                }
            }
        }
        i += 1;
    }
    assert(accounts@.take(accounts@.len() as int) =~= accounts@);
    first
}

/// The account to go on with at the second `now`.
pub fn pick_next_account_at(store: &AccountStore, now: i64) -> (pick: PickResult)
    ensures
        picked(*store, now as int, pick),
{
    let list: Vec<(String, String, i64)> = score_candidate_accounts_at(store, now);
    assert(scored_list(list@).len() == list@.len());
    if list.len() == 0 {
        return PickResult::Exhausted { earliest_reset: earliest_reset(&store.accounts, now) };
    }
    let id: String = list[0].0.clone();
    assert(scored_list(list@)[0].0 == id@);
    if let Some(i) = store.find(id.as_str()) {
        if let Some(token) = AccountStore::extract_access_token(&store.accounts[i].auth_json) {
            return PickResult::Found { id, token };
        }
    }
    PickResult::Exhausted { earliest_reset: None }
}

/// The account to go on with now.
pub fn pick_next_account(store: &AccountStore) -> (pick: PickResult)
    ensures
        exists|now: i64|
            0 <= now <= crate::clock::LAST_SECOND && #[trigger] picked(*store, now as int, pick),
{
    let t = crate::clock::now();
    pick_next_account_at(store, t.secs)
}

/// The name and the score of the best candidate at the second `now`, the score within 32 bits.
pub fn predict_next_account_at(store: &AccountStore, now: i64) -> (next: Option<(String, i32)>)
    ensures
        match next {
            Some(n) => {
                let list = ranking(*store, now as int);
                &&& list.len() > 0
                &&& n.0@ == list[0].1
                &&& n.1 == if list[0].2 <= i32::MAX {
                    list[0].2
                } else {
                    i32::MAX as int
                }
            },
            None => ranking(*store, now as int).len() == 0,
        },
{
    let list: Vec<(String, String, i64)> = score_candidate_accounts_at(store, now);
    assert(scored_list(list@).len() == list@.len());
    if list.len() == 0 {
        return None;
    }
    proof {
        ranking_is_of_accounts(*store, now as int, 0);
    }
    assert(scored_list(list@)[0] == (list@[0].0@, list@[0].1@, list@[0].2 as int));
    let score: i64 = list[0].2;
    let shown: i32 = if score <= 2_147_483_647 {
        score as i32
    } else {
        2_147_483_647
    };
    Some((list[0].1.clone(), shown))
}

/// The name and the score of the best candidate now.
pub fn predict_next_account_internal(store: &AccountStore) -> (next: Option<(String, i32)>)
    ensures
        exists|now: i64|
            {
                let list = #[trigger] ranking(*store, now as int);
                0 <= now <= crate::clock::LAST_SECOND && match next {
                    Some(n) => {
                        &&& list.len() > 0
                        &&& n.0@ == list[0].1
                        &&& n.1 == if list[0].2 <= i32::MAX {
                            list[0].2
                        } else {
                            i32::MAX as int
                        }
                    },
                    None => list.len() == 0,
                }
            },
{
    let t = crate::clock::now();
    predict_next_account_at(store, t.secs)
}

/// The candidates are accounts of the store that can be used and are not active, under their ids
/// and names.
pub proof fn candidates_are_accounts(
    accounts: Seq<Account>,
    current: Seq<char>,
    allow_free: bool,
    now: int,
)
    ensures
        forall|k: int|
            0 <= k < candidates(accounts, current, allow_free, now).len() ==> exists|i: int|
                0 <= i < accounts.len() && candidate_of(
                    #[trigger] candidates(accounts, current, allow_free, now)[k],
                    #[trigger] accounts[i],
                    current,
                    allow_free,
                    now,
                ),
    decreases accounts.len(),
{
    if accounts.len() > 0 {
        let fewer = accounts.drop_last();
        let all = candidates(accounts, current, allow_free, now);
        let rest = candidates(fewer, current, allow_free, now);
        candidates_are_accounts(fewer, current, allow_free, now);
        assert forall|k: int| 0 <= k < all.len() implies exists|i: int|
            0 <= i < accounts.len() && candidate_of(
                #[trigger] all[k],
                #[trigger] accounts[i],
                current,
                allow_free,
                now,
            ) by {
            if k < rest.len() {
                assert(all[k] == rest[k]);
                let i = choose|i: int|
                    0 <= i < fewer.len() && candidate_of(
                        rest[k],
                        #[trigger] fewer[i],
                        current,
                        allow_free,
                        now,
                    );
                assert(accounts[i] == fewer[i]);
            } else {
                assert(accounts[accounts.len() - 1] == accounts.last());
            }
        }
    }
}

/// The candidate stands for the account, which is usable and not active and has that score.
pub open spec fn candidate_of(
    c: Scored,
    a: Account,
    current: Seq<char>,
    allow_free: bool,
    now: int,
) -> bool {
    &&& c.0 == a.id@
    &&& c.1 == a.name@
    &&& a.id@ != current
    &&& a.usable()
    &&& account_score(a, current, allow_free, now) == Some(c.2)
}

/// Every candidate of a ranking is an account of the store that can be used, is not active and
/// has the score that the ranking gives it; the score is positive.
pub proof fn ranking_is_of_accounts(store: AccountStore, now: int, k: int)
    requires
        0 <= k < ranking(store, now).len(),
    ensures
        ranking(store, now)[k].2 > 0,
        exists|i: int|
            0 <= i < store.accounts@.len() && candidate_of(
                ranking(store, now)[k],
                #[trigger] store.accounts@[i],
                current_or_empty(store),
                store.settings.allow_auto_switch_to_free,
                now,
            ),
{
    broadcast use vstd::seq_lib::group_to_multiset_ensures;

    let free = store.settings.allow_auto_switch_to_free;
    let list = candidates(store.accounts@, current_or_empty(store), free, now);
    ranking_keeps_candidates(list);
    let c = ranking(store, now)[k];
    assert(ranking(store, now).to_multiset().count(c) > 0);
    assert(list.contains(c));
    let j = choose|j: int| 0 <= j < list.len() && list[j] == c;
    candidates_are_accounts(store.accounts@, current_or_empty(store), free, now);
    assert(candidates(store.accounts@, current_or_empty(store), free, now)[j] == c);
}

/// The pick is an account of the store that can be used and is not the active one, as long as no
/// two accounts share an id.
pub proof fn pick_is_usable(store: AccountStore, now: int, pick: PickResult)
    requires
        crate::account::distinct_ids(store.accounts@),
        picked(store, now, pick),
        pick is Found,
    ensures
        crate::account::lookup(store.accounts@, pick->id@) matches Some(a) && a.usable()
            && crate::account::access_token_in(a.auth_json@) == Some(pick->token@),
        store.current matches Some(id) ==> id@ != pick->id@,
{
    let best = ranking(store, now)[0];
    ranking_is_of_accounts(store, now, 0);
    let i = choose|i: int|
        0 <= i < store.accounts@.len() && candidate_of(
            best,
            #[trigger] store.accounts@[i],
            current_or_empty(store),
            store.settings.allow_auto_switch_to_free,
            now,
        );
    crate::account::lemma_place_from(store.accounts@, best.0, 0);
    let p = crate::account::place_from(store.accounts@, best.0, 0);
    if p < i {
        assert(store.accounts@[p].id@ != store.accounts@[i].id@);
    }
}

/// No account that has a score is overlooked, and none scores more than the best candidate.
pub proof fn nobody_beats_the_best(store: AccountStore, now: int, i: int)
    requires
        0 <= i < store.accounts@.len(),
        account_score(
            store.accounts@[i],
            current_or_empty(store),
            store.settings.allow_auto_switch_to_free,
            now,
        ) is Some,
    ensures
        ranking(store, now).len() > 0,
        ranking(store, now)[0].2 >= account_score(
            store.accounts@[i],
            current_or_empty(store),
            store.settings.allow_auto_switch_to_free,
            now,
        )->0,
{
    broadcast use vstd::seq_lib::group_to_multiset_ensures;

    let current = current_or_empty(store);
    let free = store.settings.allow_auto_switch_to_free;
    let list = candidates(store.accounts@, current, free, now);
    let a = store.accounts@[i];
    let c: Scored = (a.id@, a.name@, account_score(a, current, free, now)->0);
    lemma_candidate_there(store.accounts@, current, free, now, i);
    ranking_keeps_candidates(list);
    ranking_descends(list);
    assert(list.to_multiset().count(c) > 0);
    assert(ranking(store, now).contains(c));
    let k = choose|k: int| 0 <= k < ranking(store, now).len() && ranking(store, now)[k] == c;
    assert(ranked(list)[0].2 >= ranked(list)[k].2);
}

proof fn lemma_candidate_there(
    accounts: Seq<Account>,
    current: Seq<char>,
    allow_free: bool,
    now: int,
    i: int,
)
    requires
        0 <= i < accounts.len(),
        account_score(accounts[i], current, allow_free, now) is Some,
    ensures
        candidates(accounts, current, allow_free, now).contains(
            (
                accounts[i].id@,
                accounts[i].name@,
                account_score(accounts[i], current, allow_free, now)->0,
            ),
        ),
    decreases accounts.len(),
{
    let all = candidates(accounts, current, allow_free, now);
    if i == accounts.len() - 1 {
        assert(all.last() == (
            accounts[i].id@,
            accounts[i].name@,
            account_score(accounts[i], current, allow_free, now)->0,
        ));
    } else {
        let fewer = accounts.drop_last();
        assert(fewer[i] == accounts[i]);
        lemma_candidate_there(fewer, current, allow_free, now, i);
        let rest = candidates(fewer, current, allow_free, now);
        let c: Scored = (
            accounts[i].id@,
            accounts[i].name@,
            account_score(accounts[i], current, allow_free, now)->0,
        );
        let k = choose|k: int| 0 <= k < rest.len() && rest[k] == c;
        assert(all[k] == c);
    }
}

/// What is shown as the next account is the one that is picked.
pub proof fn the_pick_is_the_one_shown(store: AccountStore, now: int, pick: PickResult)
    requires
        crate::account::distinct_ids(store.accounts@),
        picked(store, now, pick),
        pick is Found,
    ensures
        ranking(store, now).len() > 0,
        crate::account::lookup(store.accounts@, pick->id@) matches Some(a) && a.name@ == ranking(
            store,
            now,
        )[0].1,
{
    let best = ranking(store, now)[0];
    ranking_is_of_accounts(store, now, 0);
    let i = choose|i: int|
        0 <= i < store.accounts@.len() && candidate_of(
            best,
            #[trigger] store.accounts@[i],
            current_or_empty(store),
            store.settings.allow_auto_switch_to_free,
            now,
        );
    crate::account::lemma_place_from(store.accounts@, best.0, 0);
    let p = crate::account::place_from(store.accounts@, best.0, 0);
    if p < i {
        assert(store.accounts@[p].id@ != store.accounts@[i].id@);
    }
}

/// An account whose quota is known and whose five hour window was found to be used up is no
/// candidate before that window is reset.
pub proof fn depleted_accounts_wait_for_their_reset(
    a: Account,
    current: Seq<char>,
    allow_free: bool,
    now: int,
)
    requires
        a.cached_quota matches Some(q) && (q.five_hour_reset_at matches Some(at) ==> now < at),
    ensures
        account_score(a.depleted(), current, allow_free, now) is None,
{
}

/// An account on a free plan is picked only where the settings allow it.
pub proof fn free_accounts_need_permission(
    a: Account,
    current: Seq<char>,
    allow_free: bool,
    now: int,
)
    requires
        a.cached_quota matches Some(q) && free_plan(crate::text::lowered(q.plan_type@)),
        account_score(a, current, allow_free, now) is Some,
    ensures
        allow_free,
{
}

// ---------------------------------------------------------------------------
// What scores are for
// ---------------------------------------------------------------------------

/// On a plan that is not free, a week that is used up keeps the account out until it is reset,
/// whatever is left of its five hours.
pub proof fn a_used_up_week_keeps_out(q: CachedQuota, plan: Seq<char>, allow_free: bool, now: int)
    requires
        plan != "free"@,
        plan != "unknown"@,
        q.weekly_left <= 0,
        q.weekly_reset_at matches Some(at) ==> now < at,
    ensures
        quota_score(q, plan, allow_free, now) is None,
{
}

/// On any plan, five hours that are used up keep the account out until they are reset, whatever is
/// left of its week.
pub proof fn used_up_hours_keep_out(q: CachedQuota, plan: Seq<char>, allow_free: bool, now: int)
    requires
        q.five_hour_left <= 0,
        q.five_hour_reset_at matches Some(at) ==> now < at,
    ensures
        quota_score(q, plan, allow_free, now) is None,
{
}

/// A window that was used up and has been reset since counts as one of which half is left; a window
/// of which something is left is not asked for its reset.
pub proof fn reset_windows_count_half(
    q: CachedQuota,
    plan: Seq<char>,
    allow_free: bool,
    now: int,
    at: Option<i64>,
)
    ensures
        q.weekly_left <= 0 && (q.weekly_reset_at matches Some(t) && now >= t) ==> quota_score(
            q,
            plan,
            allow_free,
            now,
        ) == quota_score(CachedQuota { weekly_left: 50, ..q }, plan, allow_free, now),
        q.five_hour_left <= 0 && (q.five_hour_reset_at matches Some(t) && now >= t) ==> quota_score(
            q,
            plan,
            allow_free,
            now,
        ) == quota_score(CachedQuota { five_hour_left: 50, ..q }, plan, allow_free, now),
        q.weekly_left > 0 ==> quota_score(q, plan, allow_free, now) == quota_score(
            CachedQuota { weekly_reset_at: at, ..q },
            plan,
            allow_free,
            now,
        ),
        q.five_hour_left > 0 ==> quota_score(q, plan, allow_free, now) == quota_score(
            CachedQuota { five_hour_reset_at: at, ..q },
            plan,
            allow_free,
            now,
        ),
{
}

/// Of two windows of which something is left, the scarcer one decides: the other one could be as
/// short. The score is what is left of it and what the plan is worth.
pub proof fn the_scarcer_window_decides(
    q: CachedQuota,
    plan: Seq<char>,
    allow_free: bool,
    now: int,
)
    requires
        plan != "free"@,
        plan != "unknown"@,
        q.five_hour_left > 0,
        q.weekly_left > 0,
    ensures
        ({
            let score = quota_score(q, plan, allow_free, now);
            let scarce = if q.five_hour_left < q.weekly_left {
                q.five_hour_left
            } else {
                q.weekly_left
            };
            &&& score is Some
            &&& plan == "pro"@ ==> score->0 - scarce == 30
            &&& plan == "plus"@ || plan == "team"@ || plan == "enterprise"@ ==> score->0 - scarce
                == 20
            &&& plan == "edu"@ || plan == "business"@ ==> score->0 - scarce == 15
            &&& score->0 - scarce >= 10
            &&& score->0 - scarce != 10 ==> plan == "pro"@ || plan == "plus"@ || plan == "team"@
                || plan == "enterprise"@ || plan == "edu"@ || plan == "business"@
        }),
{
    lemma_plans_differ();
}

proof fn lemma_plans_differ()
    ensures
        "pro"@ != "plus"@,
        "pro"@ != "team"@,
        "pro"@ != "enterprise"@,
        "pro"@ != "edu"@,
        "pro"@ != "business"@,
        "plus"@ != "edu"@,
        "plus"@ != "business"@,
        "team"@ != "edu"@,
        "team"@ != "business"@,
        "enterprise"@ != "edu"@,
        "enterprise"@ != "business"@,
        "free"@ != "pro"@,
        "free"@ != "plus"@,
        "free"@ != "team"@,
        "free"@ != "enterprise"@,
        "free"@ != "edu"@,
        "free"@ != "business"@,
        "unknown"@ != "pro"@,
        "unknown"@ != "plus"@,
        "unknown"@ != "team"@,
        "unknown"@ != "enterprise"@,
        "unknown"@ != "edu"@,
        "unknown"@ != "business"@,
        "unknown"@ != "free"@,
{
    reveal_strlit("pro");
    reveal_strlit("plus");
    reveal_strlit("team");
    reveal_strlit("enterprise");
    reveal_strlit("edu");
    reveal_strlit("business");
    reveal_strlit("free");
    reveal_strlit("unknown");
    assert("pro"@.len() == 3 && "plus"@.len() == 4 && "team"@.len() == 4 && "enterprise"@.len() == 10);
    assert("edu"@.len() == 3 && "business"@.len() == 8 && "free"@.len() == 4 && "unknown"@.len() == 7);
    assert("pro"@[0] == 'p' && "edu"@[0] == 'e');
    assert("plus"@[0] == 'p' && "team"@[0] == 't' && "free"@[0] == 'f');
}

/// On a free plan only the five hours count, and they score what is left of them; without
/// permission the account is out of the question.
pub proof fn free_plans_go_by_hours(
    q: CachedQuota,
    plan: Seq<char>,
    now: int,
    left: i32,
    at: Option<i64>,
)
    requires
        plan == "free"@ || plan == "unknown"@,
    ensures
        quota_score(q, plan, false, now) is None,
        quota_score(q, plan, true, now) == quota_score(
            CachedQuota { weekly_left: left, weekly_reset_at: at, ..q },
            plan,
            true,
            now,
        ),
        q.five_hour_left > 0 ==> quota_score(q, plan, true, now) == Some(q.five_hour_left as int),
{
    lemma_plans_differ();
}

/// An account is a candidate by its quota, where it is not active and nothing speaks against it;
/// one of whose quota nothing is known scores fifty.
pub proof fn who_has_a_score(a: Account, current: Seq<char>, allow_free: bool, now: int)
    ensures
        a.is_banned || a.is_token_invalid || a.is_logged_out || a.id@ == current ==> account_score(
            a,
            current,
            allow_free,
            now,
        ) is None,
        !a.is_banned && !a.is_token_invalid && !a.is_logged_out && a.id@ != current ==> {
            &&& a.cached_quota is None ==> account_score(a, current, allow_free, now) == Some(50int)
            &&& a.cached_quota matches Some(q) ==> account_score(a, current, allow_free, now)
                == quota_score(q, crate::text::lowered(q.plan_type@), allow_free, now)
        },
{
}

/// A candidate that joins a ranking stands behind all that score at least as much and before all
/// that score less, and the others keep their order.
pub proof fn latecomers_stand_behind_their_equals(list: Seq<Scored>, x: Scored)
    ensures
        exists|p: int|
            {
                &&& 0 <= p < ranked(list.push(x)).len()
                &&& #[trigger] ranked(list.push(x))[p] == x
                &&& ranked(list.push(x)).remove(p) == ranked(list)
                &&& forall|i: int| 0 <= i < p ==> (#[trigger] ranked(list)[i]).2 >= x.2
                &&& forall|i: int|
                    p <= i < ranked(list).len() ==> (#[trigger] ranked(list)[i]).2 < x.2
            },
{
    let rest = ranked(list);
    let p = rank_place(rest, x.2);
    assert(list.push(x).drop_last() =~= list);
    lemma_rank_place(rest, x.2);
    ranking_descends(list);
    let all = ranked(list.push(x));
    assert(all =~= rest.insert(p, x));
    assert(all.remove(p) =~= rest);
    assert(all[p] == x);
    assert forall|i: int| 0 <= i < p implies (#[trigger] ranked(list)[i]).2 >= x.2 by {
        assert(ranked(list)[i].2 >= ranked(list)[p - 1].2);
    }
}

/// Everyone in a ranking is an account of the store, under its own id and name, that is not banned,
/// not signed out, has a token that is not known to be invalid, and is not the active one.
pub proof fn the_ranking_is_of_good_accounts(store: AccountStore, now: int, k: int)
    requires
        0 <= k < ranking(store, now).len(),
    ensures
        exists|i: int|
            {
                &&& 0 <= i < store.accounts@.len()
                &&& (#[trigger] store.accounts@[i]).id@ == ranking(store, now)[k].0
                &&& store.accounts@[i].name@ == ranking(store, now)[k].1
                &&& !store.accounts@[i].is_banned
                &&& !store.accounts@[i].is_token_invalid
                &&& !store.accounts@[i].is_logged_out
                &&& store.current matches Some(c) ==> store.accounts@[i].id@ != c@
                &&& account_score(
                    store.accounts@[i],
                    match store.current {
                        Some(c) => c@,
                        None => Seq::empty(),
                    },
                    store.settings.allow_auto_switch_to_free,
                    now,
                ) == Some(ranking(store, now)[k].2)
            },
{
    ranking_is_of_accounts(store, now, k);
}

/// The account that is picked is one that nothing speaks against, other than the active one, with
/// the access token that its document holds; no other candidate scores more.
pub proof fn the_pick_is_the_best(store: AccountStore, now: int, pick: PickResult, i: int)
    requires
        picked(store, now, pick),
        pick is Found,
        0 <= i < store.accounts@.len(),
    ensures
        ({
            let current = match store.current {
                Some(c) => c@,
                None => Seq::empty(),
            };
            let free = store.settings.allow_auto_switch_to_free;
            exists|k: int|
                {
                    &&& 0 <= k < store.accounts@.len()
                    &&& (#[trigger] store.accounts@[k]).id@ == pick->id@
                    &&& !store.accounts@[k].is_banned
                    &&& !store.accounts@[k].is_token_invalid
                    &&& !store.accounts@[k].is_logged_out
                    &&& store.accounts@[k].id@ != current
                    &&& account_score(store.accounts@[i], current, free, now) matches Some(s) ==> (
                    account_score(store.accounts@[k], current, free, now) matches Some(b) && b
                        >= s)
                }
        }),
        exists|k: int|
            {
                &&& 0 <= k < store.accounts@.len()
                &&& (#[trigger] store.accounts@[k]).id@ == pick->id@
                &&& crate::account::access_token_in(store.accounts@[k].auth_json@) == Some(
                    pick->token@,
                )
            },
{
    ranking_is_of_accounts(store, now, 0);
    let best = ranking(store, now)[0];
    let current = current_or_empty(store);
    let free = store.settings.allow_auto_switch_to_free;
    let k = choose|k: int|
        0 <= k < store.accounts@.len() && candidate_of(
            best,
            #[trigger] store.accounts@[k],
            current,
            free,
            now,
        );
    assert(store.accounts@[k].id@ == pick->id@);
    if account_score(store.accounts@[i], current, free, now) is Some {
        nobody_beats_the_best(store, now, i);
    }
    crate::account::lemma_place_from(store.accounts@, best.0, 0);
    let p = crate::account::place_from(store.accounts@, best.0, 0);
    assert(store.accounts@[p].id@ == pick->id@);
}

/// Where some account has a score, the search does not end for want of one; where none has, it ends
/// with the first reset of a window that is still ahead.
pub proof fn the_search_ends_for_want_of_candidates(store: AccountStore, now: int, pick: PickResult)
    requires
        picked(store, now, pick),
    ensures
        ({
            let current = match store.current {
                Some(c) => c@,
                None => Seq::empty(),
            };
            let free = store.settings.allow_auto_switch_to_free;
            let nobody = forall|i: int|
                0 <= i < store.accounts@.len() ==> account_score(
                    #[trigger] store.accounts@[i],
                    current,
                    free,
                    now,
                ) is None;
            nobody ==> {
                &&& pick is Exhausted
                &&& pick->earliest_reset matches Some(r) ==> now < r && exists|i: int|
                    0 <= i < store.accounts@.len() && ((
                    #[trigger] store.accounts@[i]).cached_quota matches Some(q) && (
                    q.five_hour_reset_at == Some(r) || q.weekly_reset_at == Some(r)))
                &&& forall|i: int|
                    0 <= i < store.accounts@.len() ==> ((
                    #[trigger] store.accounts@[i]).cached_quota matches Some(q) ==> {
                        &&& q.five_hour_reset_at matches Some(at) ==> now >= at || (
                        pick->earliest_reset matches Some(r) && r <= at)
                        &&& q.weekly_reset_at matches Some(at) ==> now >= at || (
                        pick->earliest_reset matches Some(r) && r <= at)
                    })
            }
        }),
{
    let current = current_or_empty(store);
    let free = store.settings.allow_auto_switch_to_free;
    if ranking(store, now).len() > 0 {
        ranking_is_of_accounts(store, now, 0);
    } else {
        let first = pick->earliest_reset;
        if let Some(r) = first {
            let i = choose|i: int|
                0 <= i < store.accounts@.len() && reset_ahead(#[trigger] store.accounts@[i], r, now);
            assert(reset_ahead(store.accounts@[i], r, now));
        }
        assert forall|i: int| 0 <= i < store.accounts@.len() implies ((
        #[trigger] store.accounts@[i]).cached_quota matches Some(q) ==> {
            &&& q.five_hour_reset_at matches Some(at) ==> now >= at || (first matches Some(r) && r
                <= at)
            &&& q.weekly_reset_at matches Some(at) ==> now >= at || (first matches Some(r) && r
                <= at)
        }) by {
            if let Some(q) = store.accounts@[i].cached_quota {
                if let Some(at) = q.five_hour_reset_at {
                    assert(reset_ahead(store.accounts@[i], at, now) == (now < at));
                }
                if let Some(at) = q.weekly_reset_at {
                    assert(reset_ahead(store.accounts@[i], at, now) == (now < at));
                }
            }
        }
    }
}

// ---------------------------------------------------------------------------
// Leaving the active account
// ---------------------------------------------------------------------------

/// The quota of the active account, whose plan in lower case is `plan`, is below a threshold that
/// is set. A threshold of zero is not set.
pub open spec fn below_threshold(
    q: CachedQuota,
    plan: Seq<char>,
    settings: crate::account::AppSettings,
) -> bool {
    ||| free_plan(plan) && settings.proxy_free_guard > 0 && q.five_hour_left
        < settings.proxy_free_guard
    ||| settings.proxy_threshold_5h > 0 && q.five_hour_left < settings.proxy_threshold_5h
    ||| settings.proxy_threshold_weekly > 0 && q.weekly_left < settings.proxy_threshold_weekly
}

/// The active account should be left before it is used up.
pub open spec fn preemptive(store: AccountStore) -> bool {
    let s = store.settings;
    if s.proxy_threshold_5h == 0 && s.proxy_threshold_weekly == 0 && s.proxy_free_guard == 0 {
        false
    } else {
        match store.current_account() {
            None => false,
            Some(a) => if !a.usable() {
                true
            } else {
                match a.cached_quota {
                    Some(q) => below_threshold(q, crate::text::lowered(q.plan_type@), s),
                    None => false,
                }
            },
        }
    }
}

/// Whether the quota, whose plan in lower case is `plan`, is below a threshold that is set.
pub fn is_below_threshold(
    q: &CachedQuota,
    plan: &str,
    settings: &crate::account::AppSettings,
) -> (b: bool)
    ensures
        b == below_threshold(*q, plan@, *settings),
{
    let five: i64 = q.five_hour_left as i64;
    let week: i64 = q.weekly_left as i64;
    if is_free_plan(plan) && settings.proxy_free_guard > 0 && five
        < settings.proxy_free_guard as i64 {
        return true;
    }
    if settings.proxy_threshold_5h > 0 && five < settings.proxy_threshold_5h as i64 {
        return true;
    }
    settings.proxy_threshold_weekly > 0 && week < settings.proxy_threshold_weekly as i64
}

/// Whether the active account should be left before it is used up.
pub fn should_preemptive_switch(store: &AccountStore) -> (b: bool)
    ensures
        b == preemptive(*store),
{
    let s = &store.settings;
    if s.proxy_threshold_5h == 0 && s.proxy_threshold_weekly == 0 && s.proxy_free_guard == 0 {
        return false;
    }
    match store.find_current() {
        None => false,
        Some(i) => {
            let a: &Account = &store.accounts[i];
            if !a.is_usable() {
                return true;
            }
            match &a.cached_quota {
                Some(q) => {
                    let plan: String = to_lowercase(q.plan_type.as_str());
                    is_below_threshold(q, plan.as_str(), s)
                },
                None => false,
            }
        },
    }
}

/// The quota, whose plan in lower case is `plan`, has nothing left to open a connection with.
pub open spec fn used_up(q: CachedQuota, plan: Seq<char>) -> bool {
    q.five_hour_left <= 0 || (plan != "free"@ && q.weekly_left <= 0)
}

/// Whether the quota, whose plan in lower case is `plan`, has nothing left.
pub fn is_used_up(q: &CachedQuota, plan: &str) -> (b: bool)
    ensures
        b == used_up(*q, plan@),
{
    q.five_hour_left <= 0 || (!eq_str(plan, "free") && q.weekly_left <= 0)
}

/// The active account cannot carry a new connection.
pub open spec fn spent(store: AccountStore) -> bool {
    match store.current_account() {
        None => false,
        Some(a) => !a.usable() || match a.cached_quota {
            Some(q) => used_up(q, crate::text::lowered(q.plan_type@)),
            None => false,
        },
    }
}

/// Whether the active account cannot carry a new connection.
pub fn is_spent(store: &AccountStore) -> (b: bool)
    ensures
        b == spent(*store),
{
    match store.find_current() {
        None => false,
        Some(i) => {
            let a: &Account = &store.accounts[i];
            if !a.is_usable() {
                return true;
            }
            match &a.cached_quota {
                Some(q) => {
                    let plan: String = to_lowercase(q.plan_type.as_str());
                    is_used_up(q, plan.as_str())
                },
                None => false,
            }
        },
    }
}

/// A quota is below a threshold where it has less left than one that is set; thresholds of zero are
/// not set, and the one for free plans holds for them alone.
pub proof fn thresholds_hold_where_they_are_set(
    q: CachedQuota,
    plan: Seq<char>,
    s: crate::account::AppSettings,
)
    ensures
        0 <= q.five_hour_left < s.proxy_threshold_5h ==> below_threshold(q, plan, s),
        0 <= q.weekly_left < s.proxy_threshold_weekly ==> below_threshold(q, plan, s),
        0 <= q.five_hour_left < s.proxy_free_guard && (plan == "free"@ || plan == "unknown"@)
            ==> below_threshold(q, plan, s),
        below_threshold(q, plan, s) ==> {
            ||| q.five_hour_left < s.proxy_threshold_5h && s.proxy_threshold_5h != 0
            ||| q.weekly_left < s.proxy_threshold_weekly && s.proxy_threshold_weekly != 0
            ||| q.five_hour_left < s.proxy_free_guard && s.proxy_free_guard != 0 && (plan
                == "free"@ || plan == "unknown"@)
        },
{
}

/// The active account is left early only where some threshold is set: because something speaks
/// against it, or because what is left of it is below a threshold.
pub proof fn when_the_active_account_is_left_early(store: AccountStore)
    ensures
        ({
            let s = store.settings;
            let set = s.proxy_threshold_5h != 0 || s.proxy_threshold_weekly != 0
                || s.proxy_free_guard != 0;
            &&& preemptive(store) ==> set && store.current_account() is Some
            &&& set && (store.current_account() matches Some(a) && (a.is_banned
                || a.is_token_invalid || a.is_logged_out)) ==> preemptive(store)
            &&& set && (store.current_account() matches Some(a) && !a.is_banned
                && !a.is_token_invalid && !a.is_logged_out) ==> preemptive(store) == (
            store.current_account()->0.cached_quota matches Some(q) && below_threshold(
                q,
                crate::text::lowered(q.plan_type@),
                s,
            ))
        }),
{
}

/// A connection cannot be opened with an account that something speaks against, or of whose five
/// hours or, unless its plan is the free one, week nothing is left; with any other it can.
pub proof fn what_a_connection_needs(store: AccountStore)
    ensures
        store.current_account() is None ==> !spent(store),
        store.current_account() matches Some(a) ==> {
            &&& a.is_banned || a.is_token_invalid || a.is_logged_out ==> spent(store)
            &&& !a.is_banned && !a.is_token_invalid && !a.is_logged_out ==> {
                &&& a.cached_quota is None ==> !spent(store)
                &&& a.cached_quota matches Some(q) ==> {
                    &&& q.five_hour_left <= 0 ==> spent(store)
                    &&& q.weekly_left <= 0 && crate::text::lowered(q.plan_type@) != "free"@
                        ==> spent(store)
                    &&& q.five_hour_left > 0 && q.weekly_left > 0 ==> !spent(store)
                    &&& q.five_hour_left > 0 && crate::text::lowered(q.plan_type@) == "free"@
                        ==> !spent(store)
                }
            }
        },
{
}

} // verus!
