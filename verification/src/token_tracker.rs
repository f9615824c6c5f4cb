//! Token usage: reading it out of a stream of events, pricing it, and adding it up.
use crate::clock::{year_and_month, Timestamp};
use crate::json::{get_of, i64_of, string_of, Json, JsonView};
use crate::text::{
    contains, eq_str, from_utf8_lossy, lines, starts_with, to_lowercase, trim, trim_start_matches,
};
use vstd::prelude::*;

verus! {

// ---------------------------------------------------------------------------
// Prices
// ---------------------------------------------------------------------------

/// The prices of a model, in thousandths of a dollar for a million tokens. A token then costs so
/// many billionths of a dollar.
#[derive(Debug, Clone, Copy, PartialEq, Eq, Structural)]
pub struct ModelPricing {
    pub input: i64,
    pub cached_input: i64,
    pub output: i64,
}

/// The prices of a model, by its name in lower case.
pub open spec fn pricing_of(lower: Seq<char>) -> ModelPricing {
    if crate::text::occurs(lower, "o3"@) {
        ModelPricing { input: 2000, cached_input: 1000, output: 8000 }
    } else if crate::text::occurs(lower, "o4-mini"@) {
        ModelPricing { input: 1100, cached_input: 275, output: 4400 }
    } else if crate::text::occurs(lower, "codex-mini"@) {
        ModelPricing { input: 1500, cached_input: 375, output: 6000 }
    } else {
        ModelPricing { input: 2000, cached_input: 500, output: 8000 }
    }
}

/// The prices of a model, by its name in lower case.
pub fn pricing_for(lower: &str) -> (p: ModelPricing)
    ensures
        p == pricing_of(lower@),
{
    if contains(lower, "o3") {
        ModelPricing { input: 2000, cached_input: 1000, output: 8000 }
    } else if contains(lower, "o4-mini") {
        ModelPricing { input: 1100, cached_input: 275, output: 4400 }
    } else if contains(lower, "codex-mini") {
        ModelPricing { input: 1500, cached_input: 375, output: 6000 }
    } else {
        ModelPricing { input: 2000, cached_input: 500, output: 8000 }
    }
}

/// The prices of a model.
pub fn get_pricing(model: &str) -> (p: ModelPricing)
    ensures
        p == pricing_of(crate::text::lowered(model@)),
{
    let lower: String = to_lowercase(model);
    pricing_for(lower.as_str())
}

/// The prices of every model are positive, and input that was cached is never the dearer one.
pub proof fn prices_are_sane(lower: Seq<char>)
    ensures
        0 < pricing_of(lower).cached_input <= pricing_of(lower).input < pricing_of(lower).output,
{
}

/// The usage of one request.
#[derive(Debug)]
pub struct RequestUsage {
    pub input_tokens: i64,
    pub cached_input_tokens: i64,
    pub output_tokens: i64,
    pub total_tokens: i64,
    pub model: String,
}

/// What a request costs with the prices `p`, in billionths of a dollar.
pub open spec fn cost_with(u: RequestUsage, p: ModelPricing) -> int {
    (u.input_tokens - u.cached_input_tokens) * p.input + u.cached_input_tokens * p.cached_input
        + u.output_tokens * p.output
}

/// What a request costs, in billionths of a dollar.
pub open spec fn cost_of(u: RequestUsage) -> int {
    cost_with(u, pricing_of(crate::text::lowered(u.model@)))
}

proof fn lemma_product_bound(x: int, limit: int, price: int)
    by (nonlinear_arith)
    requires
        -limit <= x <= limit,
        0 <= price <= 8000,
    ensures
        -limit * 8000 <= x * price <= limit * 8000,
{
}

proof fn lemma_cost_bound(u: RequestUsage, p: ModelPricing)
    requires
        0 <= p.input <= 8000,
        0 <= p.cached_input <= 8000,
        0 <= p.output <= 8000,
    ensures
        -300_000_000_000_000_000_000_000 < cost_with(u, p) < 300_000_000_000_000_000_000_000,
{
    lemma_product_bound(
        u.input_tokens - u.cached_input_tokens,
        18_446_744_073_709_551_616,
        p.input as int,
    );
    lemma_product_bound(
        u.cached_input_tokens as int,
        9_223_372_036_854_775_808,
        p.cached_input as int,
    );
    lemma_product_bound(u.output_tokens as int, 9_223_372_036_854_775_808, p.output as int);
}

/// What a request costs with the prices `p`, in billionths of a dollar.
pub fn cost_at(u: &RequestUsage, p: ModelPricing) -> (cost: i128)
    requires
        0 <= p.input <= 8000,
        0 <= p.cached_input <= 8000,
        0 <= p.output <= 8000,
    ensures
        cost == cost_with(*u, p),
        -300_000_000_000_000_000_000_000 < cost < 300_000_000_000_000_000_000_000,
{
    proof {
        lemma_cost_bound(*u, p);
        lemma_product_bound(
            u.input_tokens - u.cached_input_tokens,
            18_446_744_073_709_551_616,
            p.input as int,
        );
        lemma_product_bound(
            u.cached_input_tokens as int,
            9_223_372_036_854_775_808,
            p.cached_input as int,
        );
        lemma_product_bound(u.output_tokens as int, 9_223_372_036_854_775_808, p.output as int);
    }
    let fresh: i128 = u.input_tokens as i128 - u.cached_input_tokens as i128;
    fresh * p.input as i128 + u.cached_input_tokens as i128 * p.cached_input as i128
        + u.output_tokens as i128 * p.output as i128
}

// ---------------------------------------------------------------------------
// Adding up
// ---------------------------------------------------------------------------

/// What was used of one model; the cost in billionths of a dollar.
#[derive(Debug, Clone, Copy, PartialEq, Eq, Structural)]
pub struct ModelUsage {
    pub input_tokens: i64,
    pub output_tokens: i64,
    pub cost: i128,
}

/// What was used since a point in time; costs in billionths of a dollar.
#[derive(Debug)]
pub struct UsageStats {
    pub total_input_tokens: i64,
    pub total_cached_input_tokens: i64,
    pub total_output_tokens: i64,
    pub total_tokens: i64,
    pub total_cost: i128,
    pub total_requests: u64,
    /// The usage of each model, each model once.
    pub by_model: Vec<(String, ModelUsage)>,
    pub since: Timestamp,
    pub last_month_cost: Option<i128>,
    pub last_month_tokens: Option<i64>,
}

/// A request in the history of usage; the cost in billionths of a dollar.
#[derive(Debug)]
pub struct TokenHistoryEntry {
    pub timestamp: Timestamp,
    pub model: String,
    pub input_tokens: i64,
    pub output_tokens: i64,
    pub cost: i128,
}

/// Nothing was used since `now`.
pub open spec fn nothing_used(s: UsageStats, now: Timestamp) -> bool {
    &&& s.total_input_tokens == 0 && s.total_cached_input_tokens == 0 && s.total_output_tokens == 0
    &&& s.total_tokens == 0 && s.total_cost == 0 && s.total_requests == 0
    &&& s.by_model@.len() == 0
    &&& s.since == now
}

/// What the list of models says.
pub open spec fn model_list(list: Seq<(String, ModelUsage)>) -> Seq<(Seq<char>, ModelUsage)> {
    list.map_values(|m: (String, ModelUsage)| (m.0@, m.1))
}

/// The position of a model in the list, from `from` on; the length of the list where it is not
/// there.
pub open spec fn model_place(
    list: Seq<(Seq<char>, ModelUsage)>,
    model: Seq<char>,
    from: int,
) -> int
    decreases list.len() - from,
{
    if from >= list.len() {
        list.len() as int
    } else if list[from].0 == model {
        from
    } else {
        model_place(list, model, from + 1)
    }
}

/// The usage of a model with a request more.
pub open spec fn one_more(m: ModelUsage, u: RequestUsage, cost: int) -> ModelUsage {
    ModelUsage {
        input_tokens: (m.input_tokens + u.input_tokens) as i64,
        output_tokens: (m.output_tokens + u.output_tokens) as i64,
        cost: (m.cost + cost) as i128,
    }
}

/// The usage of a model without any request.
pub open spec fn no_usage() -> ModelUsage {
    ModelUsage { input_tokens: 0, output_tokens: 0, cost: 0 }
}

/// The list of models with a request more.
pub open spec fn models_after(
    list: Seq<(Seq<char>, ModelUsage)>,
    u: RequestUsage,
    cost: int,
) -> Seq<(Seq<char>, ModelUsage)> {
    let p = model_place(list, u.model@, 0);
    if p < list.len() {
        list.update(p, (list[p].0, one_more(list[p].1, u, cost)))
    } else {
        list.push((u.model@, one_more(no_usage(), u, cost)))
    }
}

/// The usage of a model before a request.
pub open spec fn usage_before(
    list: Seq<(Seq<char>, ModelUsage)>,
    model: Seq<char>,
) -> ModelUsage {
    let p = model_place(list, model, 0);
    if p < list.len() {
        list[p].1
    } else {
        no_usage()
    }
}

/// There is room to add a request up.
pub open spec fn room_for(s: UsageStats, u: RequestUsage) -> bool {
    let m = usage_before(model_list(s.by_model@), u.model@);
    &&& i64::MIN <= s.total_input_tokens + u.input_tokens <= i64::MAX
    &&& i64::MIN <= s.total_cached_input_tokens + u.cached_input_tokens <= i64::MAX
    &&& i64::MIN <= s.total_output_tokens + u.output_tokens <= i64::MAX
    &&& i64::MIN <= s.total_tokens + u.total_tokens <= i64::MAX
    &&& s.total_requests < u64::MAX
    &&& i128::MIN <= s.total_cost + cost_of(u) <= i128::MAX
    &&& i64::MIN <= m.input_tokens + u.input_tokens <= i64::MAX
    &&& i64::MIN <= m.output_tokens + u.output_tokens <= i64::MAX
    &&& i128::MIN <= m.cost + cost_of(u) <= i128::MAX
}

/// The request was added up.
pub open spec fn recorded(before: UsageStats, u: RequestUsage, after: UsageStats) -> bool {
    let cost = cost_of(u);
    &&& after.total_input_tokens == before.total_input_tokens + u.input_tokens
    &&& after.total_cached_input_tokens == before.total_cached_input_tokens + u.cached_input_tokens
    &&& after.total_output_tokens == before.total_output_tokens + u.output_tokens
    &&& after.total_tokens == before.total_tokens + u.total_tokens
    &&& after.total_cost == before.total_cost + cost
    &&& after.total_requests == before.total_requests + 1
    &&& model_list(after.by_model@) == models_after(model_list(before.by_model@), u, cost)
    &&& after.since == before.since
    &&& after.last_month_cost == before.last_month_cost
    &&& after.last_month_tokens == before.last_month_tokens
}

/// The statistics begin anew, and remember what the last ones came to.
pub open spec fn begun_anew(before: UsageStats, after: UsageStats, now: Timestamp) -> bool {
    &&& nothing_used(after, now)
    &&& after.last_month_cost == Some(before.total_cost)
    &&& after.last_month_tokens == Some(before.total_tokens)
}

impl UsageStats {
    /// Statistics that begin at `now`.
    pub fn begin(now: Timestamp) -> (s: UsageStats)
        ensures
            nothing_used(s, now),
            s.last_month_cost is None,
            s.last_month_tokens is None,
    {
        UsageStats {
            total_input_tokens: 0,
            total_cached_input_tokens: 0,
            total_output_tokens: 0,
            total_tokens: 0,
            total_cost: 0,
            total_requests: 0,
            by_model: Vec::new(),
            since: now,
            last_month_cost: None,
            last_month_tokens: None,
        }
    }

    fn begin_anew(&self, now: Timestamp) -> (s: UsageStats)
        ensures
            begun_anew(*self, s, now),
    {
        let mut s: UsageStats = UsageStats::begin(now);
        s.last_month_cost = Some(self.total_cost);
        s.last_month_tokens = Some(self.total_tokens);
        s
    }

    fn find_model(&self, model: &str) -> (at: usize)
        ensures
            at == model_place(model_list(self.by_model@), model@, 0),
            at <= self.by_model@.len(),
    {
        let ghost list = model_list(self.by_model@);
        let mut i: usize = 0;
        while i < self.by_model.len()
            invariant
                i <= self.by_model@.len(),
                list == model_list(self.by_model@),
                model_place(list, model@, 0) == model_place(list, model@, i as int),
            decreases self.by_model@.len() - i,
        {
            assert(list[i as int].0 == self.by_model@[i as int].0@);
            if eq_str(self.by_model[i].0.as_str(), model) {
                return i;
            }
            i += 1;
        }
        i
    }

    /// Whether there is room to add a request up.
    pub fn has_room_for(&self, u: &RequestUsage) -> (b: bool)
        ensures
            b == room_for(*self, *u),
    {
        let at: usize = self.find_model(u.model.as_str());
        let ghost list = model_list(self.by_model@);
        let m: ModelUsage = if at < self.by_model.len() {
            assert(list[at as int].1 == self.by_model@[at as int].1);
            self.by_model[at].1
        } else {
            ModelUsage { input_tokens: 0, output_tokens: 0, cost: 0 }
        };
        let cost: i128 = cost_at(u, get_pricing(u.model.as_str()));
        self.total_input_tokens.checked_add(u.input_tokens).is_some()
            && self.total_cached_input_tokens.checked_add(u.cached_input_tokens).is_some()
            && self.total_output_tokens.checked_add(u.output_tokens).is_some()
            && self.total_tokens.checked_add(u.total_tokens).is_some() && self.total_requests
            < u64::MAX && self.total_cost.checked_add(cost).is_some()
            && m.input_tokens.checked_add(u.input_tokens).is_some() && m.output_tokens.checked_add(
            u.output_tokens,
        ).is_some() && m.cost.checked_add(cost).is_some()
    }
}

/// Adds usage up.
#[derive(Debug)]
pub struct TokenTracker {
    pub stats: UsageStats,
}

impl TokenTracker {
    /// Goes on with the statistics that were kept, where they are of the month of `now`; else
    /// begins anew.
    pub fn new(kept: Option<UsageStats>, now: Timestamp) -> (tracker: TokenTracker)
        requires
            now.in_calendar(),
            kept matches Some(s) ==> s.since.in_calendar(),
        ensures
            match kept {
                Some(s) => if crate::clock::month_of(s.since.secs) == crate::clock::month_of(
                    now.secs,
                ) {
                    tracker.stats == s
                } else {
                    begun_anew(s, tracker.stats, now)
                },
                None => nothing_used(tracker.stats, now) && tracker.stats.last_month_cost is None
                    && tracker.stats.last_month_tokens is None,
            },
    {
        match kept {
            Some(s) => {
                let same: bool = match (year_and_month(s.since.secs), year_and_month(now.secs)) {
                    (Some(a), Some(b)) => a.0 == b.0 && a.1 == b.1,
                    _ => false,
                };
                Self::continue_with(s, same, now)
            },
            None => TokenTracker { stats: UsageStats::begin(now) },
        }
    }

    /// Goes on with the statistics that were kept, where they are of the same month; else begins
    /// anew at `now`.
    pub fn continue_with(kept: UsageStats, same_month: bool, now: Timestamp) -> (tracker: TokenTracker)
        ensures
            if same_month {
                tracker.stats == kept
            } else {
                begun_anew(kept, tracker.stats, now)
            },
    {
        if same_month {
            TokenTracker { stats: kept }
        } else {
            TokenTracker { stats: kept.begin_anew(now) }
        }
    }

    /// Adds a request up at `now`, and says what goes into the history.
    pub fn record(&mut self, usage: RequestUsage, now: Timestamp) -> (entry: TokenHistoryEntry)
        requires
            room_for(old(self).stats, usage),
        ensures
            recorded(old(self).stats, usage, final(self).stats),
            entry.timestamp == now,
            entry.model == usage.model,
            entry.input_tokens == usage.input_tokens,
            entry.output_tokens == usage.output_tokens,
            entry.cost == cost_of(usage),
    {
        let pricing: ModelPricing = get_pricing(usage.model.as_str());
        let cost: i128 = cost_at(&usage, pricing);
        let at: usize = self.stats.find_model(usage.model.as_str());
        let ghost list = model_list(self.stats.by_model@);
        let ghost old_list = self.stats.by_model@;
        self.stats.total_input_tokens = self.stats.total_input_tokens + usage.input_tokens;
        self.stats.total_cached_input_tokens =
        self.stats.total_cached_input_tokens + usage.cached_input_tokens;
        self.stats.total_output_tokens = self.stats.total_output_tokens + usage.output_tokens;
        self.stats.total_tokens = self.stats.total_tokens + usage.total_tokens;
        self.stats.total_cost = self.stats.total_cost + cost;
        self.stats.total_requests = self.stats.total_requests + 1;
        if at < self.stats.by_model.len() {
            let m: ModelUsage = self.stats.by_model[at].1;
            assert(list[at as int].1 == m);
            self.stats.by_model[at].1 =
            ModelUsage {
                input_tokens: m.input_tokens + usage.input_tokens,
                output_tokens: m.output_tokens + usage.output_tokens,
                cost: m.cost + cost,
            };
        } else {
            self.stats.by_model.push(
                (
                    usage.model.clone(),
                    ModelUsage {
                        input_tokens: usage.input_tokens,
                        output_tokens: usage.output_tokens,
                        cost,
                    },
                ),
            );
        }
        assert(model_list(self.stats.by_model@) =~= models_after(list, usage, cost as int));
        TokenHistoryEntry {
            timestamp: now,
            model: usage.model,
            input_tokens: usage.input_tokens,
            output_tokens: usage.output_tokens,
            cost,
        }
    }

    /// Adds a request up at `now` where there is room for it; else changes nothing.
    pub fn record_if_room(&mut self, usage: RequestUsage, now: Timestamp) -> (entry: Option<
        TokenHistoryEntry,
    >)
        ensures
            match entry {
                Some(e) => room_for(old(self).stats, usage) && recorded(
                    old(self).stats,
                    usage,
                    final(self).stats,
                ) && e.timestamp == now && e.model == usage.model && e.input_tokens
                    == usage.input_tokens && e.output_tokens == usage.output_tokens && e.cost
                    == cost_of(usage),
                None => !room_for(old(self).stats, usage) && final(self).stats == old(self).stats,
            },
    {
        if self.stats.has_room_for(&usage) {
            Some(self.record(usage, now))
        } else {
            None
        }
    }

    /// The statistics.
    pub fn get_stats(&self) -> (stats: &UsageStats)
        ensures
            *stats == self.stats,
    {
        &self.stats
    }

    /// Begins anew at `now`.
    pub fn reset(&mut self, now: Timestamp)
        ensures
            begun_anew(old(self).stats, final(self).stats, now),
    {
        self.stats = self.stats.begin_anew(now);
    }

    /// The entries of the history of the last so many days, in their order.
    pub fn get_history(entries: Vec<TokenHistoryEntry>, days: u32, now: Timestamp) -> (recent: Vec<
        TokenHistoryEntry,
    >)
        requires
            now.in_calendar(),
        ensures
            recent@ == recent_of(entries@, days, now),
    {
        let mut recent: Vec<TokenHistoryEntry> = Vec::new();
        let cutoff: Timestamp = Timestamp {
            secs: now.secs - days as i64 * 86400,
            nanos: now.nanos,
        };
        let ghost all = entries@;
        assert(recent@ =~= recent_of(all.take(0), days, now));
        for e in iter: entries
            invariant
                iter.seq() == all,
                cutoff == (Timestamp { secs: (now.secs - days * 86400) as i64, nanos: now.nanos }),
                recent@ == recent_of(all.take(iter.index()), days, now),
        {
            let ghost i = iter.index();
            assert(all.take(i + 1).drop_last() =~= all.take(i));
            assert(all.take(i + 1).last() == e);
            if cutoff.is_before(&e.timestamp) {
                recent.push(e);
            }
        }
        assert(all.take(all.len() as int) =~= all);
        recent
    }
}

/// The entries that are later than so many days before `now`, in their order.
pub open spec fn recent_of(
    entries: Seq<TokenHistoryEntry>,
    days: u32,
    now: Timestamp,
) -> Seq<TokenHistoryEntry>
    decreases entries.len(),
{
    if entries.len() == 0 {
        Seq::empty()
    } else {
        let rest = recent_of(entries.drop_last(), days, now);
        let cutoff = Timestamp { secs: (now.secs - days * 86400) as i64, nanos: now.nanos };
        if cutoff.earlier(entries.last().timestamp) {
            rest.push(entries.last())
        } else {
            rest
        }
    }
}

// ---------------------------------------------------------------------------
// The sums agree
// ---------------------------------------------------------------------------

/// What one of the figures of the models comes to.
pub open spec fn sum_over(
    list: Seq<(Seq<char>, ModelUsage)>,
    figure: spec_fn(ModelUsage) -> int,
) -> int
    decreases list.len(),
{
    if list.len() == 0 {
        0
    } else {
        sum_over(list.drop_last(), figure) + figure(list.last().1)
    }
}

/// The figures of the models add up to the totals.
pub open spec fn balanced(s: UsageStats) -> bool {
    let list = model_list(s.by_model@);
    &&& sum_over(list, |m: ModelUsage| m.input_tokens as int) == s.total_input_tokens
    &&& sum_over(list, |m: ModelUsage| m.output_tokens as int) == s.total_output_tokens
    &&& sum_over(list, |m: ModelUsage| m.cost as int) == s.total_cost
}

/// Each model stands in the list once.
pub open spec fn models_distinct(s: UsageStats) -> bool {
    let list = model_list(s.by_model@);
    forall|i: int, j: int|
        0 <= i < j < list.len() ==> (#[trigger] list[i]).0 != (#[trigger] list[j]).0
}

proof fn lemma_sum_update(
    list: Seq<(Seq<char>, ModelUsage)>,
    p: int,
    x: (Seq<char>, ModelUsage),
    figure: spec_fn(ModelUsage) -> int,
)
    requires
        0 <= p < list.len(),
    ensures
        sum_over(list.update(p, x), figure) == sum_over(list, figure) - figure(list[p].1) + figure(
            x.1,
        ),
    decreases list.len(),
{
    let new = list.update(p, x);
    if p == list.len() - 1 {
        assert(new.drop_last() =~= list.drop_last());
    } else {
        assert(new.drop_last() =~= list.drop_last().update(p, x));
        lemma_sum_update(list.drop_last(), p, x, figure);
    }
}

proof fn lemma_model_place(list: Seq<(Seq<char>, ModelUsage)>, model: Seq<char>, from: int)
    requires
        0 <= from <= list.len(),
    ensures
        from <= model_place(list, model, from) <= list.len(),
        model_place(list, model, from) < list.len() ==> list[model_place(list, model, from)].0
            == model,
        forall|i: int|
            from <= i < model_place(list, model, from) ==> (#[trigger] list[i]).0 != model,
    decreases list.len() - from,
{
    if from < list.len() && list[from].0 != model {
        lemma_model_place(list, model, from + 1);
    }
}

proof fn lemma_sum_after(
    list: Seq<(Seq<char>, ModelUsage)>,
    u: RequestUsage,
    cost: int,
    figure: spec_fn(ModelUsage) -> int,
)
    ensures
        sum_over(models_after(list, u, cost), figure) == sum_over(list, figure) - (if model_place(
            list,
            u.model@,
            0,
        ) < list.len() {
            figure(usage_before(list, u.model@))
        } else {
            0
        }) + figure(one_more(usage_before(list, u.model@), u, cost)),
{
    let p = model_place(list, u.model@, 0);
    lemma_model_place(list, u.model@, 0);
    if p < list.len() {
        lemma_sum_update(list, p, (list[p].0, one_more(list[p].1, u, cost)), figure);
    } else {
        let x = (u.model@, one_more(no_usage(), u, cost));
        assert(list.push(x).drop_last() =~= list);
    }
}

/// As long as the figures of the models add up to the totals, they still do after a request was
/// added up.
pub proof fn recording_keeps_the_balance(before: UsageStats, u: RequestUsage, after: UsageStats)
    requires
        balanced(before),
        room_for(before, u),
        recorded(before, u, after),
    ensures
        balanced(after),
{
    let list = model_list(before.by_model@);
    let cost = cost_of(u);
    lemma_sum_after(list, u, cost, |m: ModelUsage| m.input_tokens as int);
    lemma_sum_after(list, u, cost, |m: ModelUsage| m.output_tokens as int);
    lemma_sum_after(list, u, cost, |m: ModelUsage| m.cost as int);
}

/// Each model stands in the list once, also after a request was added up.
pub proof fn recording_keeps_models_distinct(
    before: UsageStats,
    u: RequestUsage,
    after: UsageStats,
)
    requires
        models_distinct(before),
        recorded(before, u, after),
    ensures
        models_distinct(after),
{
    let list = model_list(before.by_model@);
    let new = model_list(after.by_model@);
    lemma_model_place(list, u.model@, 0);
    assert forall|i: int, j: int| 0 <= i < j < new.len() implies (#[trigger] new[i]).0 != (
    #[trigger] new[j]).0 by {
        if j < list.len() {
            assert(list[i].0 != list[j].0);
        } else {
            assert(list[i].0 != u.model@);
        }
    }
}

/// Statistics that begin anew are balanced, and each model stands in them once.
pub proof fn beginnings_are_balanced(s: UsageStats, now: Timestamp)
    requires
        nothing_used(s, now),
    ensures
        balanced(s),
        models_distinct(s),
{
}

// ---------------------------------------------------------------------------
// Reading a stream of events
// ---------------------------------------------------------------------------

/// What the usage of a request says.
#[verifier::ext_equal]
pub struct UsageView {
    pub input_tokens: i64,
    pub cached_input_tokens: i64,
    pub output_tokens: i64,
    pub total_tokens: i64,
    pub model: Seq<char>,
}

/// A count of a document, zero where it is missing.
pub open spec fn count_in(doc: Option<JsonView>, name: Seq<char>) -> i64 {
    match crate::json::whole_of(crate::json::field_of(doc, name)) {
        Some(n) => n,
        None => 0,
    }
}

/// The sum of two counts within 64 bits.
pub open spec fn wrapped_sum(a: i64, b: i64) -> i64 {
    if a + b > i64::MAX {
        (a + b - 0x1_0000_0000_0000_0000) as i64
    } else if a + b < i64::MIN {
        (a + b + 0x1_0000_0000_0000_0000) as i64
    } else {
        (a + b) as i64
    }
}

/// A document may tell of a complete response: it gives that type, or none.
pub open spec fn may_complete(doc: JsonView) -> bool {
    match crate::json::text_of(crate::json::field(doc, "type"@)) {
        Some(kind) => kind == "response.completed"@,
        None => true,
    }
}

/// The usage that a document reports, of the model that it names, else of `model`. One that tells
/// of something else, or counts for nothing, reports none.
pub open spec fn usage_in(doc: JsonView, model: Seq<char>) -> Option<UsageView> {
    let response = crate::json::field(doc, "response"@);
    let usage = crate::json::field_of(response, "usage"@);
    if !may_complete(doc) || usage is None {
        None
    } else {
        let input = count_in(usage, "input_tokens"@);
        let cached = count_in(crate::json::field_of(usage, "input_tokens_details"@), "cached_tokens"@);
        let output = count_in(usage, "output_tokens"@);
        let total = match crate::json::whole_of(crate::json::field_of(usage, "total_tokens"@)) {
            Some(n) => n,
            None => wrapped_sum(input, output),
        };
        if total > 0 {
            Some(
                UsageView {
                    input_tokens: input,
                    cached_input_tokens: cached,
                    output_tokens: output,
                    total_tokens: total,
                    model: match crate::json::text_of(crate::json::field_of(response, "model"@)) {
                        Some(m) => m,
                        None => model,
                    },
                },
            )
        } else {
            None
        }
    }
}

/// The data of a line of the stream that may tell that a response is complete.
pub open spec fn event_data(line: Seq<char>) -> Option<Seq<char>> {
    let t = crate::text::trimmed(line);
    let data = crate::text::trimmed(crate::text::stripped(t, "data:"@));
    if crate::text::begins(t, "data:"@) && crate::text::occurs(data, "response.completed"@) {
        Some(data)
    } else {
        None
    }
}

/// The usage that the lines from `from` on report: that of the first event that reports any.
pub open spec fn usage_from(list: Seq<Seq<char>>, model: Seq<char>, from: int) -> Option<UsageView>
    decreases list.len() - from,
{
    if from < 0 || from >= list.len() {
        None
    } else {
        match event_data(list[from]) {
            None => usage_from(list, model, from + 1),
            Some(data) => match crate::json::json_read(data) {
                Err(_) => usage_from(list, model, from + 1),
                Ok(doc) => match usage_in(doc, model) {
                    Some(u) => Some(u),
                    None => usage_from(list, model, from + 1),
                },
            },
        }
    }
}

/// What the usage of a request says.
pub open spec fn usage_view(u: Option<RequestUsage>) -> Option<UsageView> {
    match u {
        Some(r) => Some(
            UsageView {
                input_tokens: r.input_tokens,
                cached_input_tokens: r.cached_input_tokens,
                output_tokens: r.output_tokens,
                total_tokens: r.total_tokens,
                model: r.model@,
            },
        ),
        None => None,
    }
}

fn count_of(doc: Option<&Json>, name: &str) -> (n: i64)
    ensures
        n == count_in(crate::json::seen(doc), name@),
{
    match i64_of(get_of(doc, name)) {
        Some(n) => n,
        None => 0,
    }
}

fn tells_of_completion(doc: &Json) -> (b: bool)
    ensures
        b == may_complete(doc@),
{
    match string_of(doc.get("type")) {
        Some(kind) => eq_str(kind.as_str(), "response.completed"),
        None => true,
    }
}

/// The usage that a document reports, of the model that it names, else of `model`.
pub fn usage_of_event(doc: &Json, model: &str) -> (usage: Option<RequestUsage>)
    ensures
        usage_view(usage) == usage_in(doc@, model@),
{
    let response: Option<&Json> = doc.get("response");
    let usage: Option<&Json> = get_of(response, "usage");
    if !tells_of_completion(doc) || usage.is_none() {
        return None;
    }
    let model: String = match string_of(get_of(response, "model")) {
        Some(m) => m,
        None => model.to_owned(),
    };
    let input_tokens: i64 = count_of(usage, "input_tokens");
    let cached_input_tokens: i64 = count_of(
        get_of(usage, "input_tokens_details"),
        "cached_tokens",
    );
    let output_tokens: i64 = count_of(usage, "output_tokens");
    let total_tokens: i64 = match i64_of(get_of(usage, "total_tokens")) {
        Some(n) => n,
        None => input_tokens.wrapping_add(output_tokens),
    };
    if total_tokens > 0 {
        Some(
            RequestUsage {
                input_tokens,
                cached_input_tokens,
                output_tokens,
                total_tokens,
                model,
            },
        )
    } else {
        None
    }
}

fn data_of_event(line: &str) -> (data: Option<String>)
    ensures
        crate::json::opt_text(data) == event_data(line@),
{
    let t: String = trim(line);
    if !starts_with(t.as_str(), "data:") {
        return None;
    }
    let rest: String = trim_start_matches(t.as_str(), "data:");
    let data: String = trim(rest.as_str());
    if contains(data.as_str(), "response.completed") {
        Some(data)
    } else {
        None
    }
}

/// The usage that the text of a stream of events reports, of the model that it names, else of
/// `request_model`.
pub fn extract_usage_from_text(text: &str, request_model: &str) -> (usage: Option<RequestUsage>)
    ensures
        usage_view(usage) == usage_from(crate::text::line_list(text@), request_model@, 0),
{
    let list: Vec<String> = lines(text);
    let ghost all = crate::text::line_list(text@);
    let mut i: usize = 0;
    while i < list.len()
        invariant
            i <= list@.len(),
            crate::text::texts(list@) == all,
            usage_from(all, request_model@, 0) == usage_from(all, request_model@, i as int),
            all == crate::text::line_list(text@),
        decreases list@.len() - i,
    {
        assert(all[i as int] == list@[i as int]@);
        if let Some(data) = data_of_event(list[i].as_str()) {
            if let Ok(doc) = crate::json::parse(data.as_str()) {
                if let Some(u) = usage_of_event(&doc, request_model) {
                    return Some(u);
                }
            }
        }
        i += 1;
    }
    None
}

/// The usage that a stream of events reports, of the model that it names, else of
/// `request_model`.
pub fn extract_usage_from_sse(data: &[u8], request_model: &str) -> (usage: Option<RequestUsage>)
    ensures
        usage_view(usage) == usage_from(
            crate::text::line_list(crate::text::lossy_text(data@)),
            request_model@,
            0,
        ),
{
    let text: String = from_utf8_lossy(data);
    extract_usage_from_text(text.as_str(), request_model)
}

impl TokenTracker {
    /// Adds up at `now` what a stream reports once it has ended, where it reports anything and
    /// there is room for it.
    pub fn record_stream(&mut self, data: &[u8], now: Timestamp) -> (entry: Option<
        TokenHistoryEntry,
    >)
        ensures
            ({
                let said = usage_from(
                    crate::text::line_list(crate::text::lossy_text(data@)),
                    Seq::empty(),
                    0,
                );
                if data@.len() == 0 || said is None {
                    entry is None && final(self).stats == old(self).stats
                } else {
                    exists|u: RequestUsage|
                        #![trigger room_for(old(self).stats, u)]
                        usage_view(Some(u)) == said && if room_for(old(self).stats, u) {
                            recorded(old(self).stats, u, final(self).stats) && entry is Some
                                && entry->0.timestamp == now && entry->0.model == u.model
                                && entry->0.input_tokens == u.input_tokens
                                && entry->0.output_tokens == u.output_tokens && entry->0.cost
                                == cost_of(u)
                        } else {
                            entry is None && final(self).stats == old(self).stats
                        }
                }
            }),
    {
        if data.len() == 0 {
            return None;
        }
        proof {
            reveal_strlit("");
        }
        assert(""@ =~= Seq::<char>::empty());
        match extract_usage_from_sse(data, "") {
            Some(u) => {
                assert(room_for(self.stats, u) || !room_for(self.stats, u));
                self.record_if_room(u, now)
            },
            None => None,
        }
    }
}

/// A usage that is found counts for something.
pub proof fn found_usage_counts(list: Seq<Seq<char>>, model: Seq<char>, from: int)
    ensures
        usage_from(list, model, from) matches Some(u) ==> u.total_tokens > 0,
    decreases list.len() - from,
{
    if 0 <= from < list.len() {
        found_usage_counts(list, model, from + 1);
    }
}

// ---------------------------------------------------------------------------
// What is counted, and what it costs
// ---------------------------------------------------------------------------

/// Which prices a model has, by the first of three names that it has in its own: those of `o3`, of
/// `o4-mini`, of `codex-mini`, and the usual ones for all others. In thousandths of a dollar for a
/// million tokens, of input, of cached input and of output.
pub proof fn prices_go_by_the_model(lower: Seq<char>)
    ensures
        ({
            let p = pricing_of(lower);
            &&& crate::text::occurs(lower, "o3"@) ==> (p.input, p.cached_input, p.output) == (
                2000i64,
                1000i64,
                8000i64,
            )
            &&& !crate::text::occurs(lower, "o3"@) && crate::text::occurs(lower, "o4-mini"@) ==> (
            p.input, p.cached_input, p.output) == (1100i64, 275i64, 4400i64)
            &&& !crate::text::occurs(lower, "o3"@) && !crate::text::occurs(lower, "o4-mini"@)
                && crate::text::occurs(lower, "codex-mini"@) ==> (
            p.input, p.cached_input, p.output) == (1500i64, 375i64, 6000i64)
            &&& !crate::text::occurs(lower, "o3"@) && !crate::text::occurs(lower, "o4-mini"@)
                && !crate::text::occurs(lower, "codex-mini"@) ==> (
            p.input, p.cached_input, p.output) == (2000i64, 500i64, 8000i64)
        }),
{
}

/// A request without tokens costs nothing; each token more of input, of output, and each token of
/// input that was cached costs its own price; the total that a request names costs nothing.
pub proof fn each_token_has_its_price(u: RequestUsage, v: RequestUsage, p: ModelPricing)
    ensures
        u.input_tokens == 0 && u.cached_input_tokens == 0 && u.output_tokens == 0 ==> cost_with(
            u,
            p,
        ) == 0,
        v.input_tokens == u.input_tokens + 1 && v.cached_input_tokens == u.cached_input_tokens
            && v.output_tokens == u.output_tokens ==> cost_with(v, p) == cost_with(u, p) + p.input,
        v.input_tokens == u.input_tokens + 1 && v.cached_input_tokens == u.cached_input_tokens + 1
            && v.output_tokens == u.output_tokens ==> cost_with(v, p) == cost_with(u, p)
            + p.cached_input,
        v.input_tokens == u.input_tokens && v.cached_input_tokens == u.cached_input_tokens
            && v.output_tokens == u.output_tokens + 1 ==> cost_with(v, p) == cost_with(u, p)
            + p.output,
        v.input_tokens == u.input_tokens && v.cached_input_tokens == u.cached_input_tokens
            && v.output_tokens == u.output_tokens ==> cost_with(v, p) == cost_with(u, p),
{
    let a = u.input_tokens - u.cached_input_tokens;
    let b = u.cached_input_tokens as int;
    let c = u.output_tokens as int;
    let x = p.input as int;
    let y = p.cached_input as int;
    let z = p.output as int;
    assert((a + 1) * x == a * x + x) by (nonlinear_arith);
    assert((b + 1) * y == b * y + y) by (nonlinear_arith);
    assert((c + 1) * z == c * z + z) by (nonlinear_arith);
    if a == 0 && b == 0 && c == 0 {
        assert(a * x == 0) by (nonlinear_arith)
            requires
                a == 0,
        ;
        assert(b * y == 0) by (nonlinear_arith)
            requires
                b == 0,
        ;
        assert(c * z == 0) by (nonlinear_arith)
            requires
                c == 0,
        ;
    }
    if v.input_tokens == u.input_tokens + 1 && v.cached_input_tokens == u.cached_input_tokens {
        assert(v.input_tokens - v.cached_input_tokens == a + 1);
    }
}

/// A request costs what its tokens cost with the prices of its model.
pub proof fn requests_cost_what_their_model_costs(u: RequestUsage)
    ensures
        cost_of(u) == cost_with(u, pricing_of(crate::text::lowered(u.model@))),
{
}

/// A request that is added up adds its own figures to the totals, one to the requests and its cost
/// to the cost, and leaves the beginning and what is remembered of the last month.
pub proof fn a_request_adds_its_own_figures(
    before: UsageStats,
    u: RequestUsage,
    after: UsageStats,
)
    requires
        recorded(before, u, after),
    ensures
        after.total_input_tokens - before.total_input_tokens == u.input_tokens,
        after.total_cached_input_tokens - before.total_cached_input_tokens
            == u.cached_input_tokens,
        after.total_output_tokens - before.total_output_tokens == u.output_tokens,
        after.total_tokens - before.total_tokens == u.total_tokens,
        after.total_cost - before.total_cost == cost_with(
            u,
            pricing_of(crate::text::lowered(u.model@)),
        ),
        after.total_requests - before.total_requests == 1,
        after.since == before.since,
        after.last_month_cost == before.last_month_cost,
        after.last_month_tokens == before.last_month_tokens,
{
}

/// Of the models only that of the request changes, by the figures of the request; one that was not
/// there before begins with them.
pub proof fn a_request_counts_for_its_model(
    before: UsageStats,
    u: RequestUsage,
    after: UsageStats,
    i: int,
)
    requires
        recorded(before, u, after),
        room_for(before, u),
        models_distinct(before),
        0 <= i < before.by_model@.len(),
    ensures
        i < after.by_model@.len(),
        after.by_model@[i].0@ == before.by_model@[i].0@,
        before.by_model@[i].0@ != u.model@ ==> after.by_model@[i].1 == before.by_model@[i].1,
        before.by_model@[i].0@ == u.model@ ==> {
            &&& after.by_model@[i].1.input_tokens - before.by_model@[i].1.input_tokens
                == u.input_tokens
            &&& after.by_model@[i].1.output_tokens - before.by_model@[i].1.output_tokens
                == u.output_tokens
            &&& after.by_model@[i].1.cost - before.by_model@[i].1.cost == cost_of(u)
            &&& after.by_model@.len() == before.by_model@.len()
        },
{
    let list = model_list(before.by_model@);
    let new = model_list(after.by_model@);
    lemma_model_place(list, u.model@, 0);
    let p = model_place(list, u.model@, 0);
    assert(list[i] == (before.by_model@[i].0@, before.by_model@[i].1));
    assert(new.len() == after.by_model@.len());
    assert(new[i] == (after.by_model@[i].0@, after.by_model@[i].1));
    if p < i {
        assert(list[p].0 != list[i].0);
    }
}

/// A model that comes up for the first time stands at the end of the list with the figures of its
/// request.
pub proof fn a_new_model_begins_with_its_request(
    before: UsageStats,
    u: RequestUsage,
    after: UsageStats,
)
    requires
        recorded(before, u, after),
        room_for(before, u),
        forall|i: int|
            0 <= i < before.by_model@.len() ==> (#[trigger] before.by_model@[i]).0@ != u.model@,
    ensures
        after.by_model@.len() == before.by_model@.len() + 1,
        after.by_model@.last().0@ == u.model@,
        after.by_model@.last().1.input_tokens == u.input_tokens,
        after.by_model@.last().1.output_tokens == u.output_tokens,
        after.by_model@.last().1.cost == cost_of(u),
{
    let list = model_list(before.by_model@);
    let new = model_list(after.by_model@);
    lemma_model_place(list, u.model@, 0);
    let p = model_place(list, u.model@, 0);
    if p < list.len() {
        assert(list[p].0 == before.by_model@[p].0@);
    }
    assert(new.len() == after.by_model@.len());
    assert(new.last() == (after.by_model@.last().0@, after.by_model@.last().1));
}

/// Statistics that begin anew are empty, begin at that time, and remember the cost and the tokens of
/// those before.
pub proof fn beginnings_remember_the_last_month(
    before: UsageStats,
    after: UsageStats,
    now: Timestamp,
)
    requires
        begun_anew(before, after, now),
    ensures
        after.total_input_tokens == 0,
        after.total_cached_input_tokens == 0,
        after.total_output_tokens == 0,
        after.total_tokens == 0,
        after.total_cost == 0,
        after.total_requests == 0,
        after.by_model@.len() == 0,
        after.since == now,
        after.last_month_cost == Some(before.total_cost),
        after.last_month_tokens == Some(before.total_tokens),
{
}

/// The history of the last days holds the entries that are not older than so many times twenty-four
/// hours, and no others, in their order.
pub proof fn the_history_goes_back_so_many_days(
    entries: Seq<TokenHistoryEntry>,
    days: u32,
    now: Timestamp,
)
    requires
        now.in_calendar(),
    ensures
        recent_of(entries, days, now) == entries.filter(
            |e: TokenHistoryEntry|
                e.timestamp.secs > now.secs - 86400 * days || (e.timestamp.secs == now.secs - 86400
                    * days && e.timestamp.nanos > now.nanos),
        ),
    decreases entries.len(),
{
    reveal(Seq::filter);
    if entries.len() > 0 {
        the_history_goes_back_so_many_days(entries.drop_last(), days, now);
    }
}

// ---------------------------------------------------------------------------
// What a stream reports
// ---------------------------------------------------------------------------

/// A document reports usage by its response: the tokens that stand there under their names, for the
/// model that it names. A total that is not named is the sum of input and output.
pub proof fn usage_is_read_by_name(
    doc: JsonView,
    response: JsonView,
    usage: JsonView,
    model: Seq<char>,
    u: UsageView,
)
    requires
        crate::json::field(doc, "response"@) == Some(response),
        crate::json::field(response, "usage"@) == Some(usage),
        usage_in(doc, model) == Some(u),
    ensures
        crate::json::whole_of(crate::json::field(usage, "input_tokens"@)) matches Some(n)
            ==> u.input_tokens == n,
        crate::json::whole_of(crate::json::field(usage, "input_tokens"@)) is None ==> u.input_tokens
            == 0,
        crate::json::whole_of(crate::json::field(usage, "output_tokens"@)) matches Some(n)
            ==> u.output_tokens == n,
        crate::json::whole_of(crate::json::field(usage, "output_tokens"@)) is None
            ==> u.output_tokens == 0,
        crate::json::field(usage, "input_tokens_details"@) matches Some(d) ==> (
        crate::json::whole_of(crate::json::field(d, "cached_tokens"@)) matches Some(n)
            ==> u.cached_input_tokens == n),
        crate::json::field(usage, "input_tokens_details"@) is None ==> u.cached_input_tokens == 0,
        crate::json::whole_of(crate::json::field(usage, "total_tokens"@)) matches Some(n)
            ==> u.total_tokens == n,
        crate::json::whole_of(crate::json::field(usage, "total_tokens"@)) is None && i64::MIN
            <= u.input_tokens + u.output_tokens <= i64::MAX ==> u.total_tokens == u.input_tokens
            + u.output_tokens,
        crate::json::text_of(crate::json::field(response, "model"@)) matches Some(m) ==> u.model
            == m,
        crate::json::text_of(crate::json::field(response, "model"@)) is None ==> u.model == model,
        u.total_tokens > 0,
{
}

/// A document reports usage where it is that of a complete response, or of no named type, its
/// response has one, and its total is positive; else it reports none.
pub proof fn which_documents_report_usage(
    doc: JsonView,
    response: JsonView,
    usage: JsonView,
    model: Seq<char>,
    kind: Seq<char>,
)
    ensures
        crate::json::field(doc, "type"@) == Some(JsonView::Str(kind)) && kind
            != "response.completed"@ ==> usage_in(doc, model) is None,
        crate::json::field(doc, "response"@) is None ==> usage_in(doc, model) is None,
        crate::json::field(doc, "response"@) == Some(response) && crate::json::field(
            response,
            "usage"@,
        ) is None ==> usage_in(doc, model) is None,
        crate::json::field(doc, "type"@) == Some(JsonView::Str("response.completed"@))
            && crate::json::field(doc, "response"@) == Some(response) && crate::json::field(
            response,
            "usage"@,
        ) == Some(usage) && (crate::json::whole_of(
            crate::json::field(usage, "total_tokens"@),
        ) matches Some(n) && n > 0) ==> usage_in(doc, model) is Some,
{
}

/// An event stands on a line that begins with `data:`; what follows is its data, where it has the
/// name of the event in it.
pub proof fn events_stand_behind_data(line: Seq<char>, rest: Seq<char>)
    ensures
        !crate::text::begins(crate::text::trimmed(line), "data:"@) ==> event_data(line) is None,
        crate::text::trimmed(line) == "data:"@ + rest && !crate::text::begins(rest, "data:"@) ==> {
            &&& crate::text::occurs(crate::text::trimmed(rest), "response.completed"@)
                ==> event_data(line) == Some(crate::text::trimmed(rest))
            &&& !crate::text::occurs(crate::text::trimmed(rest), "response.completed"@)
                ==> event_data(line) is None
        },
{
    let t = "data:"@ + rest;
    reveal_strlit("data:");
    assert(t.subrange(0, 5) =~= "data:"@);
    assert(crate::text::begins(t, "data:"@));
    assert(t.skip(5) =~= rest);
    reveal_with_fuel(crate::text::stripped, 2);
}

/// The first line that reports usage counts, and those before it do not end the search.
pub proof fn the_first_report_counts(list: Seq<Seq<char>>, model: Seq<char>, from: int)
    requires
        0 <= from <= list.len(),
    ensures
        usage_from(list, model, from) matches Some(u) ==> exists|i: int|
            {
                &&& from <= i < list.len()
                &&& reported(#[trigger] list[i], model) == Some(u)
                &&& forall|k: int| from <= k < i ==> reported(#[trigger] list[k], model) is None
            },
        usage_from(list, model, from) is None ==> forall|i: int|
            from <= i < list.len() ==> reported(#[trigger] list[i], model) is None,
    decreases list.len() - from,
{
    if from < list.len() {
        the_first_report_counts(list, model, from + 1);
        if let Some(u) = usage_from(list, model, from) {
            if reported(list[from], model) is None {
                let i = choose|i: int|
                    {
                        &&& from + 1 <= i < list.len()
                        &&& reported(#[trigger] list[i], model) == Some(u)
                        &&& forall|k: int|
                            from + 1 <= k < i ==> reported(#[trigger] list[k], model) is None
                    };
                assert(reported(list[i], model) == Some(u));
            } else {
                assert(reported(list[from], model) == Some(u));
            }
        }
    }
}

/// The usage that one line reports.
pub open spec fn reported(line: Seq<char>, model: Seq<char>) -> Option<UsageView> {
    match event_data(line) {
        Some(data) => match crate::json::json_read(data) {
            Ok(doc) => usage_in(doc, model),
            Err(_) => None,
        },
        None => None,
    }
}


/// Where the figures are in balance, the totals are those of the models added up: without a model
/// they are nothing, and one model alone makes up all of them.
pub proof fn totals_are_those_of_the_models(s: UsageStats)
    requires
        balanced(s),
    ensures
        s.by_model@.len() == 0 ==> s.total_input_tokens == 0 && s.total_output_tokens == 0
            && s.total_cost == 0,
        s.by_model@.len() == 1 ==> s.total_input_tokens == s.by_model@[0].1.input_tokens
            && s.total_output_tokens == s.by_model@[0].1.output_tokens && s.total_cost
            == s.by_model@[0].1.cost,
{
    reveal_with_fuel(sum_over, 3);
}

} // verus!
