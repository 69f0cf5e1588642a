//! The shared request budget: at most `limit` requests in each renewal period.
use vstd::prelude::*;

verus! {

/// A budget as plain values: the requests allowed per period, the period,
/// when the current period opened, and how many requests it has let through.
pub struct BudgetView {
    pub limit: nat,
    pub period: nat,
    pub start: int,
    pub used: nat,
}

/// What one request does to the budget at time `now`, and whether it may go.
/// A request after the period has elapsed opens a new period; within a
/// period a request goes while fewer than `limit` have gone.
pub open spec fn step(b: BudgetView, now: int) -> (BudgetView, bool) {
    if b.used == 0 || now >= b.start + b.period {
        (BudgetView { start: now, used: 1, ..b }, true)
    } else if b.used < b.limit {
        (BudgetView { used: b.used + 1, ..b }, true)
    } else {
        (b, false)
    }
}

/// Whether each request of `times`, made in turn, may go.
pub open spec fn run(b: BudgetView, times: Seq<int>) -> Seq<bool>
    decreases times.len(),
{
    if times.len() == 0 {
        Seq::empty()
    } else {
        let (next, granted) = step(b, times[0]);
        seq![granted] + run(next, times.drop_first())
    }
}

/// At least one request per period, and no more used than allowed.
pub open spec fn budget_wf(b: BudgetView) -> bool {
    b.limit >= 1 && b.used <= b.limit
}

/// The request budget shared by every fetch.
#[derive(Debug)]
pub struct RateBudget {
    limit: u32,
    period: u64,
    window_start: u64,
    used: u32,
}

impl View for RateBudget {
    type V = BudgetView;

    closed spec fn view(&self) -> BudgetView {
        BudgetView {
            limit: self.limit as nat,
            period: self.period as nat,
            start: self.window_start as int,
            used: self.used as nat,
        }
    }
}

impl RateBudget {
    /// A budget of `limit` requests per `period` time units, of which none is used.
    pub fn new(limit: u32, period: u64) -> (r: RateBudget)
        requires
            limit >= 1,
        ensures
            budget_wf(r@),
            r@.limit == limit,
            r@.period == period,
            r@.used == 0,
    {
        RateBudget { limit, period, window_start: 0, used: 0 }
    }

    /// Takes one request from the budget at time `now`; `false` when the
    /// current period has no request left.
    pub fn try_acquire(&mut self, now: u64) -> (r: bool)
        requires
            budget_wf(old(self)@),
        ensures
            (final(self)@, r) == step(old(self)@, now as int),
            budget_wf(final(self)@),
    {
        if self.used == 0 || (now >= self.window_start && now - self.window_start >= self.period) {
            self.window_start = now;
            self.used = 1;
            true
        } else if self.used < self.limit {
            self.used = self.used + 1;
            true
        } else {
            false
        }
    }

    /// How long from `now` until a request may go: `0` when one may go now.
    pub fn wait_time(&self, now: u64) -> (r: u128)
        ensures
            step(self@, now as int).1 ==> r == 0,
            !step(self@, now as int).1 ==> r == self@.start + self@.period - now,
    {
        if self.used == 0 || (now >= self.window_start && now - self.window_start >= self.period) || self.used < self.limit {
            0
        } else {
            (self.window_start as u128 + self.period as u128) - now as u128
        }
    }
}

proof fn lemma_within_window(b: BudgetView, times: Seq<int>)
    requires
        1 <= b.used <= b.limit,
        forall|i: int| 0 <= i < times.len() ==> b.start <= #[trigger] times[i] < b.start + b.period,
    ensures
        run(b, times).len() == times.len(),
        forall|i: int| 0 <= i < times.len() ==> #[trigger] run(b, times)[i] == (i < b.limit - b.used),
    decreases times.len(),
{
    if times.len() > 0 {
        let (next, g) = step(b, times[0]);
        assert(b.start <= times[0] < b.start + b.period);
        assert forall|i: int| 0 <= i < times.drop_first().len() implies
            next.start <= #[trigger] times.drop_first()[i] < next.start + next.period by {
            assert(times.drop_first()[i] == times[i + 1]);
        }
        lemma_within_window(next, times.drop_first());
        let rest = run(next, times.drop_first());
        assert forall|i: int| 0 <= i < times.len() implies #[trigger] run(b, times)[i] == (i < b.limit - b.used) by {
            if i > 0 {
                assert(run(b, times)[i] == rest[i - 1]);
            }
        }
    }
}

/// With a budget of `limit` requests per period, of `limit + 1` requests made
/// within one period of the first, the first `limit` go and the last does not:
/// it cannot complete before the period has elapsed.
pub proof fn lemma_budget_holds_back_extra_request(b: BudgetView, times: Seq<int>)
    requires
        b.used == 0,
        b.limit >= 1,
        times.len() == b.limit + 1,
        forall|i: int| 0 <= i < times.len() ==> times[0] <= #[trigger] times[i] < times[0] + b.period,
    ensures
        forall|i: int| 0 <= i < times.len() ==> #[trigger] run(b, times)[i] == (i < b.limit),
        !run(b, times)[b.limit as int],
{
    let (next, g) = step(b, times[0]);
    assert(g && next.used == 1 && next.start == times[0]);
    assert forall|i: int| 0 <= i < times.drop_first().len() implies
        next.start <= #[trigger] times.drop_first()[i] < next.start + next.period by {
        assert(times.drop_first()[i] == times[i + 1]);
    }
    lemma_within_window(next, times.drop_first());
    let rest = run(next, times.drop_first());
    assert forall|i: int| 0 <= i < times.len() implies #[trigger] run(b, times)[i] == (i < b.limit) by {
        if i > 0 {
            assert(run(b, times)[i] == rest[i - 1]);
        }
    }
    assert(run(b, times)[b.limit as int] == (b.limit < b.limit));
}

} // verus!
