//! The rate aggregation engine: one slot per provider, settled exactly once
//! each, with a progress counter that only ever grows, index-aligned results,
//! and a reduction of the successful rates to summary statistics.
//!
//! The engine is a state machine: the surrounding application launches the
//! providers' requests concurrently and reports each outcome here as it
//! arrives. Results can be taken only once every provider has settled, and
//! they keep the provider order no matter the completion order.

use vstd::prelude::*;

use crate::decimal::Dec;
use crate::stats::{mean, mean_spec, variance, variance_spec, StatsError};

verus! {

/// Why a provider failed to deliver a rate. The engine treats every reason
/// alike; the distinction is for reporting.
#[derive(Clone, Copy, Debug)]
pub enum FailureReason {
    /// The transport failed.
    NetworkError,
    /// The source answered, but not successfully.
    ResponseError,
    /// The payload could not be read.
    ParseError,
    /// The payload carried no rate for the requested pair.
    MissingRate,
    /// The source does not serve one of the requested currencies.
    UnsupportedCurrency,
}

/// What one provider produced: a rate, or a tagged failure.
#[derive(Clone, Copy, Debug)]
pub enum RateOutcome {
    Success(Dec),
    Failure(FailureReason),
}

/// How many slots of the sequence are settled.
pub open spec fn count_settled(s: Seq<Option<RateOutcome>>) -> nat
    decreases s.len(),
{
    if s.len() == 0 {
        0
    } else {
        count_settled(s.drop_last()) + (if s.last() is Some {
            1nat
        } else {
            0nat
        })
    }
}

/// No more slots can be settled than there are.
pub proof fn lemma_count_settled_le_len(s: Seq<Option<RateOutcome>>)
    ensures
        count_settled(s) <= s.len(),
    decreases s.len(),
{
    if s.len() > 0 {
        lemma_count_settled_le_len(s.drop_last());
    }
}

/// The counter is full exactly when every slot is settled: the progress
/// display reaches its final state precisely at completion.
pub proof fn lemma_count_full_iff_all_settled(s: Seq<Option<RateOutcome>>)
    ensures
        count_settled(s) == s.len() <==> (forall|i: int| 0 <= i < s.len() ==> s[i] is Some),
    decreases s.len(),
{
    if s.len() > 0 {
        lemma_count_full_iff_all_settled(s.drop_last());
        lemma_count_settled_le_len(s.drop_last());
        if count_settled(s) == s.len() {
            assert forall|i: int| 0 <= i < s.len() implies s[i] is Some by {
                if i < s.len() - 1 {
                    assert(s.drop_last()[i] == s[i]);
                }
            }
        } else {
            if forall|i: int| 0 <= i < s.len() ==> s[i] is Some {
                assert(forall|i: int|
                    0 <= i < s.drop_last().len() ==> s.drop_last()[i] == s[i]);
            }
        }
    }
}

/// Settling a pending slot raises the counter by exactly one: the progress
/// display is monotone, one step per outcome, no lost or doubled updates.
pub proof fn lemma_settle_increments_count(s: Seq<Option<RateOutcome>>, i: int, o: RateOutcome)
    requires
        0 <= i < s.len(),
        s[i] is None,
    ensures
        count_settled(s.update(i, Some(o))) == count_settled(s) + 1,
    decreases s.len(),
{
    let t = s.update(i, Some(o));
    if i == s.len() - 1 {
        assert(t.drop_last() =~= s.drop_last());
    } else {
        assert(t.drop_last() =~= s.drop_last().update(i, Some(o)));
        lemma_settle_increments_count(s.drop_last(), i, o);
    }
}

/// Settling two distinct slots commutes: the state after all providers have
/// settled does not depend on the order in which they completed.
pub proof fn lemma_settle_order_irrelevant(
    s: Seq<Option<RateOutcome>>,
    i: int,
    oi: RateOutcome,
    j: int,
    oj: RateOutcome,
)
    requires
        0 <= i < s.len(),
        0 <= j < s.len(),
        i != j,
    ensures
        s.update(i, Some(oi)).update(j, Some(oj)) == s.update(j, Some(oj)).update(i, Some(oi)),
{
    assert(s.update(i, Some(oi)).update(j, Some(oj)) =~= s.update(j, Some(oj)).update(
        i,
        Some(oi),
    ));
}

/// The slots after a schedule of settle events has been applied in order:
/// each event writes its outcome into its provider's slot.
pub open spec fn apply_settles(
    s: Seq<Option<RateOutcome>>,
    events: Seq<(int, RateOutcome)>,
) -> Seq<Option<RateOutcome>>
    decreases events.len(),
{
    if events.len() == 0 {
        s
    } else {
        apply_settles(s.update(events.first().0, Some(events.first().1)), events.drop_first())
    }
}

/// A schedule of in-range events leaves the number of slots alone.
pub proof fn lemma_settles_keep_len(s: Seq<Option<RateOutcome>>, events: Seq<(int, RateOutcome)>)
    requires
        forall|k: int| 0 <= k < events.len() ==> 0 <= (#[trigger] events[k]).0 < s.len(),
    ensures
        apply_settles(s, events).len() == s.len(),
    decreases events.len(),
{
    if events.len() > 0 {
        let s1 = s.update(events.first().0, Some(events.first().1));
        assert(forall|k: int|
            0 <= k < events.drop_first().len() ==> 0 <= (#[trigger] events.drop_first()[k]).0
                < s1.len());
        lemma_settles_keep_len(s1, events.drop_first());
    }
}

/// A slot no event touches keeps its value.
proof fn lemma_settles_preserve(
    s: Seq<Option<RateOutcome>>,
    events: Seq<(int, RateOutcome)>,
    i: int,
)
    requires
        0 <= i < s.len(),
        forall|k: int| 0 <= k < events.len() ==> 0 <= (#[trigger] events[k]).0 < s.len(),
        forall|k: int| 0 <= k < events.len() ==> (#[trigger] events[k]).0 != i,
    ensures
        apply_settles(s, events)[i] == s[i],
    decreases events.len(),
{
    if events.len() > 0 {
        let s1 = s.update(events.first().0, Some(events.first().1));
        assert(forall|k: int|
            0 <= k < events.drop_first().len() ==> (#[trigger] events.drop_first()[k])
                == events[k + 1]);
        lemma_settles_preserve(s1, events.drop_first(), i);
    }
}

/// Completion order is irrelevant: under any schedule that settles each
/// provider at most once, every settled provider's slot ends up holding
/// exactly that provider's outcome, wherever in the schedule it completed.
pub proof fn lemma_settles_are_index_aligned(
    s: Seq<Option<RateOutcome>>,
    events: Seq<(int, RateOutcome)>,
    k: int,
)
    requires
        forall|k1: int| 0 <= k1 < events.len() ==> 0 <= (#[trigger] events[k1]).0 < s.len(),
        forall|k1: int, k2: int|
            0 <= k1 < k2 < events.len() ==> (#[trigger] events[k1]).0 != (#[trigger] events[k2]).0,
        0 <= k < events.len(),
    ensures
        apply_settles(s, events)[events[k].0] == Some(events[k].1),
    decreases events.len(),
{
    let s1 = s.update(events.first().0, Some(events.first().1));
    assert(forall|k1: int|
        0 <= k1 < events.drop_first().len() ==> (#[trigger] events.drop_first()[k1])
            == events[k1 + 1]);
    if k == 0 {
        lemma_settles_preserve(s1, events.drop_first(), events[0].0);
    } else {
        assert(events.drop_first()[k - 1] == events[k]);
        lemma_settles_are_index_aligned(s1, events.drop_first(), k - 1);
    }
}

/// A full schedule — every provider settled once — completes the run: no
/// slot is still pending, so the results can be taken, and not before.
pub proof fn lemma_full_schedule_completes(
    s: Seq<Option<RateOutcome>>,
    events: Seq<(int, RateOutcome)>,
)
    requires
        forall|k1: int| 0 <= k1 < events.len() ==> 0 <= (#[trigger] events[k1]).0 < s.len(),
        forall|k1: int, k2: int|
            0 <= k1 < k2 < events.len() ==> (#[trigger] events[k1]).0 != (#[trigger] events[k2]).0,
        forall|i: int|
            #![trigger s[i]]
            0 <= i < s.len() ==> exists|k: int| 0 <= k < events.len() && (#[trigger] events[k]).0
                == i,
    ensures
        apply_settles(s, events).len() == s.len(),
        forall|i: int| 0 <= i < s.len() ==> #[trigger] apply_settles(s, events)[i] is Some,
{
    lemma_settles_keep_len(s, events);
    assert forall|i: int| 0 <= i < s.len() implies #[trigger] apply_settles(s, events)[i]
        is Some by {
        assert(s[i] == s[i]);
        let k = choose|k: int| 0 <= k < events.len() && (#[trigger] events[k]).0 == i;
        lemma_settles_are_index_aligned(s, events, k);
    }
}

/// One aggregation run: a slot per provider, in provider order, each holding
/// that provider's outcome once it has settled.
pub struct Aggregation {
    slots: Vec<Option<RateOutcome>>,
}

impl View for Aggregation {
    type V = Seq<Option<RateOutcome>>;

    closed spec fn view(&self) -> Seq<Option<RateOutcome>> {
        self.slots@
    }
}

impl Aggregation {
    /// All slots settled: only then may results be taken.
    pub open spec fn complete(self) -> bool {
        forall|i: int| 0 <= i < self@.len() ==> self@[i] is Some
    }

    /// A fresh run with one pending slot per provider.
    pub fn new(total: usize) -> (r: Aggregation)
        ensures
            r@.len() == total,
            forall|i: int| 0 <= i < total ==> r@[i] is None,
    {
        let mut slots: Vec<Option<RateOutcome>> = Vec::new();
        let mut i: usize = 0;
        while i < total
            invariant
                i <= total,
                slots@.len() == i,
                forall|j: int| 0 <= j < i ==> slots@[j] is None,
            decreases total - i,
        {
            slots.push(None);
            i = i + 1;
        }
        Aggregation { slots }
    }

    /// How many providers there are.
    pub fn total_count(&self) -> (n: usize)
        ensures
            n == self@.len(),
    {
        self.slots.len()
    }

    /// How many providers have settled so far.
    pub fn ready_count(&self) -> (n: usize)
        ensures
            n == count_settled(self@),
    {
        let mut i: usize = 0;
        let mut cnt: usize = 0;
        while i < self.slots.len()
            invariant
                i <= self.slots@.len(),
                cnt == count_settled(self.slots@.take(i as int)),
                cnt <= i,
        decreases self.slots@.len() - i,
        {
            proof {
                assert(self.slots@.take(i + 1).drop_last() =~= self.slots@.take(i as int));
                assert(self.slots@.take(i + 1).last() == self.slots@[i as int]);
            }
            if self.slots[i].is_some() {
                cnt = cnt + 1;
            }
            i = i + 1;
        }
        proof {
            assert(self.slots@.take(self.slots@.len() as int) =~= self.slots@);
        }
        cnt
    }

    /// Record the outcome of provider `i`. Each slot settles exactly once;
    /// no other slot moves, so a failure never touches another provider's
    /// entry.
    pub fn settle(&mut self, i: usize, outcome: RateOutcome)
        requires
            i < old(self)@.len(),
            old(self)@[i as int] is None,
        ensures
            final(self)@ == old(self)@.update(i as int, Some(outcome)),
            count_settled(final(self)@) == count_settled(old(self)@) + 1,
    {
        self.slots.remove(i);
        self.slots.insert(i, Some(outcome));
        proof {
            assert(self.slots@ =~= old(self)@.update(i as int, Some(outcome)));
            lemma_settle_increments_count(old(self)@, i as int, outcome);
        }
    }

    /// Whether every provider has settled.
    pub fn is_complete(&self) -> (b: bool)
        ensures
            b == self.complete(),
    {
        let mut i: usize = 0;
        while i < self.slots.len()
            invariant
                i <= self.slots@.len(),
                forall|j: int| 0 <= j < i ==> self.slots@[j] is Some,
            decreases self.slots@.len() - i,
        {
            if self.slots[i].is_none() {
                return false;
            }
            i = i + 1;
        }
        true
    }

    /// The progress reporter's current line for this run.
    pub fn progress_line(&self) -> (r: String)
        ensures
            r@ == crate::progress::progress_spec(count_settled(self@), self@.len()),
    {
        let ready = self.ready_count();
        let total = self.total_count();
        crate::progress::progress_line(ready, total)
    }

    /// The settled outcomes, index-aligned with the providers. Callable only
    /// once every provider has settled: the engine never hands out partial
    /// results, and the order never depends on completion order.
    pub fn finish(self) -> (r: Vec<RateOutcome>)
        requires
            self.complete(),
        ensures
            r@.len() == self@.len(),
            forall|i: int| 0 <= i < self@.len() ==> self@[i] == Some(r@[i]),
    {
        let mut out: Vec<RateOutcome> = Vec::new();
        let mut i: usize = 0;
        while i < self.slots.len()
            invariant
                self.complete(),
                self.slots@ == self@,
                i <= self.slots@.len(),
                out@.len() == i,
                forall|j: int| 0 <= j < i ==> self@[j] == Some(out@[j]),
            decreases self.slots@.len() - i,
        {
            match self.slots[i] {
                Some(o) => out.push(o),
                None => vstd::pervasive::unreached(),
            }
            i = i + 1;
        }
        out
    }
}

/// The rates of the successful outcomes, in provider order.
pub open spec fn successes_spec(s: Seq<RateOutcome>) -> Seq<Dec>
    decreases s.len(),
{
    if s.len() == 0 {
        Seq::empty()
    } else {
        let rest = successes_spec(s.drop_last());
        match s.last() {
            RateOutcome::Success(d) => rest.push(d),
            RateOutcome::Failure(_) => rest,
        }
    }
}

/// A failed provider contributes nothing and takes nothing away: dropping
/// its entry leaves the successful rates untouched.
pub proof fn lemma_failure_contributes_nothing(s: Seq<RateOutcome>, i: int)
    requires
        0 <= i < s.len(),
        s[i] is Failure,
    ensures
        successes_spec(s) == successes_spec(s.remove(i)),
    decreases s.len(),
{
    if i == s.len() - 1 {
        assert(s.remove(i) =~= s.drop_last());
    } else {
        assert(s.remove(i).drop_last() =~= s.drop_last().remove(i));
        lemma_failure_contributes_nothing(s.drop_last(), i);
        assert(s.remove(i).last() == s.last());
    }
}

/// The successful rates, extracted in provider order.
pub fn successes(outcomes: &Vec<RateOutcome>) -> (r: Vec<Dec>)
    ensures
        r@ == successes_spec(outcomes@),
{
    let mut out: Vec<Dec> = Vec::new();
    let mut i: usize = 0;
    while i < outcomes.len()
        invariant
            i <= outcomes@.len(),
            out@ == successes_spec(outcomes@.take(i as int)),
        decreases outcomes@.len() - i,
    {
        proof {
            assert(outcomes@.take(i + 1).drop_last() =~= outcomes@.take(i as int));
            assert(outcomes@.take(i + 1).last() == outcomes@[i as int]);
        }
        match outcomes[i] {
            RateOutcome::Success(d) => out.push(d),
            RateOutcome::Failure(_) => {},
        }
        i = i + 1;
    }
    proof {
        assert(outcomes@.take(outcomes@.len() as int) =~= outcomes@);
    }
    out
}

/// The reduction of one aggregation run: the statistics over the successful
/// rates, and how many of how many providers contributed.
pub struct Summary {
    /// The mean of the successful rates; `NoData` when none succeeded.
    pub mean: Result<Dec, StatsError>,
    /// The variance of the successful rates; `NoData` when none succeeded.
    pub variance: Result<Dec, StatsError>,
    /// How many providers delivered a rate.
    pub success_count: usize,
    /// How many providers were asked.
    pub total_count: usize,
}

/// Reduce the settled outcomes to a summary. The counts are exact, the
/// statistics are computed over exactly the successful rates — failures are
/// reported but never contribute — and "no data" is signalled exactly when
/// no provider succeeded.
pub fn summarize(outcomes: &Vec<RateOutcome>) -> (r: Summary)
    ensures
        r.total_count == outcomes@.len(),
        r.success_count == successes_spec(outcomes@).len(),
        r.mean == mean_spec(successes_spec(outcomes@)),
        r.variance == variance_spec(successes_spec(outcomes@)),
        r.mean == Err::<Dec, StatsError>(StatsError::NoData) <==> successes_spec(outcomes@).len() == 0,
        r.variance == Err::<Dec, StatsError>(StatsError::NoData) <==> successes_spec(outcomes@).len() == 0,
{
    let rs = successes(outcomes);
    let m = mean(&rs);
    let v = variance(&rs);
    Summary { mean: m, variance: v, success_count: rs.len(), total_count: outcomes.len() }
}

} // verus!
