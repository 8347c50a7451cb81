//! Monte Carlo estimate of the share of seeds that satisfy a query.
//!
//! A run draws a fixed number of uniformly random seeds and counts the matches.
//! Runs over parts of the trials can be combined with `merge` in any order.
use vstd::prelude::*;

verus! {

/// Relies on rand::random::<u32>: a seed drawn from the thread-local
/// generator. Nothing is known of which one.
#[verifier::external_body]
fn random_seed() -> (r: u32) {
    rand::random::<u32>()
}

/// Matches and trials counted so far.
#[derive(Clone, Copy, Debug, PartialEq, Eq, Structural)]
pub struct SampleTally {
    pub matched: u32,
    pub total: u32,
}

impl SampleTally {
    /// No more matches than trials.
    pub open spec fn wf(&self) -> bool {
        self.matched <= self.total
    }

    pub fn new() -> (r: SampleTally)
        ensures
            r == (SampleTally { matched: 0, total: 0 }),
    {
        SampleTally { matched: 0, total: 0 }
    }

    /// Counts one more trial, a match when `matched` holds.
    pub fn add_trial(&mut self, matched: bool)
        requires
            old(self).wf(),
            old(self).total < u32::MAX,
        ensures
            final(self).wf(),
            final(self).total == old(self).total + 1,
            final(self).matched == old(self).matched + if matched { 1u32 } else { 0u32 },
    {
        self.total = self.total + 1;
        if matched {
            self.matched = self.matched + 1;
        }
    }

    /// The tally of two disjoint sets of trials taken together.
    pub fn merge(&self, other: &SampleTally) -> (r: SampleTally)
        requires
            self.wf(),
            other.wf(),
            self.total + other.total <= u32::MAX,
        ensures
            r == merged(*self, *other),
            r.wf(),
    {
        SampleTally { matched: self.matched + other.matched, total: self.total + other.total }
    }

    /// The share of matching trials in thousandths of a percent, rounded to
    /// the nearest (halves up); `None` before any trial.
    pub fn percent_thousandths(&self) -> (r: Option<u64>)
        requires
            self.wf(),
        ensures
            self.total == 0 ==> r is None,
            self.total > 0 ==> r == Some(
                ((200000 * self.matched + self.total) / (2 * self.total as int)) as u64,
            ),
    {
        if self.total == 0 {
            return None;
        }
        let m = self.matched as u64;
        let t = self.total as u64;
        assert(200000 * m + t <= 200001 * 0xffff_ffffu64) by (nonlinear_arith)
            requires
                m <= t,
                t <= 0xffff_ffffu64,
        ;
        let r = (200000 * m + t) / (2 * t);
        Some(r)
    }
}

/// The sum of two tallies.
pub open spec fn merged(a: SampleTally, b: SampleTally) -> SampleTally {
    SampleTally { matched: (a.matched + b.matched) as u32, total: (a.total + b.total) as u32 }
}

/// Combining the tallies of parallel runs gives the same count in whatever
/// order and grouping they are combined.
pub proof fn lemma_merge_order_free(a: SampleTally, b: SampleTally, c: SampleTally)
    requires
        a.total + b.total + c.total <= u32::MAX,
        a.wf(),
        b.wf(),
        c.wf(),
    ensures
        merged(a, b) == merged(b, a),
        merged(merged(a, b), c) == merged(a, merged(b, c)),
{
}

/// Counts the trues among the outcomes of evaluated trials.
pub fn tally_outcomes(outcomes: &Vec<bool>) -> (r: SampleTally)
    requires
        outcomes@.len() <= u32::MAX,
    ensures
        r.total == outcomes@.len(),
        r.matched == outcomes@.filter(|b: bool| b).len(),
        r.wf(),
{
    let mut t = SampleTally::new();
    let mut i: usize = 0;
    while i < outcomes.len()
        invariant
            i <= outcomes@.len() <= u32::MAX,
            t.total == i,
            t.wf(),
            t.matched == outcomes@.take(i as int).filter(|b: bool| b).len(),
        decreases outcomes@.len() - i,
    {
        proof {
            reveal(Seq::filter);
            let p = |b: bool| b;
            assert(outcomes@.take(i + 1).drop_last() =~= outcomes@.take(i as int));
            assert(outcomes@.take(i + 1).filter(p) == if outcomes@[i as int] {
                outcomes@.take(i as int).filter(p).push(outcomes@[i as int])
            } else {
                outcomes@.take(i as int).filter(p)
            });
        }
        t.add_trial(outcomes[i]);
        i = i + 1;
    }
    proof {
        assert(outcomes@.take(i as int) =~= outcomes@);
        outcomes@.lemma_filter_len(|b: bool| b);
    }
    t
}

/// Whether `outcomes[i]` is what `matches` returned on `seeds[i]`, for each `i`.
pub open spec fn outcomes_of<F: Fn(u32) -> bool>(matches: F, seeds: Seq<u32>, outcomes: Seq<bool>) -> bool {
    &&& seeds.len() == outcomes.len()
    &&& forall|i: int| 0 <= i < seeds.len() ==> call_ensures(matches, (seeds[i],), #[trigger] outcomes[i])
}

/// Draws `trials` uniformly random seeds and counts those for which `matches`
/// holds: the result counts every trial, and as matches exactly the trials on
/// which `matches` returned true.
pub fn estimate<F: Fn(u32) -> bool>(trials: u32, matches: &F) -> (r: SampleTally)
    requires
        forall|s: u32| call_requires(*matches, (s,)),
    ensures
        r.total == trials,
        r.wf(),
        exists|seeds: Seq<u32>, outcomes: Seq<bool>|
            #![trigger outcomes_of(*matches, seeds, outcomes)]
            outcomes_of(*matches, seeds, outcomes) && seeds.len() == trials
                && r.matched == outcomes.filter(|b: bool| b).len(),
{
    let mut t = SampleTally::new();
    let mut i: u32 = 0;
    let ghost mut seeds: Seq<u32> = Seq::empty();
    let ghost mut outcomes: Seq<bool> = Seq::empty();
    proof {
        reveal(Seq::filter);
    }
    while i < trials
        invariant
            i <= trials,
            t.total == i,
            t.wf(),
            forall|s: u32| call_requires(*matches, (s,)),
            outcomes_of(*matches, seeds, outcomes),
            seeds.len() == i,
            t.matched == outcomes.filter(|b: bool| b).len(),
        decreases trials - i,
    {
        let seed = random_seed();
        let hit = matches(seed);
        proof {
            reveal(Seq::filter);
            let p = |b: bool| b;
            let next = outcomes.push(hit);
            assert(next.drop_last() =~= outcomes);
            assert(next.filter(p) == if hit { outcomes.filter(p).push(hit) } else { outcomes.filter(p) });
            seeds = seeds.push(seed);
            outcomes = next;
        }
        t.add_trial(hit);
        i = i + 1;
    }
    t
}

} // verus!
