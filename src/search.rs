//! Deadline-bound, cancellable search for a seed that satisfies every clause
//! of a query.
//!
//! A `SearchJob` holds the decisions of one search: which candidate a worker
//! evaluates next, whether the search has stopped, and which matches are
//! published. Workers share the job behind a lock, take a candidate, evaluate
//! the query outside the lock, and report the outcome back.
use vstd::prelude::*;

verus! {

/// One condition of a query, scoped to a sublevel.
#[derive(Debug)]
pub struct Clause {
    pub sublevel: String,
}

/// An AND-composition of clauses, matched jointly against a single seed.
#[derive(Debug)]
pub struct Query {
    pub clauses: Vec<Clause>,
}

/// Evaluates the clauses in order against one seed and stops at the first
/// that fails: true iff every clause holds for `seed`.
pub fn query_matches<F: Fn(usize, u32) -> bool>(clause_count: usize, seed: u32, clause_holds: &F) -> (r: bool)
    requires
        forall|i: usize| i < clause_count ==> call_requires(*clause_holds, (i, seed)),
    ensures
        r ==> forall|i: usize| i < clause_count ==> call_ensures(*clause_holds, (i, seed), true),
        !r ==> exists|i: usize| i < clause_count && call_ensures(*clause_holds, (i, seed), false),
{
    let mut i: usize = 0;
    while i < clause_count
        invariant
            i <= clause_count,
            forall|k: usize| k < clause_count ==> call_requires(*clause_holds, (k, seed)),
            forall|j: usize| j < i ==> call_ensures(*clause_holds, (j, seed), true),
        decreases clause_count - i,
    {
        let holds = clause_holds(i, seed);
        if !holds {
            return false;
        }
        i = i + 1;
    }
    true
}

/// Some entry of `names` reads `s`.
pub open spec fn lists_name(names: Seq<String>, s: Seq<char>) -> bool {
    exists|i: int| 0 <= i < names.len() && names[i]@ == s
}

/// One of the first `n` clauses is scoped to sublevel `s`.
pub open spec fn names_sublevel(clauses: Seq<Clause>, n: int, s: Seq<char>) -> bool {
    exists|i: int| 0 <= i < n && clauses[i].sublevel@ == s
}

/// The sublevels that a query's clauses name, each once.
pub fn distinct_sublevels(query: &Query) -> (r: Vec<String>)
    ensures
        forall|i: int, j: int| 0 <= i < j < r@.len() ==> r@[i]@ != r@[j]@,
        forall|s: Seq<char>|
            #![trigger lists_name(r@, s)]
            #![trigger names_sublevel(query.clauses@, query.clauses@.len() as int, s)]
            lists_name(r@, s) <==> names_sublevel(query.clauses@, query.clauses@.len() as int, s),
{
    let mut out: Vec<String> = Vec::new();
    let mut i: usize = 0;
    while i < query.clauses.len()
        invariant
            i <= query.clauses@.len(),
            forall|a: int, b: int| 0 <= a < b < out@.len() ==> out@[a]@ != out@[b]@,
            forall|s: Seq<char>|
                #![trigger lists_name(out@, s)]
                #![trigger names_sublevel(query.clauses@, i as int, s)]
                lists_name(out@, s) <==> names_sublevel(query.clauses@, i as int, s),
        decreases query.clauses@.len() - i,
    {
        let name = &query.clauses[i].sublevel;
        let mut seen = false;
        let mut k: usize = 0;
        while k < out.len()
            invariant
                k <= out@.len(),
                seen <==> exists|a: int| 0 <= a < k && out@[a]@ == name@,
            decreases out@.len() - k,
        {
            if out[k] == *name {
                seen = true;
            }
            k = k + 1;
        }
        let ghost before = out@;
        if !seen {
            out.push(name.clone());
        }
        proof {
            assert forall|s: Seq<char>|
                lists_name(out@, s) implies names_sublevel(query.clauses@, i + 1, s) by {
                let a = choose|a: int| 0 <= a < out@.len() && out@[a]@ == s;
                if a < before.len() {
                    assert(lists_name(before, s));
                    let b = choose|b: int| 0 <= b < i && query.clauses@[b].sublevel@ == s;
                    assert(0 <= b < i + 1 && query.clauses@[b].sublevel@ == s);
                } else {
                    assert(query.clauses@[i as int].sublevel@ == s);
                }
            }
            assert forall|s: Seq<char>|
                names_sublevel(query.clauses@, i + 1, s) implies lists_name(out@, s) by {
                let a = choose|a: int| 0 <= a < i + 1 && query.clauses@[a].sublevel@ == s;
                if a < i {
                    assert(names_sublevel(query.clauses@, i as int, s));
                    let b = choose|b: int| 0 <= b < before.len() && before[b]@ == s;
                    assert(out@[b]@ == s);
                } else if seen {
                    let b = choose|b: int| 0 <= b < before.len() && before[b]@ == name@;
                    assert(out@[b]@ == s);
                } else {
                    assert(out@[before.len() as int]@ == s);
                }
            }
        }
        i = i + 1;
    }
    out
}

/// The state of one search, as the contracts see it.
pub ghost struct SearchView {
    /// No candidate is handed out at or after this time.
    pub deadline: u64,
    /// The search stops once this many matches are published.
    pub max_results: nat,
    /// Candidates come in order from a start seed, not at random.
    pub sequential: bool,
    /// The next candidate of a sequential scan; `None` once the scan passed
    /// the largest seed.
    pub cursor: Option<u32>,
    /// The published matches, in the order they were reported.
    pub found: Seq<u32>,
    /// Set once the search stopped; it is never cleared.
    pub cancelled: bool,
}

/// What `next_candidate` does: the new state and the candidate handed out.
pub open spec fn candidate_step(v: SearchView, now: u64, random: u32) -> (SearchView, Option<u32>) {
    if v.cancelled {
        (v, None)
    } else if now >= v.deadline {
        (SearchView { cancelled: true, ..v }, None)
    } else if !v.sequential {
        (v, Some(random))
    } else {
        match v.cursor {
            None => (SearchView { cancelled: true, ..v }, None),
            Some(c) => (
                SearchView { cursor: if c == u32::MAX { None } else { Some((c + 1) as u32) }, ..v },
                Some(c),
            ),
        }
    }
}

/// What `report` does: the new state and whether the seed was published.
pub open spec fn report_step(v: SearchView, seed: u32, matched: bool) -> (SearchView, bool) {
    if v.cancelled || !matched {
        (v, false)
    } else {
        (
            SearchView {
                found: v.found.push(seed),
                cancelled: v.found.len() + 1 >= v.max_results,
                ..v
            },
            true,
        )
    }
}

/// The published matches never exceed `max_results`, and reaching it stops
/// the search.
pub open spec fn search_wf(v: SearchView) -> bool {
    &&& v.found.len() <= v.max_results
    &&& v.found.len() == v.max_results ==> v.cancelled
}

/// The decisions of one search. See the module documentation.
#[derive(Debug)]
pub struct SearchJob {
    deadline: u64,
    max_results: usize,
    sequential: bool,
    cursor: Option<u32>,
    found: Vec<u32>,
    cancelled: bool,
}

impl View for SearchJob {
    type V = SearchView;

    closed spec fn view(&self) -> SearchView {
        SearchView {
            deadline: self.deadline,
            max_results: self.max_results as nat,
            sequential: self.sequential,
            cursor: self.cursor,
            found: self.found@,
            cancelled: self.cancelled,
        }
    }
}

impl SearchJob {
    /// A search that runs until `deadline` or until `max_results` matches are
    /// published. With `start_from` it scans seeds upward from there, otherwise
    /// it takes the random seeds that workers supply.
    pub fn new(deadline: u64, max_results: usize, start_from: Option<u32>) -> (r: SearchJob)
        ensures
            r@ == (SearchView {
                deadline,
                max_results: max_results as nat,
                sequential: start_from is Some,
                cursor: start_from,
                found: Seq::empty(),
                cancelled: max_results == 0,
            }),
            search_wf(r@),
    {
        SearchJob {
            deadline,
            max_results,
            sequential: start_from.is_some(),
            cursor: start_from,
            found: Vec::new(),
            cancelled: max_results == 0,
        }
    }

    /// Decides what a worker does at time `now`: `Some(seed)` to evaluate
    /// next, or `None` to stop. `random` is a fresh uniformly drawn seed, used
    /// when the search does not scan sequentially.
    pub fn next_candidate(&mut self, now: u64, random: u32) -> (r: Option<u32>)
        requires
            search_wf(old(self)@),
        ensures
            (final(self)@, r) == candidate_step(old(self)@, now, random),
            search_wf(final(self)@),
    {
        if self.cancelled {
            return None;
        }
        if now >= self.deadline {
            self.cancelled = true;
            return None;
        }
        if !self.sequential {
            return Some(random);
        }
        match self.cursor {
            None => {
                self.cancelled = true;
                None
            },
            Some(c) => {
                self.cursor = if c == u32::MAX {
                    None
                } else {
                    Some(c + 1)
                };
                Some(c)
            },
        }
    }

    /// Hands back the outcome of evaluating `seed`. A match is published
    /// unless the search has stopped; the return value says whether it was.
    pub fn report(&mut self, seed: u32, matched: bool) -> (r: bool)
        requires
            search_wf(old(self)@),
        ensures
            (final(self)@, r) == report_step(old(self)@, seed, matched),
            search_wf(final(self)@),
    {
        if self.cancelled || !matched {
            return false;
        }
        self.found.push(seed);
        self.cancelled = self.found.len() >= self.max_results;
        true
    }

    /// Whether the search has stopped.
    pub fn is_cancelled(&self) -> (r: bool)
        ensures
            r == self@.cancelled,
    {
        self.cancelled
    }

    /// The published matches, in the order they were reported.
    pub fn results(&self) -> (r: &Vec<u32>)
        ensures
            r@ == self@.found,
    {
        &self.found
    }

    /// The first published match, or `None` when nothing matched.
    pub fn first_match(&self) -> (r: Option<u32>)
        ensures
            r == (if self@.found.len() > 0 { Some(self@.found[0]) } else { None::<u32> }),
    {
        if self.found.len() > 0 {
            Some(self.found[0])
        } else {
            None
        }
    }
}

/// Every step keeps the bound on published matches: whatever the workers do,
/// no more than `max_results` seeds are ever published.
pub proof fn lemma_steps_keep_bound(v: SearchView, now: u64, random: u32, seed: u32, matched: bool)
    requires
        search_wf(v),
    ensures
        search_wf(candidate_step(v, now, random).0),
        search_wf(report_step(v, seed, matched).0),
{
}

/// Once a search has stopped it stays stopped: no worker is handed another
/// candidate, and no outcome reported later is published.
pub proof fn lemma_cancelled_is_final(v: SearchView, now: u64, random: u32, seed: u32, matched: bool)
    requires
        v.cancelled,
    ensures
        candidate_step(v, now, random) == (v, None::<u32>),
        report_step(v, seed, matched) == (v, false),
{
}

/// At or after the deadline no candidate is handed out and the search stops;
/// before it, a running search hands out a candidate unless a sequential
/// scan has passed the largest seed.
pub proof fn lemma_deadline_bounds_search(v: SearchView, now: u64, random: u32)
    ensures
        now >= v.deadline ==> candidate_step(v, now, random).1 is None && candidate_step(
            v,
            now,
            random,
        ).0.cancelled,
        now < v.deadline && !v.cancelled && !(v.sequential && v.cursor is None)
            ==> candidate_step(v, now, random).1 is Some,
{
}

/// A search that draws at random hands out exactly the drawn seed.
pub proof fn lemma_random_candidate(v: SearchView, now: u64, random: u32)
    requires
        !v.cancelled,
        now < v.deadline,
        !v.sequential,
    ensures
        candidate_step(v, now, random) == (v, Some(random)),
{
}

/// A match that brings the published count to `max_results` is published and
/// stops the search, so every later request for a candidate is refused.
pub proof fn lemma_stops_at_max_results(v: SearchView, seed: u32, now: u64, random: u32)
    requires
        search_wf(v),
        !v.cancelled,
        v.found.len() + 1 == v.max_results,
    ensures
        report_step(v, seed, true).1,
        report_step(v, seed, true).0.found == v.found.push(seed),
        report_step(v, seed, true).0.cancelled,
        candidate_step(report_step(v, seed, true).0, now, random).1 is None,
{
}

/// A seed is published only when its evaluation said that it matched. When
/// that evaluation is `query_matches` (whose result implies every clause),
/// each published seed satisfies every clause of the query jointly.
pub proof fn lemma_published_seed_matches_every_clause<F: Fn(usize, u32) -> bool>(
    v: SearchView,
    seed: u32,
    matched: bool,
    clause_count: usize,
    clause_holds: F,
)
    requires
        matched ==> forall|i: usize|
            i < clause_count ==> call_ensures(clause_holds, (i, seed), true),
    ensures
        report_step(v, seed, matched).1 ==> forall|i: usize|
            i < clause_count ==> call_ensures(clause_holds, (i, seed), true),
        report_step(v, seed, matched).1 ==> report_step(v, seed, matched).0.found.last() == seed,
{
}

} // verus!
