use cavegen_bot::search::{distinct_sublevels, query_matches, Clause, Query, SearchJob};

/// Runs a job single-threaded on a simulated clock that advances by `step`
/// per evaluation. Returns the first match, the clock when the job stopped and
/// the number of evaluations.
fn drive(job: &mut SearchJob, clauses: &[fn(u32) -> bool], start: u64, step: u64) -> (Option<u32>, u64, u64) {
    let mut now = start;
    let mut evaluations: u64 = 0;
    while let Some(seed) = job.next_candidate(now, rand::random::<u32>()) {
        evaluations += 1;
        let matched = query_matches(clauses.len(), seed, &|i: usize, s: u32| clauses[i](s));
        job.report(seed, matched);
        now += step;
    }
    (job.first_match(), now, evaluations)
}

fn always(_: u32) -> bool {
    true
}

fn never(_: u32) -> bool {
    false
}

fn div4(s: u32) -> bool {
    s % 4 == 0
}

fn div6(s: u32) -> bool {
    s % 6 == 0
}

#[test]
fn always_true_finishes_at_once_with_random_seeds() {
    let mut seeds = Vec::new();
    for _ in 0..20 {
        let mut job = SearchJob::new(1_000_000, 1, None);
        let (found, now, evaluations) = drive(&mut job, &[always], 0, 10);
        assert!(found.is_some());
        assert_eq!(evaluations, 1);
        assert_eq!(now, 10);
        assert!(job.is_cancelled());
        seeds.push(found.unwrap());
    }
    assert!(seeds.iter().any(|s| *s != seeds[0]));
}

#[test]
fn always_false_stops_at_deadline() {
    let mut job = SearchJob::new(1_000, 1, None);
    let (found, now, evaluations) = drive(&mut job, &[never], 0, 7);
    assert_eq!(found, None);
    assert!(now >= 1_000);
    assert!(now < 1_000 + 7);
    assert_eq!(evaluations, 143);
    assert!(job.is_cancelled());
    assert!(job.results().is_empty());
}

#[test]
fn two_clauses_match_jointly() {
    for _ in 0..1000 {
        let mut job = SearchJob::new(u64::MAX, 1, None);
        let (found, _, _) = drive(&mut job, &[div4, div6], 0, 1);
        let seed = found.expect("a generous deadline always finds a match");
        assert_eq!(seed % 12, 0);
    }
}

#[test]
fn sequential_scan_from_start() {
    let mut job = SearchJob::new(u64::MAX, 2, Some(13));
    let (found, _, evaluations) = drive(&mut job, &[div4, div6], 0, 1);
    assert_eq!(found, Some(24));
    assert_eq!(job.results(), &vec![24, 36]);
    assert_eq!(evaluations, 24);
}

#[test]
fn sequential_scan_ends_after_largest_seed() {
    let mut job = SearchJob::new(u64::MAX, 1, Some(u32::MAX - 1));
    assert_eq!(job.next_candidate(0, 5), Some(u32::MAX - 1));
    assert_eq!(job.next_candidate(0, 5), Some(u32::MAX));
    assert_eq!(job.next_candidate(0, 5), None);
    assert!(job.is_cancelled());
}

#[test]
fn no_evaluation_starts_after_cancellation() {
    let mut job = SearchJob::new(u64::MAX, 3, None);
    let mut calls = 0u32;
    let mut count = |s: u32| {
        calls += 1;
        let _ = s;
        true
    };
    while let Some(seed) = job.next_candidate(0, rand::random::<u32>()) {
        let m = count(seed);
        job.report(seed, m);
    }
    assert_eq!(calls, 3);
    assert_eq!(job.results().len(), 3);
    for _ in 0..100 {
        assert_eq!(job.next_candidate(0, 1), None);
        assert!(!job.report(1, true));
    }
    assert_eq!(calls, 3);
    assert_eq!(job.results().len(), 3);
}

#[test]
fn in_flight_match_after_deadline_is_dropped() {
    let mut job = SearchJob::new(100, 1, None);
    let seed = job.next_candidate(50, 77).unwrap();
    assert_eq!(seed, 77);
    assert_eq!(job.next_candidate(100, 78), None);
    assert!(!job.report(seed, true));
    assert_eq!(job.first_match(), None);
}

#[test]
fn zero_results_wanted_is_stopped_from_the_start() {
    let mut job = SearchJob::new(u64::MAX, 0, None);
    assert!(job.is_cancelled());
    assert_eq!(job.next_candidate(0, 3), None);
}

#[test]
fn query_short_circuits_on_first_failure() {
    let evaluated = std::cell::Cell::new(0usize);
    let f = |i: usize, s: u32| {
        evaluated.set(evaluated.get() + 1);
        if i == 0 { s % 2 == 0 } else { true }
    };
    assert!(!query_matches(3, 1, &f));
    assert_eq!(evaluated.get(), 1);
    assert!(query_matches(3, 2, &f));
    assert_eq!(evaluated.get(), 4);
    assert!(query_matches(0, 1, &f));
}

#[test]
fn distinct_sublevels_dedups() {
    let q = Query {
        clauses: vec![
            Clause { sublevel: "SCx-6".to_string() },
            Clause { sublevel: "FC-1".to_string() },
            Clause { sublevel: "SCx-6".to_string() },
        ],
    };
    assert_eq!(distinct_sublevels(&q), vec!["SCx-6".to_string(), "FC-1".to_string()]);
    assert!(distinct_sublevels(&Query { clauses: vec![] }).is_empty());
}
