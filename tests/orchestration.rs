use pupdate::fan_in::{FanIn, Progress, RecordError};
use pupdate::plan::plan_run;
use pupdate::summary::{summarize, whole_seconds_between, Outcome};

fn names(v: &[&str]) -> Vec<String> {
    v.iter().map(|s| s.to_string()).collect()
}

#[test]
fn three_targets_mixed_outcomes() {
    let mut f = FanIn::new(names(&["a", "b", "c"]));
    // c fails to start first, then b fails, then a succeeds
    assert_eq!(f.record(2, Outcome::TransportError), Ok(Progress { completed: 1, total: 3 }));
    assert_eq!(f.record(1, Outcome::Failed), Ok(Progress { completed: 2, total: 3 }));
    assert!(!f.is_complete());
    assert_eq!(f.record(0, Outcome::Succeeded), Ok(Progress { completed: 3, total: 3 }));
    assert!(f.is_complete());
    let s = f.summary();
    assert_eq!(s.total, 3);
    assert_eq!(s.failed, names(&["b", "c"]));
    assert_eq!(s.succeeded_count(), 1);
    assert_eq!(s.succeeded, names(&["a"]));
}

#[test]
fn empty_run_without_local_does_nothing() {
    let plan = plan_run(None, Vec::new(), false, true);
    assert!(plan.remotes.is_empty());
    assert!(!plan.run_local);
    let f = FanIn::new(plan.remotes);
    assert_eq!(f.total(), 0);
    assert_eq!(f.completed(), 0);
    assert!(f.is_complete());
    let s = f.summary();
    assert_eq!(s.total, 0);
    assert!(s.succeeded.is_empty());
    assert!(s.failed.is_empty());
}

#[test]
fn fifty_targets_finishing_in_reverse() {
    let targets: Vec<String> = (0..50).map(|i| format!("host{i}")).collect();
    let mut f = FanIn::new(targets.clone());
    for i in (0..50usize).rev() {
        let outcome = if i % 3 == 0 { Outcome::Failed } else { Outcome::Succeeded };
        let p = f.record(i, outcome).unwrap();
        assert_eq!(p.completed, 50 - i);
        assert_eq!(p.total, 50);
    }
    assert!(f.is_complete());
    let s = f.summary();
    assert_eq!(s.total, 50);
    assert_eq!(s.succeeded.len() + s.failed.len(), 50);
    let expected_failed: Vec<String> =
        (0..50).filter(|i| i % 3 == 0).map(|i| format!("host{i}")).collect();
    let expected_ok: Vec<String> =
        (0..50).filter(|i| i % 3 != 0).map(|i| format!("host{i}")).collect();
    assert_eq!(s.failed, expected_failed);
    assert_eq!(s.succeeded, expected_ok);
}

#[test]
fn counts_add_up_and_each_target_once() {
    let targets = names(&["x", "y", "x", "z"]);
    let outcomes = vec![
        Some(Outcome::Succeeded),
        Some(Outcome::Failed),
        Some(Outcome::TransportError),
        Some(Outcome::Succeeded),
    ];
    let s = summarize(&targets, &outcomes);
    assert_eq!(s.total, 4);
    assert_eq!(s.succeeded_count() + s.failed_count(), s.total);
    let mut all: Vec<String> = s.succeeded.iter().chain(s.failed.iter()).cloned().collect();
    all.sort();
    let mut expected = targets.clone();
    expected.sort();
    assert_eq!(all, expected);
}

#[test]
fn permuted_targets_give_same_sets() {
    let a = summarize(
        &names(&["a", "b", "c", "d"]),
        &vec![
            Some(Outcome::Succeeded),
            Some(Outcome::Failed),
            Some(Outcome::TransportError),
            Some(Outcome::Succeeded),
        ],
    );
    let b = summarize(
        &names(&["d", "c", "a", "b"]),
        &vec![
            Some(Outcome::Succeeded),
            Some(Outcome::TransportError),
            Some(Outcome::Succeeded),
            Some(Outcome::Failed),
        ],
    );
    let sorted = |v: &Vec<String>| {
        let mut v = v.clone();
        v.sort();
        v
    };
    assert_eq!(sorted(&a.succeeded), sorted(&b.succeeded));
    assert_eq!(sorted(&a.failed), sorted(&b.failed));
    assert_eq!(b.failed, names(&["c", "b"]));
}

#[test]
fn interrupted_run_omits_unfinished() {
    let mut f = FanIn::new(names(&["a", "b", "c"]));
    f.record(1, Outcome::Succeeded).unwrap();
    let s = f.summary();
    assert_eq!(s.total, 3);
    assert_eq!(s.succeeded, names(&["b"]));
    assert!(s.failed.is_empty());
}

#[test]
fn record_refuses_unknown_and_repeated() {
    let mut f = FanIn::new(names(&["a", "b"]));
    assert_eq!(f.record(2, Outcome::Succeeded), Err(RecordError::UnknownTarget));
    assert_eq!(f.record(0, Outcome::Failed), Ok(Progress { completed: 1, total: 2 }));
    assert_eq!(f.record(0, Outcome::Succeeded), Err(RecordError::AlreadyRecorded));
    assert_eq!(f.completed(), 1);
    let s = f.summary();
    assert_eq!(s.failed, names(&["a"]));
    assert!(s.succeeded.is_empty());
}

#[test]
fn outcome_from_status() {
    assert_eq!(Outcome::from_status(true), Outcome::Succeeded);
    assert_eq!(Outcome::from_status(false), Outcome::Failed);
    assert!(Outcome::Succeeded.succeeded());
    assert!(!Outcome::TransportError.succeeded());
}

#[test]
fn plan_prefers_cli_remotes() {
    let p = plan_run(Some(names(&["a"])), names(&["b", "c"]), false, false);
    assert_eq!(p.remotes, names(&["a"]));
    assert!(p.run_local);
    let p = plan_run(None, names(&["b", "c"]), false, false);
    assert_eq!(p.remotes, names(&["b", "c"]));
    let p = plan_run(Some(names(&["a"])), names(&["b"]), true, false);
    assert!(p.remotes.is_empty());
}

#[test]
fn whole_seconds_round_toward_zero() {
    assert_eq!(whole_seconds_between(0, 2_999_999_999), 2);
    assert_eq!(whole_seconds_between(1_000_000_000, 3_000_000_000), 2);
    assert_eq!(whole_seconds_between(2_500_000_000, 0), -2);
    assert_eq!(whole_seconds_between(5, 5), 0);
}
