use media_dispatch::batch::batch;
use media_dispatch::choice::{DownloadableUnit, UnitOrigin};
use media_dispatch::dispatch::{
    build_job_request, dispatch_step, make_job_request, submission_enabled, waits_until_admitted,
    DispatchAction, DispatchEvent, DispatchState, ADMISSION_BACKOFF, DEFAULT_MAX_JOBS,
    SUBMIT_BACKOFF,
};

fn units(n: usize) -> Vec<DownloadableUnit> {
    (0..n)
        .map(|i| DownloadableUnit { id: format!("u{}", i), origin: UnitOrigin::TrackRef })
        .collect()
}

#[test]
fn full_pool_counts_cause_exactly_two_waits() {
    // Counts 8, 8, 3 against a ceiling of 8: the first two queries find
    // the pool full, the third admits.
    let counts = vec![8u64, 8, 3];
    assert_eq!(waits_until_admitted(&counts, 8), Some(2));
}

#[test]
fn pool_never_draining_never_admits() {
    let counts = vec![9u64, 8, 8, 20];
    assert_eq!(waits_until_admitted(&counts, 8), None);
}

#[test]
fn first_query_under_the_ceiling_admits_at_once() {
    let counts = vec![0u64];
    assert_eq!(waits_until_admitted(&counts, DEFAULT_MAX_JOBS), Some(0));
}

#[test]
fn count_at_the_ceiling_does_not_admit() {
    let (s, a) = dispatch_step(DispatchState::AwaitingCapacity, DispatchEvent::ActiveCount(8), 8);
    assert_eq!(s, DispatchState::AwaitingCapacity);
    assert_eq!(a, DispatchAction::WaitThenRequery(ADMISSION_BACKOFF));
}

#[test]
fn count_under_the_ceiling_grants_submission() {
    let (s, a) = dispatch_step(DispatchState::AwaitingCapacity, DispatchEvent::ActiveCount(3), 8);
    assert_eq!(s, DispatchState::Granted);
    assert_eq!(a, DispatchAction::Submit);
}

#[test]
fn failed_submission_restarts_admission_after_backoff() {
    let (s, a) = dispatch_step(DispatchState::Granted, DispatchEvent::SubmitFailed, 8);
    assert_eq!(s, DispatchState::AwaitingCapacity);
    assert_eq!(a, DispatchAction::WaitThenRequery(SUBMIT_BACKOFF));
}

#[test]
fn successful_submission_finishes_the_batch() {
    let (s, a) = dispatch_step(DispatchState::Granted, DispatchEvent::SubmitSucceeded, 8);
    assert_eq!(s, DispatchState::Done);
    assert_eq!(a, DispatchAction::Finished);
}

#[test]
fn dispatch_sequence_with_contention_and_one_failure() {
    // Observations: pool full, pool full, capacity, submit fails, pool
    // full, capacity, submit succeeds.
    let max = 8u64;
    let mut s = DispatchState::AwaitingCapacity;
    let mut log: Vec<DispatchAction> = Vec::new();
    let events = [
        DispatchEvent::ActiveCount(8),
        DispatchEvent::ActiveCount(9),
        DispatchEvent::ActiveCount(7),
        DispatchEvent::SubmitFailed,
        DispatchEvent::ActiveCount(8),
        DispatchEvent::ActiveCount(0),
        DispatchEvent::SubmitSucceeded,
    ];
    for e in events {
        let (next, action) = dispatch_step(s, e, max);
        s = next;
        log.push(action);
    }
    assert_eq!(s, DispatchState::Done);
    assert_eq!(
        log,
        vec![
            DispatchAction::WaitThenRequery(5),
            DispatchAction::WaitThenRequery(5),
            DispatchAction::Submit,
            DispatchAction::WaitThenRequery(10),
            DispatchAction::WaitThenRequery(5),
            DispatchAction::Submit,
            DispatchAction::Finished,
        ]
    );
}

#[test]
fn job_request_carries_the_joined_batch() {
    let j = build_job_request(&units(3), "abc");
    assert_eq!(j.name, "downloader-abc");
    assert_eq!(j.track_ids, "u0,u1,u2");
    assert_eq!(j.image, "docker.prayujt.com/distributed-streaming-downloader");
    assert_eq!(j.restart_policy, "Never");
    assert_eq!(j.backoff_limit, 0);
    assert_eq!(j.ttl_seconds_after_finished, 1);
}

#[test]
fn generated_job_names_are_unique_and_prefixed() {
    let j1 = make_job_request(&units(2));
    let j2 = make_job_request(&units(2));
    assert!(j1.name.starts_with("downloader-"));
    assert_eq!(j1.name.chars().count(), "downloader-".len() + 36);
    assert_ne!(j1.name, j2.name);
    assert_eq!(j1.track_ids, "u0,u1");
}

#[test]
fn development_environment_skips_submission() {
    assert!(!submission_enabled(&"development".to_string()));
    assert!(submission_enabled(&"production".to_string()));
    assert!(submission_enabled(&"".to_string()));
}

#[test]
fn batches_of_one_album_are_submitted_in_order_each_with_its_own_grant() {
    // One album of 12 tracks with a worker size of 5: three batches of
    // sizes 5, 5, 2, each dispatched only after its own fresh admission
    // query admits it.
    let bs = batch(&units(12), 5);
    assert_eq!(bs.len(), 3);
    let admission_counts = [vec![8u64, 3], vec![2u64], vec![8u64, 8, 0]];
    let mut submitted: Vec<String> = Vec::new();
    for (b, counts) in bs.iter().zip(admission_counts.iter()) {
        let granted_at = waits_until_admitted(counts, 8).expect("capacity must eventually free");
        assert!(counts[granted_at] < 8);
        let mut s = DispatchState::AwaitingCapacity;
        let (next, action) = dispatch_step(s, DispatchEvent::ActiveCount(counts[granted_at]), 8);
        s = next;
        assert_eq!(action, DispatchAction::Submit);
        let j = build_job_request(b, "fixed");
        let (done, fin) = dispatch_step(s, DispatchEvent::SubmitSucceeded, 8);
        assert_eq!(done, DispatchState::Done);
        assert_eq!(fin, DispatchAction::Finished);
        submitted.push(j.track_ids);
    }
    assert_eq!(
        submitted,
        vec![
            "u0,u1,u2,u3,u4".to_string(),
            "u5,u6,u7,u8,u9".to_string(),
            "u10,u11".to_string(),
        ]
    );
}
