//! Admission of batches into the capacity-limited execution pool and the
//! job request one batch is submitted as. The dispatcher is a state
//! machine: the loop that queries the orchestrator, sleeps, and submits
//! runs outside this crate and feeds every observation back in; the
//! decisions are all here.

use vstd::prelude::*;

use crate::batch::{join_ids, spec_join_ids};
use crate::choice::DownloadableUnit;
use crate::ids::fresh_uuid;

verus! {

/// Ceiling on concurrently active jobs when none is configured.
pub const DEFAULT_MAX_JOBS: u64 = 8;

/// Time units waited after finding the pool full, before the count is
/// queried again.
pub const ADMISSION_BACKOFF: u64 = 5;

/// Time units waited after a failed submission, before admission starts
/// over from a fresh count query.
pub const SUBMIT_BACKOFF: u64 = 10;

/// Where the dispatch of one batch stands.
#[derive(Clone, Copy, PartialEq, Eq, Structural, Debug)]
pub enum DispatchState {
    /// The next step is a fresh query of the active-job count.
    AwaitingCapacity,
    /// The last observed count was below the ceiling; the batch may be
    /// submitted now.
    Granted,
    /// The batch was accepted by the orchestrator.
    Done,
}

/// One observation the driving loop feeds back.
#[derive(Clone, Copy, PartialEq, Eq, Structural, Debug)]
pub enum DispatchEvent {
    /// The orchestrator reported this many active jobs.
    ActiveCount(u64),
    /// The submission call succeeded.
    SubmitSucceeded,
    /// The submission call failed.
    SubmitFailed,
}

/// What the driving loop must do next.
#[derive(Clone, Copy, PartialEq, Eq, Structural, Debug)]
pub enum DispatchAction {
    /// Submit the batch now.
    Submit,
    /// Sleep this many time units, then query the active-job count.
    WaitThenRequery(u64),
    /// Nothing is left to do for this batch.
    Finished,
}

/// Which events can answer which states: a count answers a capacity
/// query, a submission outcome answers a submission.
pub open spec fn event_fits(s: DispatchState, e: DispatchEvent) -> bool {
    match s {
        DispatchState::AwaitingCapacity => e is ActiveCount,
        DispatchState::Granted => e is SubmitSucceeded || e is SubmitFailed,
        DispatchState::Done => false,
    }
}

/// The dispatcher's transition function: proceed when the observed count
/// is under the ceiling, back off and re-query when the pool is full,
/// and after a failed submission back off and run admission again from a
/// fresh query. There is no retry cap: a batch is never given up.
pub open spec fn spec_dispatch_step(s: DispatchState, e: DispatchEvent, max_jobs: u64) -> (
    DispatchState,
    DispatchAction,
) {
    match e {
        DispatchEvent::ActiveCount(c) => {
            if c < max_jobs {
                (DispatchState::Granted, DispatchAction::Submit)
            } else {
                (DispatchState::AwaitingCapacity, DispatchAction::WaitThenRequery(ADMISSION_BACKOFF))
            }
        },
        DispatchEvent::SubmitSucceeded => (DispatchState::Done, DispatchAction::Finished),
        DispatchEvent::SubmitFailed => (
            DispatchState::AwaitingCapacity,
            DispatchAction::WaitThenRequery(SUBMIT_BACKOFF),
        ),
    }
}

/// Advances the dispatch of one batch by one observation.
pub fn dispatch_step(s: DispatchState, e: DispatchEvent, max_jobs: u64) -> (r: (
    DispatchState,
    DispatchAction,
))
    requires
        event_fits(s, e),
    ensures
        r == spec_dispatch_step(s, e, max_jobs),
{
    match e {
        DispatchEvent::ActiveCount(c) => {
            if c < max_jobs {
                (DispatchState::Granted, DispatchAction::Submit)
            } else {
                (DispatchState::AwaitingCapacity, DispatchAction::WaitThenRequery(ADMISSION_BACKOFF))
            }
        },
        DispatchEvent::SubmitSucceeded => (DispatchState::Done, DispatchAction::Finished),
        DispatchEvent::SubmitFailed => (
            DispatchState::AwaitingCapacity,
            DispatchAction::WaitThenRequery(SUBMIT_BACKOFF),
        ),
    }
}

/// A submission is never allowed while the orchestrator reports the
/// ceiling reached: the dispatcher orders a submit only in answer to a
/// count observation strictly below `max_jobs`.
pub proof fn lemma_admission_ceiling(s: DispatchState, e: DispatchEvent, max_jobs: u64)
    requires
        event_fits(s, e),
        spec_dispatch_step(s, e, max_jobs).1 == DispatchAction::Submit,
    ensures
        e matches DispatchEvent::ActiveCount(c) && c < max_jobs,
{
}

/// Scans a sequence of point-in-time active-job counts, as successive
/// admission queries would observe them, and reports how many full-pool
/// waits precede the first count under the ceiling: the index of the
/// first admitting count, or nothing when every count keeps the pool
/// full.
pub fn waits_until_admitted(counts: &Vec<u64>, max_jobs: u64) -> (r: Option<usize>)
    ensures
        r matches Some(i) ==> i < counts@.len() && counts@[i as int] < max_jobs && forall|j: int|
            0 <= j < i ==> counts@[j] >= max_jobs,
        r is None ==> forall|j: int| 0 <= j < counts@.len() ==> counts@[j] >= max_jobs,
{
    let mut i: usize = 0;
    while i < counts.len()
        invariant
            i <= counts@.len(),
            forall|j: int| 0 <= j < i ==> counts@[j] >= max_jobs,
        decreases counts@.len() - i,
    {
        if counts[i] < max_jobs {
            return Some(i);
        }
        i += 1;
    }
    None
}

/// The execution request one batch is submitted as: a uniquely named
/// job carrying the batch's joined unit identifiers, run once with no
/// restart and a short post-completion cleanup interval.
#[derive(Debug)]
pub struct JobRequest {
    pub name: String,
    pub track_ids: String,
    pub image: String,
    pub restart_policy: String,
    pub backoff_limit: u32,
    pub ttl_seconds_after_finished: u32,
}

/// Builds the job request for one batch under a given name suffix.
pub fn build_job_request(batch: &Vec<DownloadableUnit>, suffix: &str) -> (j: JobRequest)
    ensures
        j.name@ == "downloader-"@ + suffix@,
        j.track_ids@ == spec_join_ids(batch@),
        j.image@ == "docker.prayujt.com/distributed-streaming-downloader"@,
        j.restart_policy@ == "Never"@,
        j.backoff_limit == 0u32,
        j.ttl_seconds_after_finished == 1u32,
{
    let mut name = String::from_str("downloader-");
    name.append(suffix);
    JobRequest {
        name,
        track_ids: join_ids(batch),
        image: String::from_str("docker.prayujt.com/distributed-streaming-downloader"),
        restart_policy: String::from_str("Never"),
        backoff_limit: 0,
        ttl_seconds_after_finished: 1,
    }
}

/// Builds the job request for one batch under a freshly generated
/// random name suffix.
pub fn make_job_request(batch: &Vec<DownloadableUnit>) -> (j: JobRequest)
    ensures
        j.name@.len() == "downloader-"@.len() + 36,
        j.name@.take("downloader-"@.len() as int) == "downloader-"@,
        j.track_ids@ == spec_join_ids(batch@),
        j.image@ == "docker.prayujt.com/distributed-streaming-downloader"@,
        j.restart_policy@ == "Never"@,
        j.backoff_limit == 0u32,
        j.ttl_seconds_after_finished == 1u32,
{
    let suffix = fresh_uuid();
    let j = build_job_request(batch, suffix.as_str());
    proof {
        assert(j.name@.take("downloader-"@.len() as int) =~= "downloader-"@);
    }
    j
}

/// Whether jobs are really queried and submitted: a development
/// environment skips the orchestrator entirely, so expansion, batching
/// and admission logic can run without one.
pub fn submission_enabled(environment: &String) -> (b: bool)
    ensures
        b <==> environment@ != "development"@,
{
    let dev = String::from_str("development");
    !(*environment == dev)
}

} // verus!
