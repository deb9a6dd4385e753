//! The per-job orchestration state machine: trigger, locate the queued item,
//! confirm the executing build, poll for its result. Any failure at any step
//! ends that job alone; `Done` is terminal and carries exactly one of a
//! remote result or a failure description.

use vstd::prelude::*;
use crate::outcome::{JobError, JobOutcome};

verus! {

/// Where one job stands in its pipeline.
#[derive(Debug, Clone, PartialEq, Eq)]
pub enum JobPhase {
    /// Triggered, no response handled yet.
    Pending,
    /// The trigger response carried the queued-item URL.
    Triggered { queue_url: String },
    /// The queued item resolved to an executing build's URL.
    Located { build_url: String },
    /// The build's status endpoint answered: the result poll may start.
    Executing { build_url: String },
    /// Terminal: a result or a failure, exactly one, exactly once.
    Done { outcome: JobOutcome },
}

/// What the outside world reports back to the machine.
#[derive(Debug, Clone, PartialEq, Eq)]
pub enum JobEvent {
    /// The trigger POST to `url` got a response; `location` is its
    /// queued-item header when present.
    TriggerResponded { location: Option<String>, url: String },
    /// A request to `url` failed at the transport level.
    TransportFailed { url: String },
    /// The locate poll decoded the executing build's URL.
    LocateDecoded { executable_url: String },
    /// The locate poll on `url` exhausted its cap without decoding.
    LocateExhausted { url: String },
    /// The executing build's status endpoint decoded: it is live.
    LivenessConfirmed,
    /// The result poll saw a terminal (non-null) result.
    ResultSeen { result: String },
    /// The result poll on `url` exhausted the configured cap.
    ResultExhausted { url: String },
}

/// The transition function: each phase accepts the events of its own step, a
/// transport failure ends any unfinished job, `Done` absorbs everything, and
/// an event foreign to the current phase changes nothing.
pub open spec fn spec_job_step(phase: JobPhase, event: JobEvent) -> JobPhase {
    match phase {
        JobPhase::Done { outcome } => JobPhase::Done { outcome },
        _ => match (phase, event) {
            (JobPhase::Pending, JobEvent::TriggerResponded { location: Some(loc), url: _ }) => {
                JobPhase::Triggered { queue_url: loc }
            },
            (JobPhase::Pending, JobEvent::TriggerResponded { location: None, url }) => {
                JobPhase::Done {
                    outcome: JobOutcome::Failed { error: JobError::Protocol { url } },
                }
            },
            (JobPhase::Triggered { queue_url: _ }, JobEvent::LocateDecoded { executable_url }) => {
                JobPhase::Located { build_url: executable_url }
            },
            (JobPhase::Triggered { queue_url: _ }, JobEvent::LocateExhausted { url }) => {
                JobPhase::Done { outcome: JobOutcome::Failed { error: JobError::Timeout { url } } }
            },
            (JobPhase::Located { build_url }, JobEvent::LivenessConfirmed) => {
                JobPhase::Executing { build_url }
            },
            (JobPhase::Located { build_url: _ }, JobEvent::LocateExhausted { url }) => {
                JobPhase::Done { outcome: JobOutcome::Failed { error: JobError::Timeout { url } } }
            },
            (JobPhase::Executing { build_url: _ }, JobEvent::ResultSeen { result }) => {
                JobPhase::Done { outcome: JobOutcome::Finished { result } }
            },
            (JobPhase::Executing { build_url: _ }, JobEvent::ResultExhausted { url }) => {
                JobPhase::Done { outcome: JobOutcome::Failed { error: JobError::Timeout { url } } }
            },
            (_, JobEvent::TransportFailed { url }) => {
                JobPhase::Done { outcome: JobOutcome::Failed { error: JobError::Network { url } } }
            },
            (p, _) => p,
        },
    }
}

/// Advance one job's pipeline by one event, exactly as `spec_job_step` lays
/// the transitions out.
pub fn job_step(phase: JobPhase, event: JobEvent) -> (r: JobPhase)
    ensures
        r == spec_job_step(phase, event),
{
    match phase {
        JobPhase::Done { outcome } => JobPhase::Done { outcome },
        _ => match (phase, event) {
            (JobPhase::Pending, JobEvent::TriggerResponded { location: Some(loc), url: _ }) => {
                JobPhase::Triggered { queue_url: loc }
            },
            (JobPhase::Pending, JobEvent::TriggerResponded { location: None, url }) => {
                JobPhase::Done {
                    outcome: JobOutcome::Failed { error: JobError::Protocol { url } },
                }
            },
            (JobPhase::Triggered { queue_url: _ }, JobEvent::LocateDecoded { executable_url }) => {
                JobPhase::Located { build_url: executable_url }
            },
            (JobPhase::Triggered { queue_url: _ }, JobEvent::LocateExhausted { url }) => {
                JobPhase::Done { outcome: JobOutcome::Failed { error: JobError::Timeout { url } } }
            },
            (JobPhase::Located { build_url }, JobEvent::LivenessConfirmed) => {
                JobPhase::Executing { build_url }
            },
            (JobPhase::Located { build_url: _ }, JobEvent::LocateExhausted { url }) => {
                JobPhase::Done { outcome: JobOutcome::Failed { error: JobError::Timeout { url } } }
            },
            (JobPhase::Executing { build_url: _ }, JobEvent::ResultSeen { result }) => {
                JobPhase::Done { outcome: JobOutcome::Finished { result } }
            },
            (JobPhase::Executing { build_url: _ }, JobEvent::ResultExhausted { url }) => {
                JobPhase::Done { outcome: JobOutcome::Failed { error: JobError::Timeout { url } } }
            },
            (_, JobEvent::TransportFailed { url }) => {
                JobPhase::Done { outcome: JobOutcome::Failed { error: JobError::Network { url } } }
            },
            (p, _) => p,
        },
    }
}

/// Law: `Done` is terminal. No event moves a finished job, so each job's
/// outcome is produced exactly once.
pub proof fn lemma_done_is_terminal(outcome: JobOutcome, event: JobEvent)
    ensures
        spec_job_step(JobPhase::Done { outcome }, event) == (JobPhase::Done { outcome }),
{
}

/// A sequence with its one trailing `'/'` removed, when it has one.
pub open spec fn strip_trailing_slash(base: Seq<char>) -> Seq<char> {
    if base.len() > 0 && base[base.len() - 1] == '/' {
        base.drop_last()
    } else {
        base
    }
}

/// The URL the trigger POST goes to: `{base}/job/{job-name}/{build-path}`.
pub open spec fn trigger_url_spec(base: Seq<char>, job: Seq<char>, build: Seq<char>) -> Seq<char> {
    strip_trailing_slash(base) + "/job/"@ + job + "/"@ + build
}

/// Build the trigger URL from the instance's base URL and the job's resolved
/// name and build path.
pub fn trigger_url(base: &str, job_name: &str, build: &str) -> (r: String)
    ensures
        r@ == trigger_url_spec(base@, job_name@, build@),
{
    let len = base.unicode_len();
    let stripped: &str = if len > 0 && base.get_char(len - 1) == '/' {
        let s = base.substring_char(0, len - 1);
        proof {
            assert(s@ =~= strip_trailing_slash(base@));
        }
        s
    } else {
        base
    };
    let mut s = String::from_str(stripped);
    s.append("/job/");
    s.append(job_name);
    s.append("/");
    s.append(build);
    proof {
        assert(s@ =~= trigger_url_spec(base@, job_name@, build@));
    }
    s
}

/// The JSON status endpoint under a base that ends in `'/'`: the queued
/// item's or executing build's URL with `api/json` appended.
pub fn status_url(base: &str) -> (r: String)
    ensures
        r@ == base@ + "api/json"@,
{
    let mut s = String::from_str(base);
    s.append("api/json");
    s
}

} // verus!
