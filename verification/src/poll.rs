//! Bounded polling. Two policies share one mechanism: the "locate" poll runs
//! at a fixed short cadence with a fixed cap, while the "result" poll runs at
//! the job's own configured cadence and cap. Each round trip sleeps the
//! interval once, fetches, and either yields a value or counts a miss; the
//! poll gives up exactly when the cap is exhausted.

use vstd::prelude::*;
use crate::resolve::_JenkinsJobConfig;

verus! {

/// Interval, in seconds, between attempts of the fixed "locate" poll.
pub const LOCATE_POLL_INTERVAL_SECONDS: u64 = 3;

/// Attempt cap of the fixed "locate" poll.
pub const LOCATE_POLL_MAX_ATTEMPTS: u32 = 30;

/// The state of one bounded poll: `attempts` counts the completed round
/// trips that produced no value yet.
#[derive(Debug, Clone, Copy)]
pub struct BoundedPoll {
    pub interval_seconds: u64,
    pub max_attempts: u32,
    pub attempts: u32,
}

/// What the poll asks its driver to do next.
#[derive(Debug, Clone, PartialEq, Eq, Structural)]
pub enum PollCommand {
    /// Sleep this many seconds, then fetch once and report what came back.
    SleepAndFetch { seconds: u64 },
    /// The attempt cap is exhausted: the poll has timed out.
    GiveUp,
}

impl BoundedPoll {
    pub open spec fn wf(&self) -> bool {
        self.attempts <= self.max_attempts
    }

    /// A fresh "locate" poll: the fixed three-second cadence, thirty
    /// attempts.
    pub fn new_locate() -> (r: Self)
        ensures
            r.interval_seconds == LOCATE_POLL_INTERVAL_SECONDS,
            r.max_attempts == LOCATE_POLL_MAX_ATTEMPTS,
            r.attempts == 0,
            r.wf(),
    {
        BoundedPoll {
            interval_seconds: LOCATE_POLL_INTERVAL_SECONDS,
            max_attempts: LOCATE_POLL_MAX_ATTEMPTS,
            attempts: 0,
        }
    }

    /// A fresh "result" poll with the job's own configured cadence and cap.
    pub fn new_result(job: &_JenkinsJobConfig) -> (r: Self)
        ensures
            r.interval_seconds == job.poll_build_result_interval_second,
            r.max_attempts == job.poll_build_result_counts,
            r.attempts == 0,
            r.wf(),
    {
        BoundedPoll {
            interval_seconds: job.poll_build_result_interval_second,
            max_attempts: job.poll_build_result_counts,
            attempts: 0,
        }
    }

    /// Give up exactly when the cap is exhausted; otherwise sleep the
    /// interval and fetch once more.
    pub fn next_command(&self) -> (c: PollCommand)
        ensures
            c == (if self.attempts == self.max_attempts {
                PollCommand::GiveUp
            } else {
                PollCommand::SleepAndFetch { seconds: self.interval_seconds }
            }),
    {
        if self.attempts == self.max_attempts {
            PollCommand::GiveUp
        } else {
            PollCommand::SleepAndFetch { seconds: self.interval_seconds }
        }
    }

    /// Record a round trip that produced no value.
    pub fn record_miss(&mut self)
        requires
            old(self).attempts < old(self).max_attempts,
        ensures
            final(self).attempts == old(self).attempts + 1,
            final(self).interval_seconds == old(self).interval_seconds,
            final(self).max_attempts == old(self).max_attempts,
            final(self).wf(),
    {
        self.attempts = self.attempts + 1;
    }
}

/// How a replayed poll ended.
#[derive(Debug, Clone, PartialEq, Eq)]
pub enum PollOutcome {
    /// A round trip brought a terminal value; `round_trips` round trips
    /// happened in all, the last one bringing the value.
    Found { result: String, round_trips: u32 },
    /// Every permitted round trip brought nothing.
    TimedOut { round_trips: u32 },
}

/// The number of round trips an outcome took.
pub open spec fn round_trips_of(r: PollOutcome) -> u32 {
    match r {
        PollOutcome::Found { round_trips, .. } => round_trips,
        PollOutcome::TimedOut { round_trips } => round_trips,
    }
}

/// The seconds a poll slept in all: every round trip sleeps the interval
/// once before fetching.
pub open spec fn elapsed_seconds(r: PollOutcome, interval_seconds: u64) -> int {
    round_trips_of(r) * interval_seconds
}

/// Replay a result poll against the sequence of results the endpoint would
/// report, round trip by round trip (`None` while the build is running, a
/// string once terminal). The poll stops at the first terminal result, after
/// exactly as many round trips as it took; with none within the cap it times
/// out after exactly `counts` round trips, so after exactly
/// `counts * interval_seconds` seconds of waiting — not before, not after.
pub fn run_result_poll(responses: &Vec<Option<String>>, interval_seconds: u64, counts: u32) -> (r:
    PollOutcome)
    requires
        responses@.len() >= counts,
    ensures
        match r {
            PollOutcome::Found { result, round_trips } => {
                &&& 1 <= round_trips <= counts
                &&& responses.deep_view()[round_trips - 1] == Some(result@)
                &&& forall|j: int| 0 <= j < round_trips - 1 ==> responses.deep_view()[j] is None
            },
            PollOutcome::TimedOut { round_trips } => {
                &&& round_trips == counts
                &&& forall|j: int| 0 <= j < counts ==> responses.deep_view()[j] is None
            },
        },
        elapsed_seconds(r, interval_seconds) <= counts * interval_seconds,
        r is TimedOut ==> elapsed_seconds(r, interval_seconds) == counts * interval_seconds,
{
    let mut poll = BoundedPoll { interval_seconds, max_attempts: counts, attempts: 0 };
    loop
        invariant
            poll.interval_seconds == interval_seconds,
            poll.max_attempts == counts,
            poll.wf(),
            responses@.len() >= counts,
            forall|j: int| 0 <= j < poll.attempts ==> responses.deep_view()[j] is None,
        decreases counts - poll.attempts,
    {
        match poll.next_command() {
            PollCommand::GiveUp => {
                proof {
                    vstd::arithmetic::mul::lemma_mul_inequality(
                        round_trips_of(PollOutcome::TimedOut { round_trips: poll.attempts }) as int,
                        counts as int,
                        interval_seconds as int,
                    );
                }
                return PollOutcome::TimedOut { round_trips: poll.attempts };
            },
            PollCommand::SleepAndFetch { seconds: _ } => {
                let idx = poll.attempts as usize;
                proof {
                    assert(responses.deep_view()[idx as int] == responses@[idx as int].deep_view());
                }
                match &responses[idx] {
                    Some(s) => {
                        let rt = poll.attempts + 1;
                        proof {
                            vstd::arithmetic::mul::lemma_mul_inequality(
                                rt as int,
                                counts as int,
                                interval_seconds as int,
                            );
                        }
                        return PollOutcome::Found { result: s.clone(), round_trips: rt };
                    },
                    None => {
                        poll.record_miss();
                    },
                }
            },
        }
    }
}

} // verus!
