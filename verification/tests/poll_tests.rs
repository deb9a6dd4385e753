use jenkins_runner::poll::{run_result_poll, BoundedPoll, PollCommand, PollOutcome};
use jenkins_runner::resolve::_JenkinsJobConfig;

fn job(interval: u64, counts: u32) -> _JenkinsJobConfig {
    _JenkinsJobConfig {
        name: "app".to_string(),
        instance_name: "default".to_string(),
        build: "build".to_string(),
        poll_build_result_interval_second: interval,
        poll_build_result_counts: counts,
        parameters: None,
    }
}

#[test]
fn result_after_two_nulls_takes_three_round_trips() {
    let responses = vec![None, None, Some("SUCCESS".to_string())];
    let r = run_result_poll(&responses, 1, 10);
    match r {
        PollOutcome::Found { result, round_trips } => {
            assert_eq!(result, "SUCCESS");
            assert_eq!(round_trips, 3);
        }
        PollOutcome::TimedOut { .. } => panic!("poll should have found the result"),
    }
}

#[test]
fn poll_times_out_after_exactly_the_configured_attempts() {
    let responses = vec![None, None, None, None, None];
    let r = run_result_poll(&responses, 2, 5);
    assert_eq!(r, PollOutcome::TimedOut { round_trips: 5 });
}

#[test]
fn poll_ignores_results_beyond_the_cap() {
    let responses = vec![None, None, Some("SUCCESS".to_string())];
    let r = run_result_poll(&responses, 2, 2);
    assert_eq!(r, PollOutcome::TimedOut { round_trips: 2 });
}

#[test]
fn immediate_result_takes_one_round_trip() {
    let responses = vec![Some("FAILURE".to_string())];
    let r = run_result_poll(&responses, 3, 1);
    assert_eq!(
        r,
        PollOutcome::Found { result: "FAILURE".to_string(), round_trips: 1 }
    );
}

#[test]
fn locate_poll_uses_the_fixed_policy() {
    let mut p = BoundedPoll::new_locate();
    assert_eq!(p.next_command(), PollCommand::SleepAndFetch { seconds: 3 });
    for _ in 0..30 {
        assert_ne!(p.next_command(), PollCommand::GiveUp);
        p.record_miss();
    }
    assert_eq!(p.next_command(), PollCommand::GiveUp);
}

#[test]
fn result_poll_uses_the_job_policy() {
    let p = BoundedPoll::new_result(&job(9, 4));
    assert_eq!(p.next_command(), PollCommand::SleepAndFetch { seconds: 9 });
    assert_eq!(p.max_attempts, 4);
}
