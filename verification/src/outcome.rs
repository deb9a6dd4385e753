//! Error and outcome types: configuration errors abort the whole run before
//! any job starts; per-job errors become that job's displayed outcome.

use vstd::prelude::*;

verus! {

/// A fatal configuration failure, detected before any job is launched.
#[derive(Debug, Clone, Copy, PartialEq, Eq, Structural)]
pub enum ConfigError {
    /// No layer (job, instance, global) defines the build path.
    MissingBuild,
    /// No layer defines the result-poll interval.
    MissingPollIntervalSecond,
    /// No layer defines the result-poll attempt count.
    MissingPollCounts,
    /// The job list names an instance with no configuration entry.
    UnknownInstance,
    /// An instance's base URL is not syntactically valid.
    InvalidInstanceUrl,
}

impl ConfigError {
    /// The fixed description of each configuration error.
    pub open spec fn describe_spec(self) -> Seq<char> {
        match self {
            ConfigError::MissingBuild => "Missing job or global `build` configuration"@,
            ConfigError::MissingPollIntervalSecond => "Missing job or global `poll_build_result_interval_second` configuration"@,
            ConfigError::MissingPollCounts => "Missing job or global `poll_build_result_counts` configuration"@,
            ConfigError::UnknownInstance => "No related jenkins configuration for the named instance"@,
            ConfigError::InvalidInstanceUrl => "Invalid jenkins instance url"@,
        }
    }

    pub fn describe(&self) -> (r: String)
        ensures
            r@ == self.describe_spec(),
    {
        match self {
            ConfigError::MissingBuild => String::from_str("Missing job or global `build` configuration"),
            ConfigError::MissingPollIntervalSecond => String::from_str("Missing job or global `poll_build_result_interval_second` configuration"),
            ConfigError::MissingPollCounts => String::from_str("Missing job or global `poll_build_result_counts` configuration"),
            ConfigError::UnknownInstance => String::from_str("No related jenkins configuration for the named instance"),
            ConfigError::InvalidInstanceUrl => String::from_str("Invalid jenkins instance url"),
        }
    }
}

/// A failure scoped to a single job; it becomes that job's outcome text and
/// never aborts sibling jobs.
#[derive(Debug, Clone, PartialEq, Eq)]
pub enum JobError {
    /// Transport-level failure (connection, HTTP error) on the given URL.
    Network { url: String },
    /// The response lacked an expected header or field for the given URL.
    Protocol { url: String },
    /// A bounded poll on the given URL exhausted its attempt cap.
    Timeout { url: String },
}

impl JobError {
    /// The displayed description: a fixed prefix followed by the URL.
    pub open spec fn describe_spec(self) -> Seq<char> {
        match self {
            JobError::Network { url } => "Failed to get "@ + url@,
            JobError::Protocol { url } => "Missing expected field in response from "@ + url@,
            JobError::Timeout { url } => "Getting building result timeout on "@ + url@,
        }
    }

    pub fn describe(&self) -> (r: String)
        ensures
            r@ == self.describe_spec(),
    {
        let mut s: String = match self {
            JobError::Network { url: _ } => String::from_str("Failed to get "),
            JobError::Protocol { url: _ } => String::from_str("Missing expected field in response from "),
            JobError::Timeout { url: _ } => String::from_str("Getting building result timeout on "),
        };
        match self {
            JobError::Network { url } => s.append(url.as_str()),
            JobError::Protocol { url } => s.append(url.as_str()),
            JobError::Timeout { url } => s.append(url.as_str()),
        }
        s
    }
}

/// The terminal state of one job: the result string the remote server
/// reported, or a local failure description. Exactly one is produced per job.
#[derive(Debug, Clone, PartialEq, Eq)]
pub enum JobOutcome {
    /// The remote server reported this terminal result (e.g. a success or
    /// failure word of its own vocabulary).
    Finished { result: String },
    /// The job failed locally before a remote result was obtained.
    Failed { error: JobError },
}

impl JobOutcome {
    /// What the renderer shows for this outcome.
    pub open spec fn display_spec(self) -> Seq<char> {
        match self {
            JobOutcome::Finished { result } => result@,
            JobOutcome::Failed { error } => error.describe_spec(),
        }
    }

    pub fn display(&self) -> (r: String)
        ensures
            r@ == self.display_spec(),
    {
        match self {
            JobOutcome::Finished { result } => result.clone(),
            JobOutcome::Failed { error } => error.describe(),
        }
    }
}

} // verus!
