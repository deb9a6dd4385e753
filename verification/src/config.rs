//! Configuration model: a registry of remote CI instances plus layered
//! defaults. A job's effective parameters are resolved in priority order
//! job override -> instance default -> global default; resolution fails if a
//! required field is absent at all three layers.

use vstd::prelude::*;
use crate::outcome::ConfigError;

verus! {

/// Per-job configuration overrides, all optional.
#[derive(Debug, Clone)]
pub struct JenkinsJobConfig {
    pub build: Option<String>,
    pub poll_build_result_interval_second: Option<u64>,
    pub poll_build_result_counts: Option<u32>,
    pub parameters: Option<Vec<(String, String)>>,
}

/// One configured remote CI server: base URL, credentials, instance-level
/// defaults, and an optional per-job override table (an association list).
#[derive(Debug, Clone)]
pub struct JenkinsInstanceConfig {
    pub name: String,
    pub url: String,
    pub user: String,
    pub password: String,
    pub build: Option<String>,
    pub poll_build_result_interval_second: Option<u64>,
    pub poll_build_result_counts: Option<u32>,
    pub jobs: Option<Vec<(String, JenkinsJobConfig)>>,
}

/// Global defaults and the instance registry.
#[derive(Debug, Clone)]
pub struct JenkinsConfig {
    pub build: Option<String>,
    pub poll_build_result_interval_second: Option<u64>,
    pub poll_build_result_counts: Option<u32>,
    pub instances: Vec<JenkinsInstanceConfig>,
}

/// Where the job list file lives.
#[derive(Debug, Clone)]
pub struct FileConfig {
    pub path: String,
}

/// The whole loaded configuration, built once at startup and read-only after.
#[derive(Debug, Clone)]
pub struct Config {
    pub jenkins: JenkinsConfig,
    pub file: FileConfig,
}

/// Layered fallback: the job-level value if present, else the instance-level
/// value, else the global one.
pub open spec fn first_defined<A>(job: Option<A>, instance: Option<A>, global: Option<A>) -> Option<A> {
    if job is Some {
        job
    } else if instance is Some {
        instance
    } else {
        global
    }
}

impl JenkinsJobConfig {
    /// The effective build path for this job under the given instance and
    /// global defaults, if any layer defines one.
    pub open spec fn effective_build(
        &self,
        instance: &JenkinsInstanceConfig,
        global: &JenkinsConfig,
    ) -> Option<Seq<char>> {
        first_defined(self.build.deep_view(), instance.build.deep_view(), global.build.deep_view())
    }

    /// The effective result-poll interval, if any layer defines one.
    pub open spec fn effective_poll_interval(
        &self,
        instance: &JenkinsInstanceConfig,
        global: &JenkinsConfig,
    ) -> Option<u64> {
        first_defined(
            self.poll_build_result_interval_second,
            instance.poll_build_result_interval_second,
            global.poll_build_result_interval_second,
        )
    }

    /// The effective result-poll attempt count, if any layer defines one.
    pub open spec fn effective_poll_counts(
        &self,
        instance: &JenkinsInstanceConfig,
        global: &JenkinsConfig,
    ) -> Option<u32> {
        first_defined(
            self.poll_build_result_counts,
            instance.poll_build_result_counts,
            global.poll_build_result_counts,
        )
    }

    /// Resolve the build path: job override, else instance default, else the
    /// global default; an error only when all three layers leave it out.
    pub fn get_build(
        &self,
        instance: &JenkinsInstanceConfig,
        global: &JenkinsConfig,
    ) -> (r: Result<String, ConfigError>)
        ensures
            match r {
                Ok(b) => self.effective_build(instance, global) == Some(b@),
                Err(e) => e == ConfigError::MissingBuild && self.effective_build(instance, global) is None,
            },
    {
        match &self.build {
            Some(v) => Ok(v.clone()),
            None => match &instance.build {
                Some(v) => Ok(v.clone()),
                None => match &global.build {
                    Some(v) => Ok(v.clone()),
                    None => Err(ConfigError::MissingBuild),
                },
            },
        }
    }

    /// Resolve the result-poll interval through the same three layers.
    pub fn get_poll_build_result_interval_second(
        &self,
        instance: &JenkinsInstanceConfig,
        global: &JenkinsConfig,
    ) -> (r: Result<u64, ConfigError>)
        ensures
            match r {
                Ok(v) => self.effective_poll_interval(instance, global) == Some(v),
                Err(e) => e == ConfigError::MissingPollIntervalSecond
                    && self.effective_poll_interval(instance, global) is None,
            },
    {
        match &self.poll_build_result_interval_second {
            Some(v) => Ok(*v),
            None => match &instance.poll_build_result_interval_second {
                Some(v) => Ok(*v),
                None => match &global.poll_build_result_interval_second {
                    Some(v) => Ok(*v),
                    None => Err(ConfigError::MissingPollIntervalSecond),
                },
            },
        }
    }

    /// Resolve the result-poll attempt count through the same three layers.
    pub fn get_poll_build_result_counts(
        &self,
        instance: &JenkinsInstanceConfig,
        global: &JenkinsConfig,
    ) -> (r: Result<u32, ConfigError>)
        ensures
            match r {
                Ok(v) => self.effective_poll_counts(instance, global) == Some(v),
                Err(e) => e == ConfigError::MissingPollCounts
                    && self.effective_poll_counts(instance, global) is None,
            },
    {
        match &self.poll_build_result_counts {
            Some(v) => Ok(*v),
            None => match &instance.poll_build_result_counts {
                Some(v) => Ok(*v),
                None => match &global.poll_build_result_counts {
                    Some(v) => Ok(*v),
                    None => Err(ConfigError::MissingPollCounts),
                },
            },
        }
    }
}

/// Whether a string is a syntactically valid absolute URL, as the `url`
/// crate's parser judges it.
pub uninterp spec fn url_ok(s: Seq<char>) -> bool;

/// Relies on url::Url::parse: whether parsing succeeds depends on the input
/// string alone.
#[verifier::external_body]
fn parse_url_ok(s: &str) -> (r: bool)
    ensures
        r == url_ok(s@),
{
    url::Url::parse(s).is_ok()
}

impl JenkinsInstanceConfig {
    /// Accepts the instance exactly when its base URL is syntactically valid.
    pub fn validate(&self) -> (r: Result<(), ConfigError>)
        ensures
            r is Ok <==> url_ok(self.url@),
            r is Err ==> r->Err_0 == ConfigError::InvalidInstanceUrl,
    {
        if parse_url_ok(self.url.as_str()) {
            Ok(())
        } else {
            Err(ConfigError::InvalidInstanceUrl)
        }
    }
}

impl Config {
    /// Accepts the configuration exactly when every instance's base URL is
    /// syntactically valid.
    pub fn validate(&self) -> (r: Result<(), ConfigError>)
        ensures
            r is Ok <==> forall|i: int|
                0 <= i < self.jenkins.instances@.len() ==> url_ok(self.jenkins.instances@[i].url@),
            r is Err ==> r->Err_0 == ConfigError::InvalidInstanceUrl,
    {
        let n = self.jenkins.instances.len();
        let mut k: usize = 0;
        while k < n
            invariant
                n == self.jenkins.instances@.len(),
                k <= n,
                forall|i: int| 0 <= i < k ==> url_ok(self.jenkins.instances@[i].url@),
            decreases n - k,
        {
            let instance = &self.jenkins.instances[k];
            match instance.validate() {
                Ok(()) => {},
                Err(e) => {
                    return Err(e);
                },
            }
            k = k + 1;
        }
        Ok(())
    }
}

} // verus!
