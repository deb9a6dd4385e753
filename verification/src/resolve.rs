//! The job resolver: expands the raw job-list text into an ordered list of
//! fully-resolved per-job execution parameters, falling back from job-level
//! to instance-level to global defaults.

use vstd::prelude::*;
use crate::config::{JenkinsConfig, JenkinsInstanceConfig, JenkinsJobConfig};
use crate::outcome::ConfigError;
use crate::text::{
    is_marker, marker_name, parse_marker, split_lines, split_lines_spec, str_eq, trim, trim_spec,
    clone_pairs,
};

verus! {

/// A fully resolved job: every required field present, ready to be cloned
/// into one concurrent unit of work.
#[derive(Debug, Clone)]
pub struct _JenkinsJobConfig {
    pub name: String,
    pub instance_name: String,
    pub build: String,
    pub poll_build_result_interval_second: u64,
    pub poll_build_result_counts: u32,
    pub parameters: Option<Vec<(String, String)>>,
}

/// The mathematical content of a resolved job.
pub struct JobSpecView {
    pub name: Seq<char>,
    pub instance_name: Seq<char>,
    pub build: Seq<char>,
    pub poll_build_result_interval_second: u64,
    pub poll_build_result_counts: u32,
    pub parameters: Option<Seq<(Seq<char>, Seq<char>)>>,
}

impl View for _JenkinsJobConfig {
    type V = JobSpecView;

    open spec fn view(&self) -> JobSpecView {
        JobSpecView {
            name: self.name@,
            instance_name: self.instance_name@,
            build: self.build@,
            poll_build_result_interval_second: self.poll_build_result_interval_second,
            poll_build_result_counts: self.poll_build_result_counts,
            parameters: self.parameters.deep_view(),
        }
    }
}

impl DeepView for _JenkinsJobConfig {
    type V = JobSpecView;

    open spec fn deep_view(&self) -> JobSpecView {
        self.view()
    }
}

/// A job configuration with no layer filled in: what a job that the
/// configuration never mentions resolves against.
pub open spec fn empty_job_overrides() -> JenkinsJobConfig {
    JenkinsJobConfig {
        build: None,
        poll_build_result_interval_second: None,
        poll_build_result_counts: None,
        parameters: None,
    }
}

/// The configured instance a name refers to: the last entry with that name,
/// as a scan that keeps overwriting its match would select it.
pub open spec fn find_instance(
    instances: Seq<JenkinsInstanceConfig>,
    name: Seq<char>,
) -> Option<JenkinsInstanceConfig>
    decreases instances.len(),
{
    if instances.len() == 0 {
        None
    } else if instances.last().name@ == name {
        Some(instances.last())
    } else {
        find_instance(instances.drop_last(), name)
    }
}

/// The first entry of the per-job override table with the given name.
pub open spec fn find_job(
    jobs: Seq<(String, JenkinsJobConfig)>,
    name: Seq<char>,
) -> Option<JenkinsJobConfig>
    decreases jobs.len(),
{
    if jobs.len() == 0 {
        None
    } else if jobs[0].0@ == name {
        Some(jobs[0].1)
    } else {
        find_job(jobs.drop_first(), name)
    }
}

/// The job-level override entry for a job, if its instance carries one.
pub open spec fn job_layer(instance: JenkinsInstanceConfig, job: Seq<char>) -> Option<
    JenkinsJobConfig,
> {
    match instance.jobs {
        Some(jobs) => find_job(jobs@, job),
        None => None,
    }
}

/// The job-level override entry, or the empty one when none exists.
pub open spec fn job_layer_or_empty(instance: JenkinsInstanceConfig, job: Seq<char>) -> JenkinsJobConfig {
    match job_layer(instance, job) {
        Some(c) => c,
        None => empty_job_overrides(),
    }
}

/// What resolving one job against the configuration yields: the resolved
/// parameters, or the first configuration error in the order the fields are
/// checked (instance, build path, poll interval, poll attempt count).
pub open spec fn resolve_job(
    job: Seq<char>,
    instance_name: Seq<char>,
    config: JenkinsConfig,
) -> Result<JobSpecView, ConfigError> {
    match find_instance(config.instances@, instance_name) {
        None => Err(ConfigError::UnknownInstance),
        Some(inst) => {
            let jc = job_layer_or_empty(inst, job);
            if jc.effective_build(&inst, &config) is None {
                Err(ConfigError::MissingBuild)
            } else if jc.effective_poll_interval(&inst, &config) is None {
                Err(ConfigError::MissingPollIntervalSecond)
            } else if jc.effective_poll_counts(&inst, &config) is None {
                Err(ConfigError::MissingPollCounts)
            } else {
                Ok(
                    JobSpecView {
                        name: job,
                        instance_name: inst.name@,
                        build: jc.effective_build(&inst, &config)->Some_0,
                        poll_build_result_interval_second: jc.effective_poll_interval(
                            &inst,
                            &config,
                        )->Some_0,
                        poll_build_result_counts: jc.effective_poll_counts(&inst, &config)->Some_0,
                        parameters: match job_layer(inst, job) {
                            Some(c) => c.parameters.deep_view(),
                            None => None,
                        },
                    },
                )
            }
        },
    }
}

impl _JenkinsJobConfig {
    /// Fill the required fields of a job the configuration never mentions:
    /// instance-level defaults, then global ones. Job parameters stay absent.
    pub fn set_value_from_initial(
        &mut self,
        instance: &JenkinsInstanceConfig,
        global: &JenkinsConfig,
    ) -> (r: Result<(), ConfigError>)
        ensures
            r is Ok <==> {
                &&& empty_job_overrides().effective_build(instance, global) is Some
                &&& empty_job_overrides().effective_poll_interval(instance, global) is Some
                &&& empty_job_overrides().effective_poll_counts(instance, global) is Some
            },
            r matches Ok(()) ==> final(self)@ == (JobSpecView {
                build: empty_job_overrides().effective_build(instance, global)->Some_0,
                poll_build_result_interval_second: empty_job_overrides().effective_poll_interval(
                    instance,
                    global,
                )->Some_0,
                poll_build_result_counts: empty_job_overrides().effective_poll_counts(
                    instance,
                    global,
                )->Some_0,
                parameters: None,
                ..old(self)@
            }),
            r matches Err(e) ==> {
                &&& *final(self) == *old(self)
                &&& e == (if empty_job_overrides().effective_build(instance, global) is None {
                    ConfigError::MissingBuild
                } else if empty_job_overrides().effective_poll_interval(instance, global) is None {
                    ConfigError::MissingPollIntervalSecond
                } else {
                    ConfigError::MissingPollCounts
                })
            },
    {
        let empty = JenkinsJobConfig {
            build: None,
            poll_build_result_interval_second: None,
            poll_build_result_counts: None,
            parameters: None,
        };
        self.set_value_from_another(&empty, instance, global)
    }

    /// Fill the required fields from a job-level override entry, falling back
    /// to instance-level and global defaults field by field; carry the job's
    /// form parameters over.
    pub fn set_value_from_another(
        &mut self,
        obj: &JenkinsJobConfig,
        instance: &JenkinsInstanceConfig,
        global: &JenkinsConfig,
    ) -> (r: Result<(), ConfigError>)
        ensures
            r is Ok <==> {
                &&& obj.effective_build(instance, global) is Some
                &&& obj.effective_poll_interval(instance, global) is Some
                &&& obj.effective_poll_counts(instance, global) is Some
            },
            r matches Ok(()) ==> final(self)@ == (JobSpecView {
                build: obj.effective_build(instance, global)->Some_0,
                poll_build_result_interval_second: obj.effective_poll_interval(
                    instance,
                    global,
                )->Some_0,
                poll_build_result_counts: obj.effective_poll_counts(instance, global)->Some_0,
                parameters: obj.parameters.deep_view(),
                ..old(self)@
            }),
            r matches Err(e) ==> {
                &&& *final(self) == *old(self)
                &&& e == (if obj.effective_build(instance, global) is None {
                    ConfigError::MissingBuild
                } else if obj.effective_poll_interval(instance, global) is None {
                    ConfigError::MissingPollIntervalSecond
                } else {
                    ConfigError::MissingPollCounts
                })
            },
    {
        let build = match obj.get_build(instance, global) {
            Ok(v) => v,
            Err(e) => {
                return Err(e);
            },
        };
        let interval = match obj.get_poll_build_result_interval_second(instance, global) {
            Ok(v) => v,
            Err(e) => {
                return Err(e);
            },
        };
        let counts = match obj.get_poll_build_result_counts(instance, global) {
            Ok(v) => v,
            Err(e) => {
                return Err(e);
            },
        };
        self.build = build;
        self.poll_build_result_interval_second = interval;
        self.poll_build_result_counts = counts;
        self.parameters = match &obj.parameters {
            Some(m) => Some(clone_pairs(m)),
            None => None,
        };
        Ok(())
    }
}

proof fn lemma_find_instance_at(instances: Seq<JenkinsInstanceConfig>, name: Seq<char>, k: int)
    requires
        0 <= k < instances.len(),
        instances[k].name@ == name,
        forall|j: int| k < j < instances.len() ==> instances[j].name@ != name,
    ensures
        find_instance(instances, name) == Some(instances[k]),
    decreases instances.len(),
{
    if k == instances.len() - 1 {
    } else {
        let t = instances.drop_last();
        assert(forall|j: int| k < j < t.len() ==> t[j].name@ != name);
        lemma_find_instance_at(t, name, k);
    }
}

proof fn lemma_find_instance_none(instances: Seq<JenkinsInstanceConfig>, name: Seq<char>)
    requires
        forall|j: int| 0 <= j < instances.len() ==> instances[j].name@ != name,
    ensures
        find_instance(instances, name) is None,
    decreases instances.len(),
{
    if instances.len() > 0 {
        let t = instances.drop_last();
        assert(forall|j: int| 0 <= j < t.len() ==> t[j].name@ != name);
        lemma_find_instance_none(t, name);
    }
}

proof fn lemma_find_job_at(jobs: Seq<(String, JenkinsJobConfig)>, name: Seq<char>, k: int)
    requires
        0 <= k < jobs.len(),
        jobs[k].0@ == name,
        forall|j: int| 0 <= j < k ==> jobs[j].0@ != name,
    ensures
        find_job(jobs, name) == Some(jobs[k].1),
    decreases jobs.len(),
{
    if k == 0 {
    } else {
        let t = jobs.drop_first();
        assert(forall|j: int| 0 <= j < k - 1 ==> t[j].0@ != name);
        lemma_find_job_at(t, name, k - 1);
    }
}

proof fn lemma_find_job_none(jobs: Seq<(String, JenkinsJobConfig)>, name: Seq<char>)
    requires
        forall|j: int| 0 <= j < jobs.len() ==> jobs[j].0@ != name,
    ensures
        find_job(jobs, name) is None,
    decreases jobs.len(),
{
    if jobs.len() > 0 {
        let t = jobs.drop_first();
        assert(forall|j: int| 0 <= j < t.len() ==> t[j].0@ != name);
        lemma_find_job_none(t, name);
    }
}

/// Resolve one job name against the instance currently in scope: find the
/// instance's configuration entry, then merge the three layers.
pub fn get_job_config(job: &str, jenkins_instance: &str, config: &JenkinsConfig) -> (r: Result<
    _JenkinsJobConfig,
    ConfigError,
>)
    ensures
        match r {
            Ok(j) => resolve_job(job@, jenkins_instance@, *config) == Ok::<JobSpecView, ConfigError>(j@),
            Err(e) => resolve_job(job@, jenkins_instance@, *config) == Err::<JobSpecView, ConfigError>(e),
        },
{
    let n = config.instances.len();
    let mut found: Option<usize> = None;
    let mut i: usize = 0;
    while i < n
        invariant
            n == config.instances@.len(),
            0 <= i <= n,
            match found {
                Some(k) => k < i && config.instances@[k as int].name@ == jenkins_instance@
                    && forall|j: int|
                        k < j < i ==> config.instances@[j].name@ != jenkins_instance@,
                None => forall|j: int| 0 <= j < i ==> config.instances@[j].name@ != jenkins_instance@,
            },
        decreases n - i,
    {
        if str_eq(config.instances[i].name.as_str(), jenkins_instance) {
            found = Some(i);
        }
        i = i + 1;
    }
    let k = match found {
        Some(k) => k,
        None => {
            proof {
                lemma_find_instance_none(config.instances@, jenkins_instance@);
            }
            return Err(ConfigError::UnknownInstance);
        },
    };
    proof {
        lemma_find_instance_at(config.instances@, jenkins_instance@, k as int);
    }
    let instance = &config.instances[k];
    let mut job_config = _JenkinsJobConfig {
        name: String::from_str(job),
        instance_name: instance.name.clone(),
        build: String::new(),
        poll_build_result_interval_second: 0,
        poll_build_result_counts: 0,
        parameters: None,
    };
    let step = match &instance.jobs {
        Some(jobs_list) => {
            let m = jobs_list.len();
            let mut hit: Option<usize> = None;
            let mut t: usize = 0;
            while t < m
                invariant
                    m == jobs_list@.len(),
                    0 <= t <= m,
                    match hit {
                        Some(h) => h < t && jobs_list@[h as int].0@ == job@ && forall|j: int|
                            0 <= j < h ==> jobs_list@[j].0@ != job@,
                        None => forall|j: int| 0 <= j < t ==> jobs_list@[j].0@ != job@,
                    },
                decreases m - t,
            {
                if hit.is_none() && str_eq(jobs_list[t].0.as_str(), job) {
                    hit = Some(t);
                }
                t = t + 1;
            }
            match hit {
                Some(h) => {
                    proof {
                        lemma_find_job_at(jobs_list@, job@, h as int);
                    }
                    job_config.set_value_from_another(&jobs_list[h].1, instance, config)
                },
                None => {
                    proof {
                        lemma_find_job_none(jobs_list@, job@);
                    }
                    job_config.set_value_from_initial(instance, config)
                },
            }
        },
        None => job_config.set_value_from_initial(instance, config),
    };
    match step {
        Ok(()) => Ok(job_config),
        Err(e) => Err(e),
    }
}

/// The (instance name, job name) pairs the job list yields, in input order:
/// blank lines are skipped, `[name]` markers switch the instance in scope for
/// the lines after them, and every other line is a job under the instance
/// currently in scope.
pub open spec fn job_entries(lines: Seq<Seq<char>>, current: Seq<char>) -> Seq<
    (Seq<char>, Seq<char>),
>
    decreases lines.len(),
{
    if lines.len() == 0 {
        Seq::empty()
    } else {
        let t = trim_spec(lines[0]);
        if t.len() == 0 {
            job_entries(lines.drop_first(), current)
        } else if is_marker(t) {
            job_entries(lines.drop_first(), marker_name(t))
        } else {
            seq![(current, t)] + job_entries(lines.drop_first(), current)
        }
    }
}

/// The entries of the whole job-list text, starting under the first
/// configured instance.
pub open spec fn all_job_entries(content: Seq<char>, config: JenkinsConfig) -> Seq<
    (Seq<char>, Seq<char>),
>
    recommends
        config.instances@.len() > 0,
{
    job_entries(split_lines_spec(content), config.instances@[0].name@)
}

/// Expand the job-list text into the ordered list of resolved jobs. Returns
/// the resolution error of the first job that fails, and succeeds exactly
/// when every entry resolves; the output preserves input order.
pub fn get_all_jobs(content: &str, config: &JenkinsConfig) -> (r: Result<
    Vec<_JenkinsJobConfig>,
    ConfigError,
>)
    requires
        config.instances@.len() > 0,
    ensures
        match r {
            Ok(v) => {
                &&& v.deep_view().len() == all_job_entries(content@, *config).len()
                &&& forall|k: int|
                    0 <= k < all_job_entries(content@, *config).len() ==> resolve_job(
                        all_job_entries(content@, *config)[k].1,
                        all_job_entries(content@, *config)[k].0,
                        *config,
                    ) == Ok::<JobSpecView, ConfigError>(v.deep_view()[k])
            },
            Err(e) => exists|k: int|
                {
                    &&& 0 <= k < all_job_entries(content@, *config).len()
                    &&& resolve_job(
                        all_job_entries(content@, *config)[k].1,
                        all_job_entries(content@, *config)[k].0,
                        *config,
                    ) == Err::<JobSpecView, ConfigError>(e)
                    &&& forall|j: int|
                        0 <= j < k ==> resolve_job(
                            all_job_entries(content@, *config)[j].1,
                            all_job_entries(content@, *config)[j].0,
                            *config,
                        ) is Ok
                },
        },
{
    let lines = split_lines(content);
    let mut current: String = config.instances[0].name.clone();
    let mut jobs: Vec<_JenkinsJobConfig> = Vec::new();
    let ghost mut done: Seq<(Seq<char>, Seq<char>)> = Seq::empty();
    let mut li: usize = 0;
    proof {
        assert(lines.deep_view().skip(0) =~= lines.deep_view());
        assert(Seq::<(Seq<char>, Seq<char>)>::empty() + all_job_entries(content@, *config)
            =~= all_job_entries(content@, *config));
    }
    while li < lines.len()
        invariant
            config.instances@.len() > 0,
            lines.deep_view() == split_lines_spec(content@),
            0 <= li <= lines@.len(),
            all_job_entries(content@, *config) == done + job_entries(
                lines.deep_view().skip(li as int),
                current@,
            ),
            jobs.deep_view().len() == done.len(),
            forall|k: int|
                0 <= k < done.len() ==> resolve_job(done[k].1, done[k].0, *config) == Ok::<JobSpecView, ConfigError>(
                    jobs.deep_view()[k],
                ),
        decreases lines@.len() - li,
    {
        let ghost lv = lines.deep_view();
        let ghost suffix = lv.skip(li as int);
        proof {
            assert(suffix[0] == lv[li as int]);
            assert(lv[li as int] == lines@[li as int]@);
            assert(suffix.drop_first() =~= lv.skip(li as int + 1));
        }
        let line = &lines[li];
        let t = trim(line.as_str());
        if t.is_empty() {
            // blank line: skipped
        } else {
            match parse_marker(t) {
                Some(name) => {
                    current = name;
                },
                None => {
                    let ghost prev_done = done;
                    let ghost prev_jobs = jobs.deep_view();
                    proof {
                        assert(job_entries(suffix, current@) == seq![(current@, t@)]
                            + job_entries(suffix.drop_first(), current@));
                        assert((prev_done + (seq![(current@, t@)] + job_entries(
                            suffix.drop_first(),
                            current@,
                        ))) =~= (prev_done.push((current@, t@)) + job_entries(
                            suffix.drop_first(),
                            current@,
                        )));
                    }
                    match get_job_config(t, current.as_str(), config) {
                        Ok(jc) => {
                            jobs.push(jc);
                            proof {
                                done = prev_done.push((current@, t@));
                                assert(jobs.deep_view() =~= prev_jobs.push(jc@));
                            }
                        },
                        Err(e) => {
                            proof {
                                let entries = all_job_entries(content@, *config);
                                let k = prev_done.len() as int;
                                assert(entries.len() == k + 1 + job_entries(
                                    suffix.drop_first(),
                                    current@,
                                ).len());
                                assert(entries[k] == (current@, t@));
                                assert(forall|j: int| 0 <= j < k ==> entries[j] == prev_done[j]);
                                assert(resolve_job(entries[k].1, entries[k].0, *config)
                                    == Err::<JobSpecView, ConfigError>(e));
                                assert forall|j: int|
                                    0 <= j < k implies resolve_job(
                                    entries[j].1,
                                    entries[j].0,
                                    *config,
                                ) is Ok by {
                                    assert(entries[j] == prev_done[j]);
                                    assert(resolve_job(prev_done[j].1, prev_done[j].0, *config)
                                        == Ok::<JobSpecView, ConfigError>(jobs.deep_view()[j]));
                                }
                                assert({
                                    &&& 0 <= k < entries.len()
                                    &&& resolve_job(entries[k].1, entries[k].0, *config)
                                        == Err::<JobSpecView, ConfigError>(e)
                                    &&& forall|j: int|
                                        0 <= j < k ==> resolve_job(
                                            entries[j].1,
                                            entries[j].0,
                                            *config,
                                        ) is Ok
                                });
                            }
                            return Err(e);
                        },
                    }
                },
            }
        }
        li = li + 1;
    }
    proof {
        assert(lines.deep_view().skip(lines@.len() as int) =~= Seq::<Seq<char>>::empty());
        assert(job_entries(Seq::empty(), current@) =~= Seq::<(Seq<char>, Seq<char>)>::empty());
        assert(done + Seq::<(Seq<char>, Seq<char>)>::empty() =~= done);
    }
    Ok(jobs)
}

/// Law: resolution falls back layer by layer. A job with no override takes
/// the instance-level value; when the instance defines none either, the
/// global value; and when no layer defines a required field, resolving the
/// job fails with the matching configuration error before any network work
/// could start.
pub proof fn lemma_resolution_fallback(
    job: Seq<char>,
    instance_name: Seq<char>,
    config: JenkinsConfig,
    inst: JenkinsInstanceConfig,
)
    requires
        find_instance(config.instances@, instance_name) == Some(inst),
    ensures
        ({
            let jc = job_layer_or_empty(inst, job);
            &&& jc.build is None ==> jc.effective_build(&inst, &config) == (if inst.build is Some {
                inst.build.deep_view()
            } else {
                config.build.deep_view()
            })
            &&& jc.poll_build_result_interval_second is None ==> jc.effective_poll_interval(
                &inst,
                &config,
            ) == (if inst.poll_build_result_interval_second is Some {
                inst.poll_build_result_interval_second
            } else {
                config.poll_build_result_interval_second
            })
            &&& jc.poll_build_result_counts is None ==> jc.effective_poll_counts(&inst, &config)
                == (if inst.poll_build_result_counts is Some {
                inst.poll_build_result_counts
            } else {
                config.poll_build_result_counts
            })
            &&& jc.effective_build(&inst, &config) is None ==> resolve_job(
                job,
                instance_name,
                config,
            ) == Err::<JobSpecView, ConfigError>(ConfigError::MissingBuild)
            &&& jc.effective_build(&inst, &config) is Some && jc.effective_poll_interval(
                &inst,
                &config,
            ) is None ==> resolve_job(job, instance_name, config) == Err::<JobSpecView, ConfigError>(
                ConfigError::MissingPollIntervalSecond,
            )
            &&& jc.effective_build(&inst, &config) is Some && jc.effective_poll_interval(
                &inst,
                &config,
            ) is Some && jc.effective_poll_counts(&inst, &config) is None ==> resolve_job(
                job,
                instance_name,
                config,
            ) == Err::<JobSpecView, ConfigError>(ConfigError::MissingPollCounts)
        }),
{
}

} // verus!
