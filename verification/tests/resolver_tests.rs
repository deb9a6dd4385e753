use jenkins_runner::config::{Config, FileConfig, JenkinsConfig, JenkinsInstanceConfig, JenkinsJobConfig};
use jenkins_runner::outcome::ConfigError;
use jenkins_runner::resolve::{get_all_jobs, get_job_config, _JenkinsJobConfig};

fn instance(name: &str) -> JenkinsInstanceConfig {
    JenkinsInstanceConfig {
        name: name.to_string(),
        url: "http://example.com/".to_string(),
        user: "user".to_string(),
        password: "pw".to_string(),
        build: None,
        poll_build_result_interval_second: None,
        poll_build_result_counts: None,
        jobs: None,
    }
}

fn global_with(instances: Vec<JenkinsInstanceConfig>) -> JenkinsConfig {
    JenkinsConfig {
        build: Some("build".to_string()),
        poll_build_result_interval_second: Some(5),
        poll_build_result_counts: Some(20),
        instances,
    }
}

fn job_overrides(build: Option<&str>, interval: Option<u64>, counts: Option<u32>) -> JenkinsJobConfig {
    JenkinsJobConfig {
        build: build.map(|s| s.to_string()),
        poll_build_result_interval_second: interval,
        poll_build_result_counts: counts,
        parameters: None,
    }
}

#[test]
fn job_level_override_wins() {
    let mut inst = instance("default");
    inst.build = Some("inst-build".to_string());
    inst.jobs = Some(vec![(
        "app".to_string(),
        job_overrides(Some("job-build"), Some(1), Some(2)),
    )]);
    let config = global_with(vec![inst]);
    let j = get_job_config("app", "default", &config).unwrap();
    assert_eq!(j.build, "job-build");
    assert_eq!(j.poll_build_result_interval_second, 1);
    assert_eq!(j.poll_build_result_counts, 2);
    assert_eq!(j.name, "app");
    assert_eq!(j.instance_name, "default");
}

#[test]
fn instance_level_fills_missing_job_fields() {
    let mut inst = instance("default");
    inst.build = Some("inst-build".to_string());
    inst.poll_build_result_interval_second = Some(7);
    inst.jobs = Some(vec![("app".to_string(), job_overrides(None, None, Some(3)))]);
    let config = global_with(vec![inst]);
    let j = get_job_config("app", "default", &config).unwrap();
    assert_eq!(j.build, "inst-build");
    assert_eq!(j.poll_build_result_interval_second, 7);
    assert_eq!(j.poll_build_result_counts, 3);
}

#[test]
fn global_level_fills_when_job_and_instance_define_nothing() {
    let config = global_with(vec![instance("default")]);
    let j = get_job_config("app", "default", &config).unwrap();
    assert_eq!(j.build, "build");
    assert_eq!(j.poll_build_result_interval_second, 5);
    assert_eq!(j.poll_build_result_counts, 20);
    assert!(j.parameters.is_none());
}

#[test]
fn missing_build_at_all_layers_fails() {
    let mut config = global_with(vec![instance("default")]);
    config.build = None;
    let e = get_job_config("app", "default", &config).unwrap_err();
    assert_eq!(e, ConfigError::MissingBuild);
}

#[test]
fn missing_interval_at_all_layers_fails() {
    let mut config = global_with(vec![instance("default")]);
    config.poll_build_result_interval_second = None;
    let e = get_job_config("app", "default", &config).unwrap_err();
    assert_eq!(e, ConfigError::MissingPollIntervalSecond);
}

#[test]
fn missing_counts_at_all_layers_fails() {
    let mut config = global_with(vec![instance("default")]);
    config.poll_build_result_counts = None;
    let e = get_job_config("app", "default", &config).unwrap_err();
    assert_eq!(e, ConfigError::MissingPollCounts);
}

#[test]
fn unknown_instance_fails() {
    let config = global_with(vec![instance("default")]);
    let e = get_job_config("app", "staging", &config).unwrap_err();
    assert_eq!(e, ConfigError::UnknownInstance);
}

#[test]
fn last_matching_instance_wins() {
    let mut first = instance("dup");
    first.build = Some("first-build".to_string());
    let mut second = instance("dup");
    second.build = Some("second-build".to_string());
    let config = global_with(vec![first, second]);
    let j = get_job_config("app", "dup", &config).unwrap();
    assert_eq!(j.build, "second-build");
}

#[test]
fn parameters_come_from_the_job_layer_alone() {
    let mut inst = instance("default");
    let mut overrides = job_overrides(None, None, None);
    overrides.parameters = Some(vec![("BRANCH".to_string(), "main".to_string())]);
    inst.jobs = Some(vec![("app".to_string(), overrides)]);
    let config = global_with(vec![inst]);
    let j = get_job_config("app", "default", &config).unwrap();
    let params = j.parameters.unwrap();
    assert_eq!(params, vec![("BRANCH".to_string(), "main".to_string())]);
}

fn blank_resolved_job() -> _JenkinsJobConfig {
    _JenkinsJobConfig {
        name: "app".to_string(),
        instance_name: "default".to_string(),
        build: String::new(),
        poll_build_result_interval_second: 0,
        poll_build_result_counts: 0,
        parameters: None,
    }
}

#[test]
fn set_value_from_initial_takes_instance_then_global_defaults() {
    let mut inst = instance("default");
    inst.poll_build_result_interval_second = Some(11);
    let config = global_with(vec![inst.clone()]);
    let mut j = blank_resolved_job();
    j.set_value_from_initial(&inst, &config).unwrap();
    assert_eq!(j.build, "build");
    assert_eq!(j.poll_build_result_interval_second, 11);
    assert_eq!(j.poll_build_result_counts, 20);
    assert!(j.parameters.is_none());
}

#[test]
fn set_value_from_initial_reports_the_first_missing_field() {
    let inst = instance("default");
    let mut config = global_with(vec![inst.clone()]);
    config.build = None;
    let mut j = blank_resolved_job();
    let e = j.set_value_from_initial(&inst, &config).unwrap_err();
    assert_eq!(e, ConfigError::MissingBuild);
}

#[test]
fn set_value_from_another_prefers_the_job_layer() {
    let inst = instance("default");
    let config = global_with(vec![inst.clone()]);
    let mut overrides = job_overrides(Some("job-build"), None, Some(2));
    overrides.parameters = Some(vec![("BRANCH".to_string(), "main".to_string())]);
    let mut j = blank_resolved_job();
    j.set_value_from_another(&overrides, &inst, &config).unwrap();
    assert_eq!(j.build, "job-build");
    assert_eq!(j.poll_build_result_interval_second, 5);
    assert_eq!(j.poll_build_result_counts, 2);
    assert_eq!(
        j.parameters,
        Some(vec![("BRANCH".to_string(), "main".to_string())])
    );
}

#[test]
fn job_list_switches_instances_with_markers() {
    let config = global_with(vec![instance("default"), instance("staging")]);
    let jobs = get_all_jobs("build-a\n[staging]\nbuild-b\n", &config).unwrap();
    assert_eq!(jobs.len(), 2);
    assert_eq!(jobs[0].name, "build-a");
    assert_eq!(jobs[0].instance_name, "default");
    assert_eq!(jobs[1].name, "build-b");
    assert_eq!(jobs[1].instance_name, "staging");
}

#[test]
fn job_list_skips_blank_lines_and_trims() {
    let config = global_with(vec![instance("default"), instance("staging")]);
    let jobs = get_all_jobs("  build-a  \n\n   \n [staging] \n\tbuild-b\t\n", &config).unwrap();
    assert_eq!(jobs.len(), 2);
    assert_eq!(jobs[0].name, "build-a");
    assert_eq!(jobs[0].instance_name, "default");
    assert_eq!(jobs[1].name, "build-b");
    assert_eq!(jobs[1].instance_name, "staging");
}

#[test]
fn job_list_preserves_input_order() {
    let config = global_with(vec![instance("default")]);
    let jobs = get_all_jobs("one\ntwo\nthree\n", &config).unwrap();
    let names: Vec<&str> = jobs.iter().map(|j| j.name.as_str()).collect();
    assert_eq!(names, vec!["one", "two", "three"]);
}

#[test]
fn job_list_with_unknown_marker_fails() {
    let config = global_with(vec![instance("default")]);
    let e = get_all_jobs("build-a\n[missing]\nbuild-b\n", &config).unwrap_err();
    assert_eq!(e, ConfigError::UnknownInstance);
}

#[test]
fn resolution_fails_before_any_job_runs() {
    let mut config = global_with(vec![instance("default")]);
    config.build = None;
    let e = get_all_jobs("build-a\n", &config).unwrap_err();
    assert_eq!(e, ConfigError::MissingBuild);
}

#[test]
fn windows_line_endings_are_trimmed() {
    let config = global_with(vec![instance("default"), instance("staging")]);
    let jobs = get_all_jobs("build-a\r\n[staging]\r\nbuild-b\r\n", &config).unwrap();
    assert_eq!(jobs.len(), 2);
    assert_eq!(jobs[1].instance_name, "staging");
}

#[test]
fn config_error_descriptions() {
    assert_eq!(
        ConfigError::MissingBuild.describe(),
        "Missing job or global `build` configuration"
    );
    assert_eq!(
        ConfigError::UnknownInstance.describe(),
        "No related jenkins configuration for the named instance"
    );
}

#[test]
fn whole_config_holds_the_file_section() {
    let config = Config {
        jenkins: global_with(vec![instance("default")]),
        file: FileConfig { path: "jobs.txt".to_string() },
    };
    assert_eq!(config.file.path, "jobs.txt");
}
