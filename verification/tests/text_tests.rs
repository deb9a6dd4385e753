use jenkins_runner::outcome::{JobError, JobOutcome};
use jenkins_runner::text::{clone_pairs, parse_marker, split_lines, str_eq, trim};

#[test]
fn trim_removes_surrounding_whitespace() {
    assert_eq!(trim("  build-a \t"), "build-a");
    assert_eq!(trim("build-a"), "build-a");
    assert_eq!(trim("   "), "");
    assert_eq!(trim(""), "");
    assert_eq!(trim("a b"), "a b");
    assert_eq!(trim("build-a\r"), "build-a");
}

#[test]
fn split_lines_keeps_every_segment() {
    let lines = split_lines("a\nb\n");
    assert_eq!(lines, vec!["a".to_string(), "b".to_string(), "".to_string()]);
    assert_eq!(split_lines(""), vec!["".to_string()]);
    assert_eq!(split_lines("\n"), vec!["".to_string(), "".to_string()]);
    assert_eq!(split_lines("one"), vec!["one".to_string()]);
}

#[test]
fn markers_are_bracketed_lines() {
    assert_eq!(parse_marker("[staging]"), Some("staging".to_string()));
    assert_eq!(parse_marker("[]"), Some("".to_string()));
    assert_eq!(parse_marker("staging"), None);
    assert_eq!(parse_marker("[staging"), None);
    assert_eq!(parse_marker("staging]"), None);
    assert_eq!(parse_marker("["), None);
}

#[test]
fn str_eq_compares_by_characters() {
    assert!(str_eq("abc", "abc"));
    assert!(!str_eq("abc", "abd"));
    assert!(!str_eq("abc", "ab"));
    assert!(str_eq("", ""));
    assert!(str_eq("发布中", "发布中"));
}

#[test]
fn clone_pairs_copies_every_entry() {
    let pairs = vec![
        ("BRANCH".to_string(), "main".to_string()),
        ("TARGET".to_string(), "prod".to_string()),
    ];
    assert_eq!(clone_pairs(&pairs), pairs);
}

#[test]
fn protocol_error_description_names_the_url() {
    let outcome = JobOutcome::Failed {
        error: JobError::Protocol { url: "http://h/job/app/build".to_string() },
    };
    assert_eq!(
        outcome.display(),
        "Missing expected field in response from http://h/job/app/build"
    );
}
