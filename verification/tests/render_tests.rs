use jenkins_runner::render::PrintData;
use jenkins_runner::resolve::_JenkinsJobConfig;

fn jobs(names: &[&str]) -> Vec<_JenkinsJobConfig> {
    names
        .iter()
        .map(|n| _JenkinsJobConfig {
            name: n.to_string(),
            instance_name: "default".to_string(),
            build: "build".to_string(),
            poll_build_result_interval_second: 1,
            poll_build_result_counts: 1,
            parameters: None,
        })
        .collect()
}

#[test]
fn first_draw_shows_every_job_pending() {
    let js = jobs(&["alpha", "beta"]);
    let mut p = PrintData::new(&js);
    let r = p.redraw();
    assert_eq!(r.move_up_lines, 0);
    assert_eq!(r.content, "alpha -> 发布中\nbeta -> 发布中\n");
}

#[test]
fn completion_overwrites_its_own_slot_only() {
    let js = jobs(&["alpha", "beta", "gamma"]);
    let mut p = PrintData::new(&js);
    p.redraw();
    let r = p.print(1, "SUCCESS".to_string());
    assert_eq!(r.move_up_lines, 3);
    assert_eq!(r.content, "alpha -> 发布中\nbeta -> SUCCESS\ngamma -> 发布中\n");
}

#[test]
fn display_order_follows_input_order_not_completion_order() {
    let js = jobs(&["one", "two", "three"]);
    let mut p = PrintData::new(&js);
    p.print(2, "SUCCESS".to_string());
    p.print(0, "FAILURE".to_string());
    let r = p.redraw();
    assert_eq!(r.content, "one -> FAILURE\ntwo -> 发布中\nthree -> SUCCESS\n");
}

#[test]
fn block_always_has_one_line_per_job() {
    let js = jobs(&["a", "b", "c", "d"]);
    let mut p = PrintData::new(&js);
    let r = p.redraw();
    assert_eq!(r.content.matches('\n').count(), 4);
    let r = p.print(2, "ABORTED".to_string());
    assert_eq!(r.content.matches('\n').count(), 4);
}

#[test]
fn redraw_is_idempotent_with_unchanged_slots() {
    let js = jobs(&["alpha", "beta"]);
    let mut p = PrintData::new(&js);
    p.set_slot(0, "SUCCESS".to_string());
    let first = p.redraw();
    let second = p.redraw();
    let third = p.redraw();
    assert_eq!(first.content, second.content);
    assert_eq!(second.content, third.content);
    // Only the very first draw skips the cursor move.
    assert_eq!(second.move_up_lines, 2);
    assert_eq!(third.move_up_lines, 2);
}

#[test]
fn empty_job_list_renders_an_empty_block() {
    let js = jobs(&[]);
    let mut p = PrintData::new(&js);
    let r = p.redraw();
    assert_eq!(r.content, "");
    assert_eq!(r.move_up_lines, 0);
}
