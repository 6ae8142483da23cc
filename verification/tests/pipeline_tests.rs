use gitln::pipeline::{line_cap, parse_cli, Pipeline};
use gitln::PipeError;

#[test]
fn cap_is_seven_tenths_of_forty() {
    assert_eq!(line_cap(40, 7, 10), 28);
}

#[test]
fn cap_rounds_down() {
    assert_eq!(line_cap(41, 7, 10), 28);
    assert_eq!(line_cap(39, 7, 10), 27);
    assert_eq!(line_cap(0, 7, 10), 0);
    assert_eq!(line_cap(10, 6, 10), 6);
}

#[test]
fn bounded_run_stops_after_the_cap() {
    let mut pipe = Pipeline::new(28, false, None);
    let mut out = String::new();
    let mut consumed = 0u32;
    for i in 0..100 {
        if !pipe.wants_more() {
            break;
        }
        let line = format!("graph line {i}");
        pipe.feed_line(&line, &mut out).unwrap();
        consumed += 1;
    }
    // exactly the cap was consumed; the 29th line was never read
    assert_eq!(consumed, 28);
    assert!(!pipe.wants_more());
    assert_eq!(out.lines().count(), 28);
    assert!(out.starts_with("graph line 0\n"));
    assert!(out.ends_with("graph line 27\n"));
}

#[test]
fn unbounded_limit_is_effectively_infinite() {
    assert_eq!(gitln::pipeline::get_line_limit(false), Some(u32::MAX));
}

#[test]
fn fallback_sink_needs_no_wait() {
    let pipe = Pipeline::new(5, false, None);
    assert!(!pipe.must_wait_for_viewer());
    let pipe = Pipeline::new(5, true, None);
    assert!(pipe.must_wait_for_viewer());
}

#[test]
fn fallback_output_keeps_order() {
    let mut pipe = Pipeline::new(10, false, None);
    let mut out = String::new();
    pipe.feed_line("first", &mut out).unwrap();
    pipe.feed_line("second", &mut out).unwrap();
    pipe.feed_line("third", &mut out).unwrap();
    assert_eq!(out, "first\nsecond\nthird\n");
}

#[test]
fn failed_line_spends_no_budget() {
    let mut pipe = Pipeline::new(3, false, None);
    let mut out = String::new();
    let bad = format!("*{}only two{}fields", '\u{2}', '\u{2}');
    assert_eq!(
        pipe.feed_line(&bad, &mut out),
        Err(PipeError::MalformedRecord)
    );
    assert_eq!(pipe.remaining, 3);
    assert_eq!(out, "");
}

#[test]
fn feed_lines_respects_the_budget() {
    let mut pipe = Pipeline::new(28, false, None);
    let lines: Vec<String> = (0..40).map(|i| format!("graph line {i}")).collect();
    let mut out = String::new();
    assert_eq!(pipe.feed_lines(&lines, &mut out), Ok(()));
    assert_eq!(pipe.remaining, 0);
    assert_eq!(out.lines().count(), 28);
    assert!(out.ends_with("graph line 27\n"));
    assert!(!out.contains("graph line 28"));
}

#[test]
fn feed_lines_renders_everything_in_order() {
    let mut pipe = Pipeline::new(100, false, None);
    let lines: Vec<String> = vec!["first".into(), "second".into(), "third".into()];
    let mut out = String::new();
    assert_eq!(pipe.feed_lines(&lines, &mut out), Ok(()));
    assert_eq!(out, "first\nsecond\nthird\n");
    assert_eq!(pipe.remaining, 97);
}

#[test]
fn feed_lines_stops_at_the_first_defect() {
    let mut pipe = Pipeline::new(10, false, None);
    let bad = format!("*{0}only two{0}fields", '\u{2}');
    let lines: Vec<String> = vec!["good".into(), bad, "never reached".into()];
    let mut out = String::new();
    assert_eq!(
        pipe.feed_lines(&lines, &mut out),
        Err(PipeError::MalformedRecord)
    );
    assert_eq!(out, "good\n");
    assert_eq!(pipe.remaining, 9);
}

#[test]
fn cli_flag_is_recognized_and_removed() {
    let args: Vec<String> = vec![
        "--graph".to_string(),
        "--bound".to_string(),
        "-n".to_string(),
        "40".to_string(),
    ];
    let (fwd, bounded) = parse_cli(args);
    assert!(bounded);
    assert_eq!(fwd, vec!["--graph", "-n", "40"]);
}

#[test]
fn cli_without_flag_forwards_everything() {
    let args: Vec<String> = vec!["-n".to_string(), "40".to_string()];
    let (fwd, bounded) = parse_cli(args);
    assert!(!bounded);
    assert_eq!(fwd, vec!["-n", "40"]);
}

#[test]
fn cli_flag_alone() {
    let (fwd, bounded) = parse_cli(vec!["--bound".to_string()]);
    assert!(bounded);
    assert!(fwd.is_empty());
}
