use gitln::render::{print_git_log_line, DIM, GREEN, LIGHT, RESET, YELLOW};
use gitln::vlist::VList;
use gitln::PipeError;

const SP: &str = "\u{2}";

fn render_with(line: &str, vl: &mut VList) -> Result<String, PipeError> {
    let mut out = String::new();
    print_git_log_line(line, &mut out, vl)?;
    Ok(out)
}

#[test]
fn end_to_end_untrusted() {
    let line = format!("* {SP}abc1234{SP}10 days{SP}fix bug{SP}");
    let mut vl = VList::new(None);
    let out = render_with(&line, &mut vl).unwrap();
    let expected =
        format!("* {YELLOW}abc1234 {RESET}fix bug {DIM}({LIGHT}10{DIM}d){RESET}\n");
    assert_eq!(out, expected);
}

#[test]
fn end_to_end_trusted() {
    let line = format!("* {SP}abc1234{SP}10 days{SP}fix bug{SP}");
    let mut vl = VList::new(Some("abc1234\n"));
    let out = render_with(&line, &mut vl).unwrap();
    let expected =
        format!("* {GREEN}abc1234 {RESET}fix bug {DIM}({LIGHT}10{DIM}d){RESET}\n");
    assert_eq!(out, expected);
}

#[test]
fn graph_only_rendered_verbatim() {
    let mut vl = VList::new(None);
    let out = render_with("| * ", &mut vl).unwrap();
    assert_eq!(out, "| * \n");
}

#[test]
fn refs_segment_when_present() {
    let line = format!("{SP}abc{SP}2 weeks{SP}subject{SP}main");
    let mut vl = VList::new(None);
    let out = render_with(&line, &mut vl).unwrap();
    let expected =
        format!("{YELLOW}abc {DIM}{{main{DIM}}} {RESET}subject {DIM}({LIGHT}2{DIM}w){RESET}\n");
    assert_eq!(out, expected);
}

#[test]
fn refs_of_sentinel_length_are_hidden() {
    let line = format!("{SP}abc{SP}2 weeks{SP}subject{SP}xyz");
    let mut vl = VList::new(None);
    let out = render_with(&line, &mut vl).unwrap();
    let expected = format!("{YELLOW}abc {RESET}subject {DIM}({LIGHT}2{DIM}w){RESET}\n");
    assert_eq!(out, expected);
}

#[test]
fn months_abbreviate_uppercase() {
    let line = format!("{SP}abc{SP}3 months{SP}s{SP}");
    let mut vl = VList::new(None);
    let out = render_with(&line, &mut vl).unwrap();
    assert!(out.contains(&format!("{LIGHT}3{DIM}M")));
    let line = format!("{SP}abc{SP}2 minutes{SP}s{SP}");
    let out = render_with(&line, &mut vl).unwrap();
    assert!(out.contains(&format!("{LIGHT}2{DIM}m")));
}

#[test]
fn malformed_age_is_reported() {
    let line = format!("{SP}abc{SP}10days{SP}s{SP}");
    let mut vl = VList::new(None);
    assert_eq!(render_with(&line, &mut vl), Err(PipeError::MalformedAge));
    let line = format!("{SP}abc{SP}10 {SP}s{SP}");
    assert_eq!(render_with(&line, &mut vl), Err(PipeError::MalformedAge));
}

#[test]
fn length_violation_leaves_sink_untouched() {
    let line = format!("{SP}abcd{SP}1 day{SP}s{SP}");
    let mut vl = VList::new(Some("abc\n"));
    let mut out = String::from("kept");
    let r = print_git_log_line(&line, &mut out, &mut vl);
    assert_eq!(r, Err(PipeError::TrustedLengthViolation));
    assert_eq!(out, "kept");
}

#[test]
fn error_messages_are_distinct() {
    let a = PipeError::MalformedRecord.message();
    let b = PipeError::MalformedAge.message();
    let c = PipeError::TrustedLengthViolation.message();
    assert_ne!(a, b);
    assert_ne!(b, c);
    assert_ne!(a, c);
}
