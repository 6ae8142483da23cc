use gitln::logline::{parse_line, LogLine, Parsed};
use gitln::PipeError;

const SP: &str = "\u{2}";

fn record(line: &str) -> (String, LogLine) {
    match parse_line(line) {
        Ok(Parsed::Record { graph, line }) => (graph, line),
        other => panic!("expected a record, got {:?}", other.map(|_| ())),
    }
}

#[test]
fn graph_only_passthrough() {
    match parse_line("* |  \\") {
        Ok(Parsed::GraphOnly(g)) => assert_eq!(g, "* |  \\"),
        _ => panic!("expected graph-only"),
    }
    match parse_line("") {
        Ok(Parsed::GraphOnly(g)) => assert_eq!(g, ""),
        _ => panic!("expected graph-only"),
    }
}

#[test]
fn four_fields_recovered() {
    let line = format!("* {SP}abc1234{SP}10 days{SP}fix bug{SP}origin/main");
    let (graph, ll) = record(&line);
    assert_eq!(graph, "* ");
    assert_eq!(ll.sha, "abc1234");
    assert_eq!(ll.time, "10 days");
    assert_eq!(ll.subj, "fix bug");
    assert_eq!(ll.refs, "origin/main");
}

#[test]
fn round_trip_rest() {
    let rest = format!("abc1234{SP}10 days{SP}fix bug{SP}origin/main");
    let line = format!("* {SP}{rest}");
    let (_, ll) = record(&line);
    let rejoined = format!("{}{SP}{}{SP}{}{SP}{}", ll.sha, ll.time, ll.subj, ll.refs);
    assert_eq!(rejoined, rest);
}

#[test]
fn too_few_fields_is_malformed() {
    let line = format!("* {SP}abc1234{SP}10 days");
    assert_eq!(parse_line(&line).err(), Some(PipeError::MalformedRecord));
}

#[test]
fn too_many_fields_is_malformed() {
    let line = format!("* {SP}a{SP}b{SP}c{SP}d{SP}e");
    assert_eq!(parse_line(&line).err(), Some(PipeError::MalformedRecord));
}

fn age_of(time: &str) -> (String, char) {
    let line = format!("* {SP}abc{SP}{time}{SP}s{SP}");
    let (_, ll) = record(&line);
    ll.get_time()
}

#[test]
fn age_unit_mapping() {
    assert_eq!(age_of("3 months"), ("3".to_string(), 'M'));
    assert_eq!(age_of("2 minutes"), ("2".to_string(), 'm'));
    assert_eq!(age_of("5 days"), ("5".to_string(), 'd'));
    assert_eq!(age_of("1 year"), ("1".to_string(), 'y'));
    assert_eq!(age_of("2 weeks"), ("2".to_string(), 'w'));
    assert_eq!(age_of("30 seconds"), ("30".to_string(), 's'));
    assert_eq!(age_of("4 hours"), ("4".to_string(), 'h'));
}

#[test]
fn has_refs_boundary() {
    let mk = |refs: &str| {
        let line = format!("*{SP}a{SP}1 day{SP}s{SP}{refs}");
        record(&line).1
    };
    assert!(!mk("").has_refs());
    assert!(!mk("abc").has_refs());
    assert!(mk("abcd").has_refs());
}
