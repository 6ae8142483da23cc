use gitln::vlist::VList;
use gitln::PipeError;

#[test]
fn absent_set_always_false() {
    let mut vl = VList::new(None);
    assert_eq!(vl.contains("abc1234"), Ok(false));
    assert_eq!(vl.contains(""), Ok(false));
}

#[test]
fn load_truncate_and_match() {
    let blob = "abc1234567890\nfff0000000000\n";
    let mut vl = VList::new(Some(blob));
    assert_eq!(vl.contains("abc1234"), Ok(true));
    assert_eq!(vl.contains("fff0000"), Ok(true));
    assert_eq!(vl.contains("9991234"), Ok(false));
}

#[test]
fn truncation_is_idempotent() {
    let mut vl = VList::new(Some("abc1234567890\nfff0000000000\n"));
    assert_eq!(vl.contains("abc1234"), Ok(true));
    let len_after_first = vl.len;
    assert_eq!(vl.contains("abc1234"), Ok(true));
    assert_eq!(vl.len, len_after_first);
    assert_eq!(vl.len, 7);
    assert_eq!(vl.contains("9991234"), Ok(false));
}

#[test]
fn longer_query_after_truncation_is_fatal() {
    let mut vl = VList::new(Some("abc1234567890\nfff0000000000\n"));
    assert_eq!(vl.contains("abc1234"), Ok(true));
    assert_eq!(
        vl.contains("abc123456"),
        Err(PipeError::TrustedLengthViolation)
    );
    // the failed query left the set as it was
    assert_eq!(vl.len, 7);
    assert_eq!(vl.contains("fff0000"), Ok(true));
}

#[test]
fn loaded_length_is_the_members_length() {
    let vl = VList::new(Some("abc1234567890\nfff0000000000\n"));
    assert_eq!(vl.len, 13);
    let vl = VList::new(Some(""));
    assert_eq!(vl.len, 0);
}

#[test]
fn empty_query_rekeys_a_fresh_set() {
    let mut vl = VList::new(Some("abc\ndef\n"));
    // the members are longer than the query, so they are re-keyed to
    // length zero and the empty identifier is then a member
    assert_eq!(vl.contains(""), Ok(true));
    assert_eq!(vl.len, 0);
    // and the shrink is monotone: any longer query afterwards is fatal
    assert_eq!(vl.contains("a"), Err(PipeError::TrustedLengthViolation));
}

#[test]
fn query_longer_than_members_is_fatal() {
    let mut vl = VList::new(Some("abc\n"));
    assert_eq!(vl.contains("abcd"), Err(PipeError::TrustedLengthViolation));
}

#[test]
fn duplicate_lines_collapse_harmlessly() {
    let mut vl = VList::new(Some("abc1234\nabc1234\n"));
    assert_eq!(vl.contains("abc1234"), Ok(true));
    assert_eq!(vl.contains("abc0000"), Ok(false));
}

#[test]
fn empty_blob_matches_nothing() {
    let mut vl = VList::new(Some(""));
    assert_eq!(vl.contains("abc"), Ok(false));
}

#[test]
fn crlf_lines_are_stripped() {
    let mut vl = VList::new(Some("abc1234\r\nfff0000\r\n"));
    assert_eq!(vl.contains("abc1234"), Ok(true));
}
