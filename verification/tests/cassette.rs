use entry_removal::cassette::{parse_line, Cassette};

#[test]
fn parse_line_extracts_tagged_payload() {
    let line = b"INFO 12:00 <walkman>{\"event\":\"connect\"}</walkman> trailing";
    let payload = parse_line(line).unwrap();
    assert_eq!(payload, b"{\"event\":\"connect\"}".to_vec());
}

#[test]
fn parse_line_without_tags_yields_nothing() {
    assert!(parse_line(b"plain log line").is_none());
    assert!(parse_line(b"").is_none());
    // An opening tag without a closing tag after it never matches.
    assert!(parse_line(b"oops <walkman>{\"a\":1}").is_none());
    // A closing tag alone does not help.
    assert!(parse_line(b"</walkman> then <walkman>x").is_none());
}

#[test]
fn parse_line_takes_shortest_match() {
    // The payload ends at the first closing tag after the first opening tag.
    let line = b"<walkman>a</walkman>b</walkman>";
    assert_eq!(parse_line(line).unwrap(), b"a".to_vec());
    // And starts at the first opening tag.
    let line = b"x<walkman>1</walkman><walkman>2</walkman>";
    assert_eq!(parse_line(line).unwrap(), b"1".to_vec());
}

#[test]
fn parse_line_allows_empty_payload() {
    assert_eq!(parse_line(b"<walkman></walkman>").unwrap(), Vec::<u8>::new());
}

#[test]
fn from_lines_keeps_tagged_payloads_in_order() {
    let lines: Vec<Vec<u8>> = vec![
        b"<walkman>first</walkman>".to_vec(),
        b"no event here".to_vec(),
        b"later <walkman>second</walkman>".to_vec(),
    ];
    let cassette = Cassette::from_lines(&lines);
    assert_eq!(cassette.event_count(), 2);
    assert_eq!(cassette.event(0), &b"first".to_vec());
    assert_eq!(cassette.event(1), &b"second".to_vec());
}

#[test]
fn from_lines_of_untagged_log_is_empty() {
    let lines: Vec<Vec<u8>> = vec![b"one".to_vec(), b"two".to_vec()];
    let cassette = Cassette::from_lines(&lines);
    assert_eq!(cassette.event_count(), 0);
}
