use ezvis::parser::{parse_line, ParseError};
use ezvis::time::Timestamp;

const EXAMPLE: &str = "203.0.113.5 - joe [15/Feb/2026:00:00:04 +0000] \"GET http://example.com/a?x=1 HTTP/1.1\" 200 512 \"US\" \"Mozilla/5.0\"";

#[test]
fn example_line_parses_to_expected_fields() {
    let row = parse_line(EXAMPLE).expect("example line is well-formed");
    assert_eq!(row.remote_addr, "203.0.113.5");
    assert_eq!(row.identd, None);
    assert_eq!(row.user_or_session, Some("joe".to_string()));
    assert_eq!(
        row.ts,
        Timestamp {
            year: 2026,
            month: 2,
            day: 15,
            hour: 0,
            minute: 0,
            second: 4,
            offset_seconds: 0,
        }
    );
    assert_eq!(row.method, "GET");
    assert_eq!(row.url, "http://example.com/a?x=1");
    assert_eq!(row.scheme, Some("http".to_string()));
    assert_eq!(row.host, Some("example.com".to_string()));
    assert_eq!(row.port, None);
    assert_eq!(row.path, Some("/a".to_string()));
    assert_eq!(row.query, Some("x=1".to_string()));
    assert_eq!(row.http_version, "HTTP/1.1");
    assert_eq!(row.status, 200);
    assert_eq!(row.bytes, Some(512));
    assert_eq!(row.country, Some("US".to_string()));
    assert_eq!(row.user_agent, Some("Mozilla/5.0".to_string()));
}

#[test]
fn raw_field_keeps_the_line_verbatim() {
    let row = parse_line(EXAMPLE).unwrap();
    assert_eq!(row.raw, EXAMPLE);
    let padded = format!("{}   ", EXAMPLE);
    let row2 = parse_line(&padded).unwrap();
    assert_eq!(row2.raw, padded);
}

#[test]
fn parsing_twice_yields_identical_records() {
    let once = parse_line(EXAMPLE).unwrap();
    let twice = parse_line(EXAMPLE).unwrap();
    assert_eq!(once, twice);
}

#[test]
fn dash_bytes_field_is_absent_and_line_still_accepted() {
    let line = "203.0.113.5 - joe [15/Feb/2026:00:00:04 +0000] \"GET /a HTTP/1.1\" 200 - \"US\" \"ua\"";
    let row = parse_line(line).expect("dash bytes is well-formed");
    assert_eq!(row.bytes, None);
    assert_eq!(row.status, 200);
}

#[test]
fn numeric_bytes_field_keeps_its_value() {
    let line = "h - - [15/Feb/2026:00:00:04 +0000] \"GET /a HTTP/1.1\" 200 9223372036854775807 \"\" \"\"";
    let row = parse_line(line).unwrap();
    assert_eq!(row.bytes, Some(i64::MAX));
}

#[test]
fn missing_closing_quote_on_user_agent_is_rejected() {
    let line = "203.0.113.5 - joe [15/Feb/2026:00:00:04 +0000] \"GET /a HTTP/1.1\" 200 512 \"US\" \"Mozilla/5.0";
    assert_eq!(parse_line(line), Err(ParseError::Grammar));
}

#[test]
fn optional_fields_trim_and_map_placeholders_to_absent() {
    let line = "h - - [15/Feb/2026:00:00:04 +0000] \"GET /a HTTP/1.1\" 200 1 \" US \" \"  \"";
    let row = parse_line(line).unwrap();
    assert_eq!(row.identd, None);
    assert_eq!(row.user_or_session, None);
    assert_eq!(row.country, Some("US".to_string()));
    assert_eq!(row.user_agent, None);
}

#[test]
fn empty_quoted_fields_are_absent() {
    let line = "h x y [15/Feb/2026:00:00:04 +0000] \"GET /a HTTP/1.1\" 200 1 \"\" \"\"";
    let row = parse_line(line).unwrap();
    assert_eq!(row.identd, Some("x".to_string()));
    assert_eq!(row.user_or_session, Some("y".to_string()));
    assert_eq!(row.country, None);
    assert_eq!(row.user_agent, None);
}

#[test]
fn status_must_be_exactly_three_digits() {
    let bad3 = "h - - [15/Feb/2026:00:00:04 +0000] \"GET /a HTTP/1.1\" 20x 1 \"\" \"\"";
    assert_eq!(parse_line(bad3), Err(ParseError::Grammar));
    let four = "h - - [15/Feb/2026:00:00:04 +0000] \"GET /a HTTP/1.1\" 2000 1 \"\" \"\"";
    assert_eq!(parse_line(four), Err(ParseError::Grammar));
    let two = "h - - [15/Feb/2026:00:00:04 +0000] \"GET /a HTTP/1.1\" 20 1 \"\" \"\"";
    assert_eq!(parse_line(two), Err(ParseError::Grammar));
}

#[test]
fn invalid_timestamp_is_rejected_as_timestamp_error() {
    let line = "h - - [32/Feb/2026:00:00:04 +0000] \"GET /a HTTP/1.1\" 200 1 \"\" \"\"";
    assert_eq!(parse_line(line), Err(ParseError::Timestamp));
    let garbled = "h - - [not a timestamp] \"GET /a HTTP/1.1\" 200 1 \"\" \"\"";
    assert_eq!(parse_line(garbled), Err(ParseError::Timestamp));
}

#[test]
fn non_numeric_bytes_field_is_rejected_as_bytes_error() {
    let line = "h - - [15/Feb/2026:00:00:04 +0000] \"GET /a HTTP/1.1\" 200 12a \"\" \"\"";
    assert_eq!(parse_line(line), Err(ParseError::Bytes));
    let signed = "h - - [15/Feb/2026:00:00:04 +0000] \"GET /a HTTP/1.1\" 200 -5 \"\" \"\"";
    assert_eq!(parse_line(signed), Err(ParseError::Bytes));
}

#[test]
fn overflowing_bytes_field_is_rejected_as_bytes_error() {
    let line = "h - - [15/Feb/2026:00:00:04 +0000] \"GET /a HTTP/1.1\" 200 9223372036854775808 \"\" \"\"";
    assert_eq!(parse_line(line), Err(ParseError::Bytes));
}

#[test]
fn relative_url_leaves_every_component_absent() {
    let line = "h - - [15/Feb/2026:00:00:04 +0000] \"GET /a?x=1 HTTP/1.1\" 200 1 \"\" \"\"";
    let row = parse_line(line).unwrap();
    assert_eq!(row.url, "/a?x=1");
    assert_eq!(row.scheme, None);
    assert_eq!(row.host, None);
    assert_eq!(row.port, None);
    assert_eq!(row.path, None);
    assert_eq!(row.query, None);
}

#[test]
fn absolute_url_with_port_reports_the_port() {
    let line = "h - - [15/Feb/2026:00:00:04 +0000] \"GET http://example.com:8080/x HTTP/1.1\" 200 1 \"\" \"\"";
    let row = parse_line(line).unwrap();
    assert_eq!(row.scheme, Some("http".to_string()));
    assert_eq!(row.host, Some("example.com".to_string()));
    assert_eq!(row.port, Some(8080));
    assert_eq!(row.path, Some("/x".to_string()));
    assert_eq!(row.query, None);
}

#[test]
fn version_part_may_contain_blanks() {
    let line = "h - - [15/Feb/2026:00:00:04 +0000] \"GET /a b HTTP/1.1\" 200 1 \"\" \"\"";
    let row = parse_line(line).unwrap();
    assert_eq!(row.method, "GET");
    assert_eq!(row.url, "/a");
    assert_eq!(row.http_version, "b HTTP/1.1");
}

#[test]
fn version_right_before_the_closing_quote_is_the_last_blank() {
    // The separator after the url gives up its last blank when the closing
    // quote follows immediately, so the version part is that single blank.
    let line = "h - - [15/Feb/2026:00:00:04 +0000] \"GET /a  \" 200 1 \"\" \"\"";
    let row = parse_line(line).unwrap();
    assert_eq!(row.method, "GET");
    assert_eq!(row.url, "/a");
    assert_eq!(row.http_version, " ");
    // With only one blank there is no room for a version part at all.
    let short = "h - - [15/Feb/2026:00:00:04 +0000] \"GET /a \" 200 1 \"\" \"\"";
    assert_eq!(parse_line(short), Err(ParseError::Grammar));
}

#[test]
fn too_few_groups_are_rejected() {
    assert_eq!(parse_line(""), Err(ParseError::Grammar));
    assert_eq!(parse_line("203.0.113.5 - joe"), Err(ParseError::Grammar));
    let no_request = "h - - [15/Feb/2026:00:00:04 +0000] 200 1 \"\" \"\"";
    assert_eq!(parse_line(no_request), Err(ParseError::Grammar));
    let no_ua = "h - - [15/Feb/2026:00:00:04 +0000] \"GET /a HTTP/1.1\" 200 1 \"US\"";
    assert_eq!(parse_line(no_ua), Err(ParseError::Grammar));
}

#[test]
fn tabs_and_blank_runs_separate_fields_too() {
    let line = "h\t-  -\t[15/Feb/2026:00:00:04 +0000]  \"GET  /a  HTTP/1.1\"\t200  1 \"US\"\t\"ua\"\t ";
    let row = parse_line(line).unwrap();
    assert_eq!(row.remote_addr, "h");
    assert_eq!(row.method, "GET");
    assert_eq!(row.url, "/a");
    assert_eq!(row.http_version, "HTTP/1.1");
    assert_eq!(row.status, 200);
    assert_eq!(row.bytes, Some(1));
    assert_eq!(row.country, Some("US".to_string()));
    assert_eq!(row.user_agent, Some("ua".to_string()));
}

#[test]
fn leading_blank_is_rejected() {
    let line = " h - - [15/Feb/2026:00:00:04 +0000] \"GET /a HTTP/1.1\" 200 1 \"\" \"\"";
    assert_eq!(parse_line(line), Err(ParseError::Grammar));
}

#[test]
fn trailing_text_after_user_agent_is_rejected() {
    let line = "h - - [15/Feb/2026:00:00:04 +0000] \"GET /a HTTP/1.1\" 200 1 \"\" \"\" extra";
    assert_eq!(parse_line(line), Err(ParseError::Grammar));
}

#[test]
fn none_if_dash_maps_only_the_dash_to_absent() {
    assert_eq!(ezvis::scan::none_if_dash("-"), None);
    assert_eq!(ezvis::scan::none_if_dash("  -  "), None);
    assert_eq!(ezvis::scan::none_if_dash("joe"), Some("joe".to_string()));
    assert_eq!(ezvis::scan::none_if_dash("  joe "), Some("joe".to_string()));
    assert_eq!(ezvis::scan::none_if_dash(""), Some("".to_string()));
    assert_eq!(ezvis::scan::none_if_dash("--"), Some("--".to_string()));
}
