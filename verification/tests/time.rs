use ezvis::parser::parse_line;
use ezvis::time::{to_rfc3339, Timestamp};

#[test]
fn rfc3339_rendering_matches_the_expected_shape() {
    let t = Timestamp {
        year: 2026,
        month: 2,
        day: 15,
        hour: 0,
        minute: 0,
        second: 4,
        offset_seconds: 0,
    };
    assert_eq!(to_rfc3339(&t), "2026-02-15T00:00:04+00:00");
}

#[test]
fn rfc3339_renders_negative_offsets() {
    let t = Timestamp {
        year: 2026,
        month: 12,
        day: 1,
        hour: 23,
        minute: 59,
        second: 58,
        offset_seconds: -19800,
    };
    assert_eq!(to_rfc3339(&t), "2026-12-01T23:59:58-05:30");
}

#[test]
fn rfc3339_pads_small_years() {
    let t = Timestamp {
        year: 33,
        month: 1,
        day: 2,
        hour: 3,
        minute: 4,
        second: 5,
        offset_seconds: 3600,
    };
    assert_eq!(to_rfc3339(&t), "0033-01-02T03:04:05+01:00");
}

#[test]
fn parsed_timestamp_round_trips_through_rfc3339_like_the_calendar_library() {
    let line = "h - - [15/Feb/2026:08:30:00 +0530] \"GET /a HTTP/1.1\" 200 1 \"\" \"\"";
    let row = parse_line(line).unwrap();
    assert_eq!(
        row.ts,
        Timestamp {
            year: 2026,
            month: 2,
            day: 15,
            hour: 8,
            minute: 30,
            second: 0,
            offset_seconds: 19800,
        }
    );
    let direct = chrono::DateTime::parse_from_str("15/Feb/2026:08:30:00 +0530", "%d/%b/%Y:%H:%M:%S %z")
        .unwrap();
    assert_eq!(to_rfc3339(&row.ts), direct.to_rfc3339());
}
