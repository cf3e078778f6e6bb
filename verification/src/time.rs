//! Timestamps. A log timestamp is written in the fixed textual format
//! `DD/Mon/YYYY:HH:MM:SS +HHMM`; parsing that format (including calendar
//! validation) is delegated to the chrono crate behind a trusted wrapper,
//! and the parsed instant is carried as a plain record of its components.
//! Serialization back to an RFC 3339 string for the sink is verified here.

use vstd::prelude::*;

use chrono::{Datelike, Timelike};

verus! {

/// A timezone-aware instant, as the components the log format carries.
#[derive(Clone, Copy, Debug, PartialEq, Eq, Structural)]
pub struct Timestamp {
    pub year: i32,
    /// 1 to 12.
    pub month: u8,
    /// 1 to 31.
    pub day: u8,
    pub hour: u8,
    pub minute: u8,
    pub second: u8,
    /// Local-time offset east of UTC, in seconds.
    pub offset_seconds: i32,
}

impl Timestamp {
    /// The ranges the calendar parser guarantees of every value it returns.
    pub open spec fn wf(self) -> bool {
        &&& -262143 <= self.year <= 262142
        &&& 1 <= self.month <= 12
        &&& 1 <= self.day <= 31
        &&& self.hour <= 23
        &&& self.minute <= 59
        &&& self.second <= 59
        &&& -86400 < self.offset_seconds < 86400
    }
}

/// What the calendar parser returns for a timestamp field: `None` when the
/// text is not a valid instant under the fixed log format. The result
/// depends on the text alone.
pub uninterp spec fn ts_of(s: Seq<char>) -> Option<Timestamp>;

/// Relies on chrono's `DateTime::parse_from_str` with the fixed log format
/// `%d/%b/%Y:%H:%M:%S %z`, and on the documented ranges of the `Datelike` and
/// `Timelike` accessors (month 1..=12, day 1..=31, hour 0..=23, minute and
/// second 0..=59), of `FixedOffset::local_minus_utc` (strictly between
/// -86400 and 86400) and of `NaiveDate`'s representable years. The parse
/// result depends on the text alone, so it is named by [`ts_of`].
#[verifier::external_body]
pub(crate) fn parse_ts(s: &str) -> (r: Option<Timestamp>)
    ensures
        r == ts_of(s@),
        r matches Some(t) ==> t.wf(),
{
    match chrono::DateTime::parse_from_str(s, "%d/%b/%Y:%H:%M:%S %z") {
        Ok(dt) => Some(Timestamp {
            year: dt.year(),
            month: dt.month() as u8,
            day: dt.day() as u8,
            hour: dt.hour() as u8,
            minute: dt.minute() as u8,
            second: dt.second() as u8,
            offset_seconds: dt.offset().local_minus_utc(),
        }),
        Err(_) => None,
    }
}

/// The digit character for a value from 0 to 9.
pub open spec fn spec_digit_char(d: int) -> char {
    if d == 0 {
        '0'
    } else if d == 1 {
        '1'
    } else if d == 2 {
        '2'
    } else if d == 3 {
        '3'
    } else if d == 4 {
        '4'
    } else if d == 5 {
        '5'
    } else if d == 6 {
        '6'
    } else if d == 7 {
        '7'
    } else if d == 8 {
        '8'
    } else {
        '9'
    }
}

/// Base-ten digits of `n`, zero-padded on the left to at least `w` characters.
pub open spec fn spec_padded_dec(n: nat, w: nat) -> Seq<char>
    decreases n, w,
{
    if n <= 9 && w <= 1 {
        seq![spec_digit_char(n as int)]
    } else {
        spec_padded_dec(n / 10, if w <= 1 { 0nat } else { (w - 1) as nat }).push(
            spec_digit_char((n % 10) as int),
        )
    }
}

fn push_digit(out: &mut String, d: u32)
    requires
        d <= 9,
    ensures
        final(out)@ == old(out)@ + seq![spec_digit_char(d as int)],
{
    proof {
        reveal_strlit("0");
        reveal_strlit("1");
        reveal_strlit("2");
        reveal_strlit("3");
        reveal_strlit("4");
        reveal_strlit("5");
        reveal_strlit("6");
        reveal_strlit("7");
        reveal_strlit("8");
        reveal_strlit("9");
    }
    match d {
        0 => out.append("0"),
        1 => out.append("1"),
        2 => out.append("2"),
        3 => out.append("3"),
        4 => out.append("4"),
        5 => out.append("5"),
        6 => out.append("6"),
        7 => out.append("7"),
        8 => out.append("8"),
        _ => out.append("9"),
    }
    proof {
        assert(final(out)@ =~= old(out)@ + seq![spec_digit_char(d as int)]);
    }
}

fn push_padded_dec(out: &mut String, n: u32, w: u32)
    ensures
        final(out)@ == old(out)@ + spec_padded_dec(n as nat, w as nat),
    decreases n, w,
{
    if n <= 9 && w <= 1 {
        push_digit(out, n);
    } else {
        push_padded_dec(out, n / 10, if w <= 1 { 0 } else { w - 1 });
        push_digit(out, n % 10);
        proof {
            let head = spec_padded_dec((n / 10) as nat, if w <= 1 { 0nat } else { (w - 1) as nat });
            assert((old(out)@ + head) + seq![spec_digit_char((n % 10) as int)] =~= old(out)@
                + head.push(spec_digit_char((n % 10) as int)));
        }
    }
}

/// The RFC 3339 rendering of a timestamp: date, `T`, time of day, and the
/// offset as a signed `HH:MM` pair.
pub open spec fn spec_rfc3339(t: Timestamp) -> Seq<char> {
    let year_part = if t.year < 0 {
        seq!['-'] + spec_padded_dec((-t.year) as nat, 4)
    } else {
        spec_padded_dec(t.year as nat, 4)
    };
    let off_abs = if t.offset_seconds < 0 {
        -t.offset_seconds as int
    } else {
        t.offset_seconds as int
    };
    year_part + seq!['-'] + spec_padded_dec(t.month as nat, 2) + seq!['-'] + spec_padded_dec(
        t.day as nat,
        2,
    ) + seq!['T'] + spec_padded_dec(t.hour as nat, 2) + seq![':'] + spec_padded_dec(
        t.minute as nat,
        2,
    ) + seq![':'] + spec_padded_dec(t.second as nat, 2) + seq![
        if t.offset_seconds < 0 {
            '-'
        } else {
            '+'
        },
    ] + spec_padded_dec((off_abs / 3600) as nat, 2) + seq![':'] + spec_padded_dec(
        ((off_abs / 60) % 60) as nat,
        2,
    )
}

fn push_char_lit(out: &mut String, c: char)
    requires
        c == '-' || c == ':' || c == 'T' || c == '+',
    ensures
        final(out)@ == old(out)@ + seq![c],
{
    proof {
        reveal_strlit("-");
        reveal_strlit(":");
        reveal_strlit("T");
        reveal_strlit("+");
    }
    if c == '-' {
        out.append("-");
    } else if c == ':' {
        out.append(":");
    } else if c == 'T' {
        out.append("T");
    } else {
        out.append("+");
    }
    proof {
        assert(final(out)@ =~= old(out)@ + seq![c]);
    }
}

/// Serialize a timestamp for the sink, in the RFC 3339 shape
/// `YYYY-MM-DDTHH:MM:SS+HH:MM`.
pub fn to_rfc3339(t: &Timestamp) -> (r: String)
    ensures
        r@ == spec_rfc3339(*t),
{
    let mut out = String::new();
    if t.year < 0 {
        push_char_lit(&mut out, '-');
        push_padded_dec(&mut out, (-(t.year as i64)) as u32, 4);
    } else {
        push_padded_dec(&mut out, t.year as u32, 4);
    }
    push_char_lit(&mut out, '-');
    push_padded_dec(&mut out, t.month as u32, 2);
    push_char_lit(&mut out, '-');
    push_padded_dec(&mut out, t.day as u32, 2);
    push_char_lit(&mut out, 'T');
    push_padded_dec(&mut out, t.hour as u32, 2);
    push_char_lit(&mut out, ':');
    push_padded_dec(&mut out, t.minute as u32, 2);
    push_char_lit(&mut out, ':');
    push_padded_dec(&mut out, t.second as u32, 2);
    let off_abs: u32 = if t.offset_seconds < 0 {
        (-(t.offset_seconds as i64)) as u32
    } else {
        t.offset_seconds as u32
    };
    if t.offset_seconds < 0 {
        push_char_lit(&mut out, '-');
    } else {
        push_char_lit(&mut out, '+');
    }
    push_padded_dec(&mut out, off_abs / 3600, 2);
    push_char_lit(&mut out, ':');
    push_padded_dec(&mut out, (off_abs / 60) % 60, 2);
    proof {
        assert(out@ =~= spec_rfc3339(*t));
    }
    out
}

} // verus!
