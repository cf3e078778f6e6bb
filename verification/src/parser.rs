//! The line parser. A log line follows a fixed positional grammar:
//!
//! ```text
//! <remote_addr> <identd> <user_or_session> [<timestamp>]
//!     "<method> <url> <http_version>" <status> <bytes> "<country>" "<user_agent>"
//! ```
//!
//! Unquoted fields are maximal runs of non-blank characters separated by runs
//! of blanks; the timestamp group runs to the closing bracket and the three
//! quoted groups to their closing quote (the method and url inside the
//! request group are themselves blank-separated tokens, so the version part
//! may contain blanks). The status field must be exactly three ASCII digits.
//! Trailing blanks are allowed. The grammar is written down by
//! [`field_positions`] and [`grammar_ok`], and [`parse_line`] is proved to
//! accept exactly the lines that [`spec_parse_line`] accepts, with exactly
//! the fields it describes.

use vstd::prelude::*;

use crate::scan::{
    all_digits, ascii_digit_val, dash_to_none, dec_val, empty_to_none, is_ascii_digit,
    none_if_dash, parse_decimal_i64, run_end, scan_run, three_digit_val, trimmed_or_none,
    CharClass,
};
use crate::time::{parse_ts, ts_of, Timestamp};
use crate::urlsplit::{split_url, url_parts_of};

verus! {

/// Why a line was rejected. Each of these is a malformed line; a request
/// target that fails URL decomposition is deliberately not among them (it
/// degrades to absent URL components instead of rejecting the record).
#[derive(Clone, Copy, Debug, PartialEq, Eq, Structural)]
pub enum ParseError {
    /// The line does not have the eleven positional groups of the grammar
    /// (this includes a status field that is not exactly three digits).
    Grammar,
    /// The timestamp group is not a valid instant of the fixed format.
    Timestamp,
    /// The bytes field is neither the dash placeholder nor a run of digits
    /// whose value fits a signed 64-bit integer.
    Bytes,
}

/// The boundaries of every field of a line, each one the end of a maximal
/// character run. They are computed unconditionally; [`grammar_ok`] says
/// when they describe a well-formed line.
pub ghost struct FieldPos {
    pub addr_end: int,
    pub identd_start: int,
    pub identd_end: int,
    pub user_start: int,
    pub user_end: int,
    /// Position of the opening bracket of the timestamp group.
    pub lb: int,
    /// Position of the closing bracket.
    pub ts_end: int,
    /// Position of the opening quote of the request group.
    pub q1: int,
    pub method_end: int,
    pub url_start: int,
    pub url_end: int,
    /// First non-blank position after the url token.
    pub after_url: int,
    /// Position of the closing quote of the request group: the first quote
    /// at or after the end of the url token.
    pub q2: int,
    /// Start of the version part. Normally the first non-blank after the
    /// url; when the closing quote itself is that first non-blank, the
    /// version is the single blank just before the quote (the separator
    /// gives up its last blank), matching leftmost-greedy matching of the
    /// grammar.
    pub ver_start: int,
    pub status_start: int,
    pub bytes_start: int,
    pub bytes_end: int,
    /// Position of the opening quote of the country group.
    pub q3: int,
    /// Position of the closing quote of the country group.
    pub country_end: int,
    /// Position of the opening quote of the user-agent group.
    pub q4: int,
    /// Position of the closing quote of the user-agent group.
    pub ua_end: int,
    /// End of the run of trailing blanks after the user-agent group.
    pub tail_end: int,
}

pub open spec fn field_positions(s: Seq<char>) -> FieldPos {
    let addr_end = run_end(s, 0, CharClass::NonBlank);
    let identd_start = run_end(s, addr_end, CharClass::Blank);
    let identd_end = run_end(s, identd_start, CharClass::NonBlank);
    let user_start = run_end(s, identd_end, CharClass::Blank);
    let user_end = run_end(s, user_start, CharClass::NonBlank);
    let lb = run_end(s, user_end, CharClass::Blank);
    let ts_end = run_end(s, lb + 1, CharClass::NonRBracket);
    let q1 = run_end(s, ts_end + 1, CharClass::Blank);
    let method_end = run_end(s, q1 + 1, CharClass::NonBlank);
    let url_start = run_end(s, method_end, CharClass::Blank);
    let url_end = run_end(s, url_start, CharClass::NonBlank);
    let after_url = run_end(s, url_end, CharClass::Blank);
    let q2 = run_end(s, url_end, CharClass::NonQuote);
    let ver_start = if q2 == after_url {
        q2 - 1
    } else {
        after_url
    };
    let status_start = run_end(s, q2 + 1, CharClass::Blank);
    let bytes_start = run_end(s, status_start + 3, CharClass::Blank);
    let bytes_end = run_end(s, bytes_start, CharClass::NonBlank);
    let q3 = run_end(s, bytes_end, CharClass::Blank);
    let country_end = run_end(s, q3 + 1, CharClass::NonQuote);
    let q4 = run_end(s, country_end + 1, CharClass::Blank);
    let ua_end = run_end(s, q4 + 1, CharClass::NonQuote);
    let tail_end = run_end(s, ua_end + 1, CharClass::Blank);
    FieldPos {
        addr_end,
        identd_start,
        identd_end,
        user_start,
        user_end,
        lb,
        ts_end,
        q1,
        method_end,
        url_start,
        url_end,
        after_url,
        q2,
        ver_start,
        status_start,
        bytes_start,
        bytes_end,
        q3,
        country_end,
        q4,
        ua_end,
        tail_end,
    }
}

/// The line has all eleven positional groups: three non-empty unquoted
/// fields, a bracketed non-empty timestamp, a quoted request group of at
/// least a method, a url and one more character, a three-digit status, a
/// non-empty bytes field, and two quoted groups, each pair of neighbours
/// separated by at least one blank, with nothing but blanks after the last
/// group.
pub open spec fn grammar_ok(s: Seq<char>) -> bool {
    let p = field_positions(s);
    &&& 0 < p.addr_end
    &&& p.addr_end < p.identd_start
    &&& p.identd_start < p.identd_end
    &&& p.identd_end < p.user_start
    &&& p.user_start < p.user_end
    &&& p.user_end < p.lb
    &&& p.lb < s.len()
    &&& s[p.lb] == '['
    &&& p.lb + 1 < p.ts_end
    &&& p.ts_end < s.len()
    &&& p.ts_end + 1 < p.q1
    &&& p.q1 < s.len()
    &&& s[p.q1] == '"'
    &&& p.q1 + 1 < p.method_end
    &&& p.method_end < p.url_start
    &&& p.url_start < p.url_end
    &&& p.url_end < p.after_url
    &&& p.q2 < s.len()
    &&& p.url_end + 2 <= p.q2
    &&& p.q2 + 1 < p.status_start
    &&& p.status_start + 3 <= s.len()
    &&& is_ascii_digit(s[p.status_start])
    &&& is_ascii_digit(s[p.status_start + 1])
    &&& is_ascii_digit(s[p.status_start + 2])
    &&& p.status_start + 3 < p.bytes_start
    &&& p.bytes_start < p.bytes_end
    &&& p.bytes_end < p.q3
    &&& p.q3 < s.len()
    &&& s[p.q3] == '"'
    &&& p.country_end < s.len()
    &&& p.country_end + 1 < p.q4
    &&& p.q4 < s.len()
    &&& s[p.q4] == '"'
    &&& p.ua_end < s.len()
    &&& p.tail_end == s.len()
}

pub open spec fn addr_text(s: Seq<char>) -> Seq<char> {
    s.subrange(0, field_positions(s).addr_end)
}

pub open spec fn identd_text(s: Seq<char>) -> Seq<char> {
    s.subrange(field_positions(s).identd_start, field_positions(s).identd_end)
}

pub open spec fn user_text(s: Seq<char>) -> Seq<char> {
    s.subrange(field_positions(s).user_start, field_positions(s).user_end)
}

pub open spec fn ts_text(s: Seq<char>) -> Seq<char> {
    s.subrange(field_positions(s).lb + 1, field_positions(s).ts_end)
}

pub open spec fn method_text(s: Seq<char>) -> Seq<char> {
    s.subrange(field_positions(s).q1 + 1, field_positions(s).method_end)
}

pub open spec fn url_text(s: Seq<char>) -> Seq<char> {
    s.subrange(field_positions(s).url_start, field_positions(s).url_end)
}

pub open spec fn version_text(s: Seq<char>) -> Seq<char> {
    s.subrange(field_positions(s).ver_start, field_positions(s).q2)
}

pub open spec fn bytes_text(s: Seq<char>) -> Seq<char> {
    s.subrange(field_positions(s).bytes_start, field_positions(s).bytes_end)
}

pub open spec fn country_text(s: Seq<char>) -> Seq<char> {
    s.subrange(field_positions(s).q3 + 1, field_positions(s).country_end)
}

pub open spec fn ua_text(s: Seq<char>) -> Seq<char> {
    s.subrange(field_positions(s).q4 + 1, field_positions(s).ua_end)
}

/// A well-formed bytes field: the dash placeholder, or a run of digits whose
/// value fits a signed 64-bit integer.
pub open spec fn bytes_field_ok(t: Seq<char>) -> bool {
    t == seq!['-'] || (t.len() > 0 && all_digits(t) && dec_val(t) <= i64::MAX)
}

/// The byte count a well-formed bytes field denotes: absent for the dash
/// placeholder.
pub open spec fn spec_bytes_field(t: Seq<char>) -> Option<i64> {
    if t == seq!['-'] {
        None
    } else {
        Some(dec_val(t) as i64)
    }
}

/// Mathematical shape of a parsed record.
#[verifier::ext_equal]
pub ghost struct RowModel {
    pub remote_addr: Seq<char>,
    pub identd: Option<Seq<char>>,
    pub user_or_session: Option<Seq<char>>,
    pub ts: Timestamp,
    pub method: Seq<char>,
    pub url: Seq<char>,
    pub scheme: Option<Seq<char>>,
    pub host: Option<Seq<char>>,
    pub port: Option<i32>,
    pub path: Option<Seq<char>>,
    pub query: Option<Seq<char>>,
    pub http_version: Seq<char>,
    pub status: int,
    pub bytes: Option<i64>,
    pub country: Option<Seq<char>>,
    pub user_agent: Option<Seq<char>>,
    pub raw: Seq<char>,
}

/// The record a well-formed line with timestamp `t` denotes.
pub open spec fn row_model(s: Seq<char>, t: Timestamp) -> RowModel {
    let p = field_positions(s);
    let u = url_parts_of(url_text(s));
    RowModel {
        remote_addr: addr_text(s),
        identd: dash_to_none(identd_text(s)),
        user_or_session: dash_to_none(user_text(s)),
        ts: t,
        method: method_text(s),
        url: url_text(s),
        scheme: match u {
            Some(m) => Some(m.scheme),
            None => None,
        },
        host: match u {
            Some(m) => m.host,
            None => None,
        },
        port: match u {
            Some(m) => match m.port {
                Some(pt) => Some(pt as i32),
                None => None,
            },
            None => None,
        },
        path: match u {
            Some(m) => Some(m.path),
            None => None,
        },
        query: match u {
            Some(m) => m.query,
            None => None,
        },
        http_version: version_text(s),
        status: three_digit_val(s[p.status_start], s[p.status_start + 1], s[p.status_start + 2]),
        bytes: spec_bytes_field(bytes_text(s)),
        country: empty_to_none(country_text(s)),
        user_agent: empty_to_none(ua_text(s)),
        raw: s,
    }
}

/// What parsing a line yields: the record of a well-formed line, or the
/// first reason (grammar, then timestamp, then bytes) it is malformed.
pub open spec fn spec_parse_line(s: Seq<char>) -> Result<RowModel, ParseError> {
    if !grammar_ok(s) {
        Err(ParseError::Grammar)
    } else {
        match ts_of(ts_text(s)) {
            None => Err(ParseError::Timestamp),
            Some(t) => {
                if !bytes_field_ok(bytes_text(s)) {
                    Err(ParseError::Bytes)
                } else {
                    Ok(row_model(s, t))
                }
            },
        }
    }
}

/// One normalized record of a single log line.
#[derive(Clone, Debug, PartialEq)]
pub struct LogRow {
    pub remote_addr: String,
    pub identd: Option<String>,
    pub user_or_session: Option<String>,
    pub ts: Timestamp,
    pub method: String,
    pub url: String,
    pub scheme: Option<String>,
    pub host: Option<String>,
    pub port: Option<i32>,
    pub path: Option<String>,
    pub query: Option<String>,
    pub http_version: String,
    pub status: i32,
    pub bytes: Option<i64>,
    pub country: Option<String>,
    pub user_agent: Option<String>,
    pub raw: String,
}

impl View for LogRow {
    type V = RowModel;

    open spec fn view(&self) -> RowModel {
        RowModel {
            remote_addr: self.remote_addr@,
            identd: self.identd.deep_view(),
            user_or_session: self.user_or_session.deep_view(),
            ts: self.ts,
            method: self.method@,
            url: self.url@,
            scheme: self.scheme.deep_view(),
            host: self.host.deep_view(),
            port: self.port,
            path: self.path.deep_view(),
            query: self.query.deep_view(),
            http_version: self.http_version@,
            status: self.status as int,
            bytes: self.bytes,
            country: self.country.deep_view(),
            user_agent: self.user_agent.deep_view(),
            raw: self.raw@,
        }
    }
}

impl DeepView for LogRow {
    type V = RowModel;

    open spec fn deep_view(&self) -> RowModel {
        self.view()
    }
}

/// Parse one line. Returns the record exactly when the line is well-formed
/// under [`spec_parse_line`], and the reason it is malformed otherwise.
pub fn parse_line(line: &str) -> (r: Result<LogRow, ParseError>)
    ensures
        ({
            let m = spec_parse_line(line@);
            match r {
                Ok(row) => m == Ok::<RowModel, ParseError>(row@),
                Err(e) => m == Err::<RowModel, ParseError>(e),
            }
        }),
{
    let n: usize = line.unicode_len();
    let ghost s = line@;
    let ghost p = field_positions(s);

    let addr_end: usize = scan_run(line, 0, n, CharClass::NonBlank);
    proof {
        assert(p.addr_end == addr_end as int);
    }
    if addr_end == 0 {
        return Err(ParseError::Grammar);
    }
    let identd_start: usize = scan_run(line, addr_end, n, CharClass::Blank);
    proof {
        assert(p.identd_start == identd_start as int);
    }
    if identd_start == addr_end {
        return Err(ParseError::Grammar);
    }
    let identd_end: usize = scan_run(line, identd_start, n, CharClass::NonBlank);
    proof {
        assert(p.identd_end == identd_end as int);
    }
    if identd_end == identd_start {
        return Err(ParseError::Grammar);
    }
    let user_start: usize = scan_run(line, identd_end, n, CharClass::Blank);
    proof {
        assert(p.user_start == user_start as int);
    }
    if user_start == identd_end {
        return Err(ParseError::Grammar);
    }
    let user_end: usize = scan_run(line, user_start, n, CharClass::NonBlank);
    proof {
        assert(p.user_end == user_end as int);
    }
    if user_end == user_start {
        return Err(ParseError::Grammar);
    }
    let lb: usize = scan_run(line, user_end, n, CharClass::Blank);
    proof {
        assert(p.lb == lb as int);
    }
    if lb == user_end || lb == n {
        return Err(ParseError::Grammar);
    }
    if line.get_char(lb) != '[' {
        return Err(ParseError::Grammar);
    }
    let ts_end: usize = scan_run(line, lb + 1, n, CharClass::NonRBracket);
    proof {
        assert(p.ts_end == ts_end as int);
    }
    if ts_end == lb + 1 || ts_end == n {
        return Err(ParseError::Grammar);
    }
    let q1: usize = scan_run(line, ts_end + 1, n, CharClass::Blank);
    proof {
        assert(p.q1 == q1 as int);
    }
    if q1 == ts_end + 1 || q1 == n {
        return Err(ParseError::Grammar);
    }
    if line.get_char(q1) != '"' {
        return Err(ParseError::Grammar);
    }
    let method_end: usize = scan_run(line, q1 + 1, n, CharClass::NonBlank);
    proof {
        assert(p.method_end == method_end as int);
    }
    if method_end == q1 + 1 {
        return Err(ParseError::Grammar);
    }
    let url_start: usize = scan_run(line, method_end, n, CharClass::Blank);
    proof {
        assert(p.url_start == url_start as int);
    }
    if url_start == method_end {
        return Err(ParseError::Grammar);
    }
    let url_end: usize = scan_run(line, url_start, n, CharClass::NonBlank);
    proof {
        assert(p.url_end == url_end as int);
    }
    if url_end == url_start {
        return Err(ParseError::Grammar);
    }
    let after_url: usize = scan_run(line, url_end, n, CharClass::Blank);
    proof {
        assert(p.after_url == after_url as int);
    }
    if after_url == url_end {
        return Err(ParseError::Grammar);
    }
    let q2: usize = scan_run(line, url_end, n, CharClass::NonQuote);
    proof {
        assert(p.q2 == q2 as int);
    }
    if q2 == n {
        return Err(ParseError::Grammar);
    }
    if q2 - url_end < 2 {
        return Err(ParseError::Grammar);
    }
    proof {
        // The closing quote cannot fall inside the run of blanks that
        // follows the url token.
        crate::scan::lemma_run_end_props(s, url_end as int, CharClass::Blank);
        crate::scan::lemma_run_end_props(s, url_end as int, CharClass::NonQuote);
        if q2 < after_url {
            assert(crate::scan::is_blank(s[q2 as int]));
            assert(false);
        }
    }
    let ver_start: usize = if q2 == after_url {
        q2 - 1
    } else {
        after_url
    };
    proof {
        assert(p.ver_start == ver_start as int);
    }
    let status_start: usize = scan_run(line, q2 + 1, n, CharClass::Blank);
    proof {
        assert(p.status_start == status_start as int);
    }
    if status_start == q2 + 1 {
        return Err(ParseError::Grammar);
    }
    if n - status_start < 3 {
        return Err(ParseError::Grammar);
    }
    let d0: u32 = match ascii_digit_val(line.get_char(status_start)) {
        Some(d) => d,
        None => {
            return Err(ParseError::Grammar);
        },
    };
    let d1: u32 = match ascii_digit_val(line.get_char(status_start + 1)) {
        Some(d) => d,
        None => {
            return Err(ParseError::Grammar);
        },
    };
    let d2: u32 = match ascii_digit_val(line.get_char(status_start + 2)) {
        Some(d) => d,
        None => {
            return Err(ParseError::Grammar);
        },
    };
    let bytes_start: usize = scan_run(line, status_start + 3, n, CharClass::Blank);
    proof {
        assert(p.bytes_start == bytes_start as int);
    }
    if bytes_start == status_start + 3 {
        return Err(ParseError::Grammar);
    }
    let bytes_end: usize = scan_run(line, bytes_start, n, CharClass::NonBlank);
    proof {
        assert(p.bytes_end == bytes_end as int);
    }
    if bytes_end == bytes_start {
        return Err(ParseError::Grammar);
    }
    let q3: usize = scan_run(line, bytes_end, n, CharClass::Blank);
    proof {
        assert(p.q3 == q3 as int);
    }
    if q3 == bytes_end || q3 == n {
        return Err(ParseError::Grammar);
    }
    if line.get_char(q3) != '"' {
        return Err(ParseError::Grammar);
    }
    let country_end: usize = scan_run(line, q3 + 1, n, CharClass::NonQuote);
    proof {
        assert(p.country_end == country_end as int);
    }
    if country_end == n {
        return Err(ParseError::Grammar);
    }
    let q4: usize = scan_run(line, country_end + 1, n, CharClass::Blank);
    proof {
        assert(p.q4 == q4 as int);
    }
    if q4 == country_end + 1 || q4 == n {
        return Err(ParseError::Grammar);
    }
    if line.get_char(q4) != '"' {
        return Err(ParseError::Grammar);
    }
    let ua_end: usize = scan_run(line, q4 + 1, n, CharClass::NonQuote);
    proof {
        assert(p.ua_end == ua_end as int);
    }
    if ua_end == n {
        return Err(ParseError::Grammar);
    }
    let tail_end: usize = scan_run(line, ua_end + 1, n, CharClass::Blank);
    proof {
        assert(p.tail_end == tail_end as int);
    }
    if tail_end != n {
        return Err(ParseError::Grammar);
    }
    proof {
        assert(grammar_ok(s));
    }

    // Every group is in place; the remaining failures are the timestamp and
    // the bytes field.
    let ts_str: &str = line.substring_char(lb + 1, ts_end);
    let t: Timestamp = match parse_ts(ts_str) {
        Some(t) => t,
        None => {
            return Err(ParseError::Timestamp);
        },
    };

    let bytes_str: &str = line.substring_char(bytes_start, bytes_end);
    let bytes: Option<i64> = if bytes_end - bytes_start == 1 && line.get_char(bytes_start) == '-' {
        proof {
            assert(bytes_text(s) =~= seq!['-']);
        }
        None
    } else {
        proof {
            if bytes_text(s) == seq!['-'] {
                assert(bytes_text(s).len() == 1);
                assert(bytes_text(s)[0] == s[bytes_start as int]);
                assert(false);
            }
        }
        match parse_decimal_i64(bytes_str) {
            Some(v) => Some(v),
            None => {
                return Err(ParseError::Bytes);
            },
        }
    };

    let url_str: &str = line.substring_char(url_start, url_end);
    let url: String = String::from_str(url_str);
    let (scheme, host, port, path, query): (
        Option<String>,
        Option<String>,
        Option<i32>,
        Option<String>,
        Option<String>,
    ) = match split_url(url_str) {
        Some(u) => (
            Some(u.scheme),
            u.host,
            match u.port {
                Some(pt) => Some(pt as i32),
                None => None,
            },
            Some(u.path),
            u.query,
        ),
        None => (None, None, None, None, None),
    };

    let status: i32 = (100 * d0 + 10 * d1 + d2) as i32;

    let row = LogRow {
        remote_addr: String::from_str(line.substring_char(0, addr_end)),
        identd: none_if_dash(line.substring_char(identd_start, identd_end)),
        user_or_session: none_if_dash(line.substring_char(user_start, user_end)),
        ts: t,
        method: String::from_str(line.substring_char(q1 + 1, method_end)),
        url,
        scheme,
        host,
        port,
        path,
        query,
        http_version: String::from_str(line.substring_char(ver_start, q2)),
        status,
        bytes,
        country: trimmed_or_none(line.substring_char(q3 + 1, country_end)),
        user_agent: trimmed_or_none(line.substring_char(q4 + 1, ua_end)),
        raw: String::from_str(line),
    };
    proof {
        assert(row@ =~= row_model(s, t));
    }
    Ok(row)
}

/// Law: a parsed record keeps the raw input line verbatim.
pub proof fn lemma_raw_preserved(s: Seq<char>)
    ensures
        spec_parse_line(s) matches Ok(m) ==> m.raw == s,
{
}

/// Law: parsing is a pure function of the line text; equal lines parse to
/// field-for-field equal outcomes.
pub proof fn lemma_parse_deterministic(a: Seq<char>, b: Seq<char>)
    requires
        a == b,
    ensures
        spec_parse_line(a) == spec_parse_line(b),
{
}

/// Law: in a parsed record the bytes field is absent exactly when the source
/// field is the dash placeholder, and otherwise carries the decimal value of
/// its digits.
pub proof fn lemma_bytes_field(s: Seq<char>)
    ensures
        spec_parse_line(s) matches Ok(m) ==> {
            &&& (bytes_text(s) == seq!['-'] <==> m.bytes is None)
            &&& (m.bytes matches Some(v) ==> v as int == dec_val(bytes_text(s)))
        },
{
    if spec_parse_line(s) is Ok {
        if bytes_text(s) != seq!['-'] {
            crate::scan::lemma_dec_val_nonneg(bytes_text(s));
        }
    }
}

/// Law: the optional text fields of a parsed record are absent exactly as
/// the grammar says: identd and user_or_session when they trim to the dash
/// placeholder, country and user_agent when they trim to nothing; each
/// otherwise carries the trimmed source text.
pub proof fn lemma_optional_fields(s: Seq<char>)
    ensures
        spec_parse_line(s) matches Ok(m) ==> {
            &&& m.identd == dash_to_none(identd_text(s))
            &&& m.user_or_session == dash_to_none(user_text(s))
            &&& m.country == empty_to_none(country_text(s))
            &&& m.user_agent == empty_to_none(ua_text(s))
        },
{
}

} // verus!
