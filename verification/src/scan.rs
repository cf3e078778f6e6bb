//! Low-level text scanning: character classes, maximal runs, trimming and
//! decimal tokens. The line grammar in [`crate::parser`] is phrased entirely
//! in terms of these functions.

use vstd::prelude::*;

verus! {

/// Blank characters. Fields of a log line are separated by runs of blanks;
/// trimming removes leading and trailing blanks.
pub open spec fn is_blank(c: char) -> bool {
    c == ' ' || c == '\t'
}

/// ASCII decimal digits.
pub open spec fn is_ascii_digit(c: char) -> bool {
    48 <= c as u32 && c as u32 <= 57
}

/// Numeric value of an ASCII digit.
pub open spec fn digit_val(c: char) -> int {
    c as u32 - 48
}

/// The character classes whose maximal runs delimit the fields of a line.
#[derive(Clone, Copy, PartialEq, Eq, Structural)]
pub enum CharClass {
    /// Anything but a blank: the body of an unquoted field.
    NonBlank,
    /// A blank: the separators, and what trimming removes.
    Blank,
    /// Anything but a double quote: the body of a quoted group.
    NonQuote,
    /// Anything but a closing square bracket: the body of the timestamp group.
    NonRBracket,
}

pub open spec fn in_class(c: char, k: CharClass) -> bool {
    match k {
        CharClass::NonBlank => !is_blank(c),
        CharClass::Blank => is_blank(c),
        CharClass::NonQuote => c != '"',
        CharClass::NonRBracket => c != ']',
    }
}

fn char_in_class(c: char, k: CharClass) -> (b: bool)
    ensures
        b == in_class(c, k),
{
    match k {
        CharClass::NonBlank => !(c == ' ' || c == '\t'),
        CharClass::Blank => c == ' ' || c == '\t',
        CharClass::NonQuote => c != '"',
        CharClass::NonRBracket => c != ']',
    }
}

/// First index at or after `i` where the run of class-`k` characters ends:
/// either the end of the text or the first character outside the class.
pub open spec fn run_end(s: Seq<char>, i: int, k: CharClass) -> int
    decreases s.len() - i,
{
    if i < 0 || i >= s.len() {
        i
    } else if in_class(s[i], k) {
        run_end(s, i + 1, k)
    } else {
        i
    }
}

pub proof fn lemma_run_end_props(s: Seq<char>, i: int, k: CharClass)
    requires
        0 <= i <= s.len(),
    ensures
        i <= run_end(s, i, k) <= s.len(),
        forall|j: int| i <= j < run_end(s, i, k) ==> in_class(s[j], k),
        run_end(s, i, k) < s.len() ==> !in_class(s[run_end(s, i, k)], k),
    decreases s.len() - i,
{
    if i < s.len() && in_class(s[i], k) {
        lemma_run_end_props(s, i + 1, k);
    }
}

/// Walk the maximal run of class-`k` characters starting at `i`.
pub fn scan_run(s: &str, i: usize, n: usize, k: CharClass) -> (j: usize)
    requires
        n == s@.len(),
        i <= n,
    ensures
        j == run_end(s@, i as int, k),
        i <= j <= n,
{
    let mut j = i;
    while j < n && char_in_class(s.get_char(j), k)
        invariant
            i <= j <= n,
            n == s@.len(),
            run_end(s@, i as int, k) == run_end(s@, j as int, k),
        decreases n - j,
    {
        j = j + 1;
    }
    j
}

/// Index just past the last non-blank character; 0 when there is none.
pub open spec fn trim_end_idx(s: Seq<char>) -> int
    decreases s.len(),
{
    if s.len() == 0 {
        0
    } else if is_blank(s.last()) {
        trim_end_idx(s.drop_last())
    } else {
        s.len() as int
    }
}

pub proof fn lemma_trim_end_bounds(s: Seq<char>)
    ensures
        0 <= trim_end_idx(s) <= s.len(),
    decreases s.len(),
{
    if s.len() > 0 && is_blank(s.last()) {
        lemma_trim_end_bounds(s.drop_last());
    }
}

proof fn lemma_trim_end_all_blank(s: Seq<char>)
    requires
        forall|i: int| 0 <= i < s.len() ==> is_blank(s[i]),
    ensures
        trim_end_idx(s) == 0,
    decreases s.len(),
{
    if s.len() > 0 {
        lemma_trim_end_all_blank(s.drop_last());
    }
}

/// The text with leading and trailing blanks removed.
pub open spec fn spec_trim(s: Seq<char>) -> Seq<char> {
    let b = run_end(s, 0, CharClass::Blank);
    let e = trim_end_idx(s);
    if b <= e {
        s.subrange(b, e)
    } else {
        Seq::empty()
    }
}

/// The half-open range that trimming keeps, as indices into `s`.
fn trim_bounds(s: &str, n: usize) -> (r: (usize, usize))
    requires
        n == s@.len(),
    ensures
        r.0 <= r.1 <= n,
        spec_trim(s@) == s@.subrange(r.0 as int, r.1 as int),
{
    let b = scan_run(s, 0, n, CharClass::Blank);
    proof {
        lemma_run_end_props(s@, 0, CharClass::Blank);
        lemma_trim_end_bounds(s@);
        assert(s@.take(n as int) =~= s@);
    }
    let mut j = n;
    while j > b && char_in_class(s.get_char(j - 1), CharClass::Blank)
        invariant
            b <= j <= n,
            n == s@.len(),
            b == run_end(s@, 0, CharClass::Blank),
            trim_end_idx(s@) == trim_end_idx(s@.take(j as int)),
            forall|m: int| j <= m < n ==> is_blank(s@[m]),
        decreases j,
    {
        proof {
            assert(s@.take(j as int).drop_last() =~= s@.take(j - 1));
        }
        j = j - 1;
    }
    proof {
        lemma_run_end_props(s@, 0, CharClass::Blank);
        if j == b {
            if b < n {
                // run_end stopped at a non-blank, yet everything from j == b
                // on is blank: impossible, so all of s is blank here.
                assert(!is_blank(s@[b as int]));
                assert(false);
            }
            assert(forall|m: int| 0 <= m < s@.len() ==> is_blank(s@[m]));
            lemma_trim_end_all_blank(s@);
            assert(spec_trim(s@) =~= s@.subrange(j as int, j as int));
        } else {
            assert(!is_blank(s@[j - 1]));
            assert(s@.take(j as int).len() == j);
            assert(s@.take(j as int).last() == s@[j - 1]);
            assert(trim_end_idx(s@.take(j as int)) == j);
            assert(spec_trim(s@) =~= s@.subrange(b as int, j as int));
        }
    }
    (b, j)
}

/// What an optional quoted field denotes: absent when nothing but blanks
/// remains after trimming, the trimmed text otherwise.
pub open spec fn empty_to_none(t: Seq<char>) -> Option<Seq<char>> {
    if spec_trim(t).len() == 0 {
        None
    } else {
        Some(spec_trim(t))
    }
}

/// What an optional dash-placeholder field denotes: absent when the text
/// trims to a single dash, the trimmed text otherwise.
pub open spec fn dash_to_none(t: Seq<char>) -> Option<Seq<char>> {
    if spec_trim(t) == seq!['-'] {
        None
    } else {
        Some(spec_trim(t))
    }
}

/// Trimmed copy of the field, or `None` when only blanks remain.
pub fn trimmed_or_none(s: &str) -> (r: Option<String>)
    ensures
        r.deep_view() == empty_to_none(s@),
{
    let n = s.unicode_len();
    let (b, e) = trim_bounds(s, n);
    if b == e {
        None
    } else {
        Some(String::from_str(s.substring_char(b, e)))
    }
}

/// Trimmed copy of the field, or `None` when it is the literal placeholder
/// dash.
pub fn none_if_dash(s: &str) -> (r: Option<String>)
    ensures
        r.deep_view() == dash_to_none(s@),
{
    let n = s.unicode_len();
    let (b, e) = trim_bounds(s, n);
    if e - b == 1 && s.get_char(b) == '-' {
        proof {
            assert(spec_trim(s@) =~= seq!['-']);
        }
        None
    } else {
        proof {
            if spec_trim(s@) == seq!['-'] {
                assert(spec_trim(s@).len() == 1);
                assert(s@.subrange(b as int, e as int)[0] == s@[b as int]);
                assert(false);
            }
        }
        Some(String::from_str(s.substring_char(b, e)))
    }
}

/// Value of an ASCII digit, or `None` for any other character.
pub fn ascii_digit_val(c: char) -> (r: Option<u32>)
    ensures
        match r {
            Some(d) => is_ascii_digit(c) && d == digit_val(c) && d <= 9,
            None => !is_ascii_digit(c),
        },
{
    let u = c as u32;
    if 48 <= u && u <= 57 {
        Some(u - 48)
    } else {
        None
    }
}

/// Every character is an ASCII digit.
pub open spec fn all_digits(s: Seq<char>) -> bool {
    forall|i: int| 0 <= i < s.len() ==> is_ascii_digit(s[i])
}

/// Value of a string of ASCII digits read in base ten.
pub open spec fn dec_val(s: Seq<char>) -> int
    decreases s.len(),
{
    if s.len() == 0 {
        0
    } else {
        dec_val(s.drop_last()) * 10 + digit_val(s.last())
    }
}

pub proof fn lemma_dec_val_nonneg(s: Seq<char>)
    requires
        all_digits(s),
    ensures
        dec_val(s) >= 0,
    decreases s.len(),
{
    if s.len() > 0 {
        assert(all_digits(s.drop_last()));
        lemma_dec_val_nonneg(s.drop_last());
    }
}

/// A prefix of a digit string never exceeds the whole string in value.
pub proof fn lemma_dec_val_prefix(s: Seq<char>, m: int)
    requires
        all_digits(s),
        0 <= m <= s.len(),
    ensures
        dec_val(s.take(m)) <= dec_val(s),
    decreases s.len(),
{
    if m == s.len() {
        assert(s.take(m) =~= s);
    } else {
        assert(all_digits(s.drop_last()));
        assert(s.drop_last().take(m) =~= s.take(m));
        lemma_dec_val_prefix(s.drop_last(), m);
        lemma_dec_val_nonneg(s.drop_last());
    }
}

/// Base-ten value of a token of ASCII digits, when the token is nothing but
/// digits and the value fits a signed 64-bit integer.
pub fn parse_decimal_i64(s: &str) -> (r: Option<i64>)
    ensures
        match r {
            Some(v) => s@.len() > 0 && all_digits(s@) && v as int == dec_val(s@) && v >= 0,
            None => !(s@.len() > 0 && all_digits(s@) && dec_val(s@) <= i64::MAX),
        },
{
    let n = s.unicode_len();
    if n == 0 {
        return None;
    }
    let mut acc: i64 = 0;
    let mut i: usize = 0;
    while i < n
        invariant
            0 <= i <= n,
            n == s@.len(),
            0 <= acc <= i64::MAX,
            acc as int == dec_val(s@.take(i as int)),
            all_digits(s@.take(i as int)),
        decreases n - i,
    {
        let c = s.get_char(i);
        let d: i64 = match ascii_digit_val(c) {
            Some(d) => d as i64,
            None => {
                return None;
            },
        };
        proof {
            assert(s@.take(i + 1).drop_last() =~= s@.take(i as int));
            assert(s@.take(i + 1).last() == s@[i as int]);
            assert(dec_val(s@.take(i + 1)) == acc * 10 + d);
            assert(all_digits(s@.take(i + 1)));
        }
        if acc > (i64::MAX - d) / 10 {
            proof {
                let hi = i64::MAX - d;
                assert(hi == (hi / 10) * 10 + hi % 10) by (nonlinear_arith)
                    requires
                        hi >= 0,
                ;
                assert(acc * 10 >= (hi / 10 + 1) * 10) by (nonlinear_arith)
                    requires
                        acc >= hi / 10 + 1,
                ;
                assert(dec_val(s@.take(i + 1)) > i64::MAX);
                if all_digits(s@) {
                    lemma_dec_val_prefix(s@, i + 1);
                }
            }
            return None;
        }
        proof {
            let hi = i64::MAX - d;
            assert(hi == (hi / 10) * 10 + hi % 10) by (nonlinear_arith)
                requires
                    hi >= 0,
            ;
            assert(acc * 10 <= (hi / 10) * 10) by (nonlinear_arith)
                requires
                    acc <= hi / 10,
                    acc >= 0,
            ;
        }
        acc = acc * 10 + d;
        i = i + 1;
    }
    proof {
        assert(s@.take(n as int) =~= s@);
    }
    Some(acc)
}

/// Value of three digit characters read as a three-digit number.
pub open spec fn three_digit_val(a: char, b: char, c: char) -> int {
    100 * digit_val(a) + 10 * digit_val(b) + digit_val(c)
}

} // verus!
