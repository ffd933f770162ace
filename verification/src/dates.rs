//! Calendar dates as plain values. Parsing text under a configured format is
//! the date library's work, reached through one trusted wrapper; holding the
//! parsed date and rendering it as ISO `year-month-day` text is verified here.

use vstd::prelude::*;
use vstd::string::StringExecFns;
use chrono::Datelike;

verus! {

/// A calendar date as the three plain values the pipeline reads and renders.
#[derive(Clone, Copy, Debug, PartialEq, Eq, Structural)]
pub struct Date {
    /// Proleptic Gregorian year.
    pub year: i32,
    /// Month, starting at 1.
    pub month: u32,
    /// Day of month, starting at 1.
    pub day: u32,
}

impl Date {
    /// Month and day in their calendar ranges, the year within the range the
    /// date library can represent.
    pub open spec fn wf(&self) -> bool {
        -262143 <= self.year <= 262142 && 1 <= self.month <= 12 && 1 <= self.day <= 31
    }
}

/// The calendar date that `s` denotes under the date format `fmt`, or `None`
/// where `s` does not conform to `fmt`: a function of the two strings alone.
pub uninterp spec fn date_of(fmt: Seq<char>, s: Seq<char>) -> Option<(int, int, int)>;

/// Relies on `chrono::NaiveDate::parse_from_str` and the `Datelike` accessors
/// `year`, `month` and `day`: whether text parses under a format, and as which
/// calendar date, depends on the two strings alone. `month` and `day` are
/// documented to lie in `1..=12` and `1..=31`, and a `NaiveDate`'s year within
/// the representable range stated by [`Date::wf`].
#[verifier::external_body]
pub fn parse_date(s: &str, fmt: &str) -> (r: Option<Date>)
    ensures
        r is Some <==> date_of(fmt@, s@) is Some,
        r matches Some(d) ==> date_of(fmt@, s@) == Some(
            (d.year as int, d.month as int, d.day as int),
        ) && d.wf(),
{
    match chrono::NaiveDate::parse_from_str(s, fmt) {
        Ok(d) => Some(Date { year: d.year(), month: d.month(), day: d.day() }),
        Err(_) => None,
    }
}

/// The decimal digit character for `d`.
pub open spec fn digit_char(d: nat) -> char {
    if d == 0 {
        '0'
    } else if d == 1 {
        '1'
    } else if d == 2 {
        '2'
    } else if d == 3 {
        '3'
    } else if d == 4 {
        '4'
    } else if d == 5 {
        '5'
    } else if d == 6 {
        '6'
    } else if d == 7 {
        '7'
    } else if d == 8 {
        '8'
    } else {
        '9'
    }
}

/// The decimal digit string of `n`, most significant digit first.
pub open spec fn dec_of(n: nat) -> Seq<char>
    decreases n,
{
    if n < 10 {
        seq![digit_char(n)]
    } else {
        dec_of(n / 10) + seq![digit_char(n % 10)]
    }
}

/// `s` filled with zeroes on the left up to two characters.
pub open spec fn zero_pad2(s: Seq<char>) -> Seq<char> {
    if s.len() >= 2 {
        s
    } else {
        seq!['0'] + s
    }
}

/// `s` filled with zeroes on the left up to four characters.
pub open spec fn zero_pad4(s: Seq<char>) -> Seq<char> {
    if s.len() >= 4 {
        s
    } else if s.len() == 3 {
        seq!['0'] + s
    } else if s.len() == 2 {
        seq!['0', '0'] + s
    } else {
        seq!['0', '0', '0'] + s
    }
}

/// The year as ISO text: four digits at least, and an explicit sign in front
/// of a year outside 0..=9999 (`-0044`, `+10000`), as ISO 8601 asks.
pub open spec fn spec_year_str(y: int) -> Seq<char> {
    if y < 0 {
        seq!['-'] + zero_pad4(dec_of((-y) as nat))
    } else if y > 9999 {
        seq!['+'] + zero_pad4(dec_of(y as nat))
    } else {
        zero_pad4(dec_of(y as nat))
    }
}

/// A date as ISO text: year, month and day separated by `-`, the month and
/// day zero-padded to two digits.
pub open spec fn spec_date_str(d: (int, int, int)) -> Seq<char> {
    spec_year_str(d.0) + seq!['-'] + zero_pad2(dec_of(d.1 as nat)) + seq!['-'] + zero_pad2(
        dec_of(d.2 as nat),
    )
}

proof fn lemma_dec_len(n: nat)
    ensures
        n < 10 ==> dec_of(n).len() == 1,
        10 <= n < 100 ==> dec_of(n).len() == 2,
        100 <= n < 1000 ==> dec_of(n).len() == 3,
        n >= 1000 ==> dec_of(n).len() >= 4,
    decreases n,
{
    if n >= 10 {
        lemma_dec_len(n / 10);
    }
}

/// The one-character string for the decimal digit `d`.
fn digit_str(d: u32) -> (r: &'static str)
    requires
        d < 10,
    ensures
        r@ == seq![digit_char(d as nat)],
{
    proof {
        reveal_strlit("0");
        reveal_strlit("1");
        reveal_strlit("2");
        reveal_strlit("3");
        reveal_strlit("4");
        reveal_strlit("5");
        reveal_strlit("6");
        reveal_strlit("7");
        reveal_strlit("8");
        reveal_strlit("9");
    }
    match d {
        0 => "0",
        1 => "1",
        2 => "2",
        3 => "3",
        4 => "4",
        5 => "5",
        6 => "6",
        7 => "7",
        8 => "8",
        _ => "9",
    }
}

/// The decimal digit string of `n`.
pub fn u32_dec(n: u32) -> (r: String)
    ensures
        r@ == dec_of(n as nat),
    decreases n,
{
    if n < 10 {
        String::from_str(digit_str(n))
    } else {
        let mut s = u32_dec(n / 10);
        s.append(digit_str(n % 10));
        s
    }
}

/// The decimal digit string of `n`, zero-padded to at least two characters.
fn pad2_digits(n: u32) -> (r: String)
    ensures
        r@ == zero_pad2(dec_of(n as nat)),
{
    proof {
        lemma_dec_len(n as nat);
    }
    let d = u32_dec(n);
    if n < 10 {
        let mut s = String::from_str("0");
        s.append(d.as_str());
        proof {
            reveal_strlit("0");
            assert("0"@ =~= seq!['0']);
        }
        s
    } else {
        d
    }
}

/// The decimal digit string of `n`, zero-padded to at least four characters.
fn pad4_digits(n: u32) -> (r: String)
    ensures
        r@ == zero_pad4(dec_of(n as nat)),
{
    proof {
        lemma_dec_len(n as nat);
        reveal_strlit("0");
        reveal_strlit("00");
        reveal_strlit("000");
        assert("0"@ =~= seq!['0']);
        assert("00"@ =~= seq!['0', '0']);
        assert("000"@ =~= seq!['0', '0', '0']);
    }
    let d = u32_dec(n);
    if n < 10 {
        let mut s = String::from_str("000");
        s.append(d.as_str());
        s
    } else if n < 100 {
        let mut s = String::from_str("00");
        s.append(d.as_str());
        s
    } else if n < 1000 {
        let mut s = String::from_str("0");
        s.append(d.as_str());
        s
    } else {
        d
    }
}

/// Renders a date as ISO `year-month-day` text.
pub fn format_date(d: &Date) -> (r: String)
    requires
        d.wf(),
    ensures
        r@ == spec_date_str((d.year as int, d.month as int, d.day as int)),
{
    let mut s: String;
    if d.year < 0 {
        s = String::from_str("-");
        let mag: u32 = (0i32 - d.year) as u32;
        s.append(pad4_digits(mag).as_str());
        proof {
            reveal_strlit("-");
            assert("-"@ =~= seq!['-']);
        }
    } else if d.year > 9999 {
        s = String::from_str("+");
        s.append(pad4_digits(d.year as u32).as_str());
        proof {
            reveal_strlit("+");
            assert("+"@ =~= seq!['+']);
        }
    } else {
        s = pad4_digits(d.year as u32);
    }
    s.append("-");
    s.append(pad2_digits(d.month).as_str());
    s.append("-");
    s.append(pad2_digits(d.day).as_str());
    proof {
        reveal_strlit("-");
        assert("-"@ =~= seq!['-']);
        assert(s@ =~= spec_date_str((d.year as int, d.month as int, d.day as int)));
    }
    s
}

} // verus!
