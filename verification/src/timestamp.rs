//! The textual timestamp format used for task start and end times:
//! `YYYY-MM-DD HH:MM:SS`.  Parsing a malformed string is a recoverable
//! failure, never a crash.

use vstd::prelude::*;

verus! {

/// A calendar timestamp with second precision.
#[derive(Debug, Clone, Copy, PartialEq, Eq, Structural)]
pub struct Timestamp {
    pub year: u16,
    pub month: u8,
    pub day: u8,
    pub hour: u8,
    pub minute: u8,
    pub second: u8,
}

/// Gregorian leap-year rule.
pub open spec fn spec_is_leap_year(y: int) -> bool {
    (y % 4 == 0 && y % 100 != 0) || y % 400 == 0
}

/// Number of days in a month of a given year.
pub open spec fn spec_days_in_month(y: int, m: int) -> int {
    if m == 2 {
        if spec_is_leap_year(y) {
            29
        } else {
            28
        }
    } else if m == 4 || m == 6 || m == 9 || m == 11 {
        30
    } else {
        31
    }
}

impl Timestamp {
    /// A timestamp that denotes a real calendar date and a real time of day.
    pub open spec fn valid(self) -> bool {
        &&& self.year <= 9999
        &&& 1 <= self.month <= 12
        &&& 1 <= self.day <= spec_days_in_month(self.year as int, self.month as int)
        &&& self.hour < 24
        &&& self.minute < 60
        &&& self.second < 60
    }
}

/// Number of days in a month of a given year.
pub fn days_in_month(year: u16, month: u8) -> (r: u8)
    requires
        1 <= month <= 12,
    ensures
        r == spec_days_in_month(year as int, month as int),
{
    if month == 2 {
        if (year % 4 == 0 && year % 100 != 0) || year % 400 == 0 {
            29
        } else {
            28
        }
    } else if month == 4 || month == 6 || month == 9 || month == 11 {
        30
    } else {
        31
    }
}

/// The decimal digit character for `d` in `0..=9` (and `'0'` otherwise).
pub open spec fn digit_char(d: int) -> char {
    if d == 1 {
        '1'
    } else if d == 2 {
        '2'
    } else if d == 3 {
        '3'
    } else if d == 4 {
        '4'
    } else if d == 5 {
        '5'
    } else if d == 6 {
        '6'
    } else if d == 7 {
        '7'
    } else if d == 8 {
        '8'
    } else if d == 9 {
        '9'
    } else {
        '0'
    }
}

/// The value of a decimal digit character, or `-1` for any other character.
pub open spec fn digit_val(c: char) -> int {
    if c == '0' {
        0
    } else if c == '1' {
        1
    } else if c == '2' {
        2
    } else if c == '3' {
        3
    } else if c == '4' {
        4
    } else if c == '5' {
        5
    } else if c == '6' {
        6
    } else if c == '7' {
        7
    } else if c == '8' {
        8
    } else if c == '9' {
        9
    } else {
        -1
    }
}

/// The canonical 19-character rendering `YYYY-MM-DD HH:MM:SS`.
pub open spec fn spec_format(ts: Timestamp) -> Seq<char> {
    let y = ts.year as int;
    let mo = ts.month as int;
    let d = ts.day as int;
    let h = ts.hour as int;
    let mi = ts.minute as int;
    let s = ts.second as int;
    seq![
        digit_char(y / 1000),
        digit_char(y / 100 % 10),
        digit_char(y / 10 % 10),
        digit_char(y % 10),
        '-',
        digit_char(mo / 10),
        digit_char(mo % 10),
        '-',
        digit_char(d / 10),
        digit_char(d % 10),
        ' ',
        digit_char(h / 10),
        digit_char(h % 10),
        ':',
        digit_char(mi / 10),
        digit_char(mi % 10),
        ':',
        digit_char(s / 10),
        digit_char(s % 10),
    ]
}

/// Whether `s` has the exact shape `YYYY-MM-DD HH:MM:SS` with decimal
/// digits at every digit position.
pub open spec fn well_shaped(s: Seq<char>) -> bool {
    &&& s.len() == 19
    &&& digit_val(s[0]) >= 0
    &&& digit_val(s[1]) >= 0
    &&& digit_val(s[2]) >= 0
    &&& digit_val(s[3]) >= 0
    &&& s[4] == '-'
    &&& digit_val(s[5]) >= 0
    &&& digit_val(s[6]) >= 0
    &&& s[7] == '-'
    &&& digit_val(s[8]) >= 0
    &&& digit_val(s[9]) >= 0
    &&& s[10] == ' '
    &&& digit_val(s[11]) >= 0
    &&& digit_val(s[12]) >= 0
    &&& s[13] == ':'
    &&& digit_val(s[14]) >= 0
    &&& digit_val(s[15]) >= 0
    &&& s[16] == ':'
    &&& digit_val(s[17]) >= 0
    &&& digit_val(s[18]) >= 0
}

/// The timestamp denoted by a well-shaped string (meaningful only when
/// `well_shaped(s)` holds).
pub open spec fn shaped_value(s: Seq<char>) -> Timestamp {
    Timestamp {
        year: (1000 * digit_val(s[0]) + 100 * digit_val(s[1]) + 10 * digit_val(s[2]) + digit_val(
            s[3],
        )) as u16,
        month: (10 * digit_val(s[5]) + digit_val(s[6])) as u8,
        day: (10 * digit_val(s[8]) + digit_val(s[9])) as u8,
        hour: (10 * digit_val(s[11]) + digit_val(s[12])) as u8,
        minute: (10 * digit_val(s[14]) + digit_val(s[15])) as u8,
        second: (10 * digit_val(s[17]) + digit_val(s[18])) as u8,
    }
}

/// What parsing yields: the denoted timestamp when the string is well shaped
/// and denotes a real calendar moment, nothing otherwise.
pub open spec fn spec_parse(s: Seq<char>) -> Option<Timestamp> {
    if well_shaped(s) && shaped_value(s).valid() {
        Some(shaped_value(s))
    } else {
        None
    }
}

/// The decimal value of a digit character.
fn digit_of(c: char) -> (r: Option<u8>)
    ensures
        match r {
            Some(d) => digit_val(c) == d as int && d < 10,
            None => digit_val(c) < 0,
        },
{
    match c {
        '0' => Some(0),
        '1' => Some(1),
        '2' => Some(2),
        '3' => Some(3),
        '4' => Some(4),
        '5' => Some(5),
        '6' => Some(6),
        '7' => Some(7),
        '8' => Some(8),
        '9' => Some(9),
        _ => None,
    }
}

/// Parse `YYYY-MM-DD HH:MM:SS`; reject anything else, including dates that
/// do not exist on the calendar.
pub fn parse_timestamp(s: &str) -> (r: Option<Timestamp>)
    ensures
        r == spec_parse(s@),
{
    if s.unicode_len() != 19 {
        return None;
    }
    let d0 = match digit_of(s.get_char(0)) {
        Some(d) => d,
        None => {
            return None;
        },
    };
    let d1 = match digit_of(s.get_char(1)) {
        Some(d) => d,
        None => {
            return None;
        },
    };
    let d2 = match digit_of(s.get_char(2)) {
        Some(d) => d,
        None => {
            return None;
        },
    };
    let d3 = match digit_of(s.get_char(3)) {
        Some(d) => d,
        None => {
            return None;
        },
    };
    if s.get_char(4) != '-' {
        return None;
    }
    let d5 = match digit_of(s.get_char(5)) {
        Some(d) => d,
        None => {
            return None;
        },
    };
    let d6 = match digit_of(s.get_char(6)) {
        Some(d) => d,
        None => {
            return None;
        },
    };
    if s.get_char(7) != '-' {
        return None;
    }
    let d8 = match digit_of(s.get_char(8)) {
        Some(d) => d,
        None => {
            return None;
        },
    };
    let d9 = match digit_of(s.get_char(9)) {
        Some(d) => d,
        None => {
            return None;
        },
    };
    if s.get_char(10) != ' ' {
        return None;
    }
    let d11 = match digit_of(s.get_char(11)) {
        Some(d) => d,
        None => {
            return None;
        },
    };
    let d12 = match digit_of(s.get_char(12)) {
        Some(d) => d,
        None => {
            return None;
        },
    };
    if s.get_char(13) != ':' {
        return None;
    }
    let d14 = match digit_of(s.get_char(14)) {
        Some(d) => d,
        None => {
            return None;
        },
    };
    let d15 = match digit_of(s.get_char(15)) {
        Some(d) => d,
        None => {
            return None;
        },
    };
    if s.get_char(16) != ':' {
        return None;
    }
    let d17 = match digit_of(s.get_char(17)) {
        Some(d) => d,
        None => {
            return None;
        },
    };
    let d18 = match digit_of(s.get_char(18)) {
        Some(d) => d,
        None => {
            return None;
        },
    };
    let ts = Timestamp {
        year: 1000 * (d0 as u16) + 100 * (d1 as u16) + 10 * (d2 as u16) + (d3 as u16),
        month: 10 * d5 + d6,
        day: 10 * d8 + d9,
        hour: 10 * d11 + d12,
        minute: 10 * d14 + d15,
        second: 10 * d17 + d18,
    };
    if ts.month < 1 || ts.month > 12 {
        return None;
    }
    if ts.day < 1 || ts.day > days_in_month(ts.year, ts.month) {
        return None;
    }
    if ts.hour >= 24 || ts.minute >= 60 || ts.second >= 60 {
        return None;
    }
    Some(ts)
}

/// One character of decimal output.
fn digit_str(d: u8) -> (r: &'static str)
    requires
        d < 10,
    ensures
        r@ =~= seq![digit_char(d as int)],
{
    match d {
        0 => {
            proof {
                reveal_strlit("0");
            }
            "0"
        },
        1 => {
            proof {
                reveal_strlit("1");
            }
            "1"
        },
        2 => {
            proof {
                reveal_strlit("2");
            }
            "2"
        },
        3 => {
            proof {
                reveal_strlit("3");
            }
            "3"
        },
        4 => {
            proof {
                reveal_strlit("4");
            }
            "4"
        },
        5 => {
            proof {
                reveal_strlit("5");
            }
            "5"
        },
        6 => {
            proof {
                reveal_strlit("6");
            }
            "6"
        },
        7 => {
            proof {
                reveal_strlit("7");
            }
            "7"
        },
        8 => {
            proof {
                reveal_strlit("8");
            }
            "8"
        },
        _ => {
            proof {
                reveal_strlit("9");
            }
            "9"
        },
    }
}

/// Append `n` as exactly two decimal digits.
fn append_two_digits(out: &mut String, n: u8)
    requires
        n < 100,
    ensures
        final(out)@ == old(out)@ + seq![digit_char(n as int / 10), digit_char(n as int % 10)],
{
    out.append(digit_str(n / 10));
    out.append(digit_str(n % 10));
    assert(final(out)@ =~= old(out)@ + seq![
        digit_char(n as int / 10),
        digit_char(n as int % 10),
    ]);
}

/// Render a timestamp as `YYYY-MM-DD HH:MM:SS`.
pub fn format_timestamp(ts: &Timestamp) -> (r: String)
    requires
        ts.valid(),
    ensures
        r@ == spec_format(*ts),
{
    let mut out = String::new();
    let y = ts.year;
    out.append(digit_str((y / 1000) as u8));
    out.append(digit_str((y / 100 % 10) as u8));
    out.append(digit_str((y / 10 % 10) as u8));
    out.append(digit_str((y % 10) as u8));
    proof {
        reveal_strlit("-");
        reveal_strlit(" ");
        reveal_strlit(":");
    }
    out.append("-");
    append_two_digits(&mut out, ts.month);
    out.append("-");
    append_two_digits(&mut out, ts.day);
    out.append(" ");
    append_two_digits(&mut out, ts.hour);
    out.append(":");
    append_two_digits(&mut out, ts.minute);
    out.append(":");
    append_two_digits(&mut out, ts.second);
    assert(out@ =~= spec_format(*ts));
    out
}

/// Rendering a digit and reading it back is the identity.
proof fn lemma_digit_round(d: int)
    requires
        0 <= d <= 9,
    ensures
        digit_val(digit_char(d)) == d,
{
}

/// Splitting a four-digit number into its decimal digits loses nothing.
proof fn lemma_decompose_four(y: int)
    requires
        0 <= y <= 9999,
    ensures
        1000 * (y / 1000) + 100 * (y / 100 % 10) + 10 * (y / 10 % 10) + y % 10 == y,
{
    assert(y == 10 * (y / 10) + y % 10);
    assert(y / 10 == 10 * (y / 100) + (y / 10) % 10);
    assert(y / 100 == 10 * (y / 1000) + (y / 100) % 10);
}

/// A well-shaped rendering parses back to exactly the timestamp it came
/// from: formatting then parsing is the identity on valid timestamps.
pub proof fn lemma_format_parse_round_trip(ts: Timestamp)
    requires
        ts.valid(),
    ensures
        spec_parse(spec_format(ts)) == Some(ts),
{
    let s = spec_format(ts);
    let y = ts.year as int;
    let mo = ts.month as int;
    let d = ts.day as int;
    let h = ts.hour as int;
    let mi = ts.minute as int;
    let sec = ts.second as int;
    lemma_digit_round(y / 1000);
    lemma_digit_round(y / 100 % 10);
    lemma_digit_round(y / 10 % 10);
    lemma_digit_round(y % 10);
    lemma_digit_round(mo / 10);
    lemma_digit_round(mo % 10);
    lemma_digit_round(d / 10);
    lemma_digit_round(d % 10);
    lemma_digit_round(h / 10);
    lemma_digit_round(h % 10);
    lemma_digit_round(mi / 10);
    lemma_digit_round(mi % 10);
    lemma_digit_round(sec / 10);
    lemma_digit_round(sec % 10);
    assert(well_shaped(s));
    lemma_decompose_four(y);
    assert(mo == 10 * (mo / 10) + mo % 10);
    assert(d == 10 * (d / 10) + d % 10);
    assert(h == 10 * (h / 10) + h % 10);
    assert(mi == 10 * (mi / 10) + mi % 10);
    assert(sec == 10 * (sec / 10) + sec % 10);
    assert(shaped_value(s) == ts);
}

} // verus!
