//! Date fields of the wire protocol.
//!
//! Several requests and replies carry a calendar date as the eight digits
//! `YYYYMMDD`. Formatting and parsing are exact inverses on valid dates.
use vstd::prelude::*;
use vstd::string::StringExecFns;

use crate::error::Error;

verus! {

/// A calendar date as plain fields.
#[derive(Clone, Copy, Debug, PartialEq, Eq, Structural)]
pub struct Date {
    /// Year, four digits
    pub year: u16,
    /// Month, counted from one
    pub month: u8,
    /// Day of month, counted from one
    pub day: u8,
}

/// True in a leap year.
pub open spec fn is_leap_year(y: int) -> bool {
    y % 4 == 0 && (y % 100 != 0 || y % 400 == 0)
}

/// Days of the month `m` of year `y`.
pub open spec fn days_in_month(y: int, m: int) -> int {
    if m == 2 {
        if is_leap_year(y) {
            29
        } else {
            28
        }
    } else if m == 4 || m == 6 || m == 9 || m == 11 {
        30
    } else {
        31
    }
}

/// A calendar date that exists: four-digit year, real month, real day.
pub open spec fn date_valid(d: Date) -> bool {
    &&& 1 <= d.year <= 9999
    &&& 1 <= d.month <= 12
    &&& 1 <= d.day <= days_in_month(d.year as int, d.month as int)
}

/// The decimal digit `d` as a character.
pub open spec fn digit_char(d: int) -> char {
    if d == 0 {
        '0'
    } else if d == 1 {
        '1'
    } else if d == 2 {
        '2'
    } else if d == 3 {
        '3'
    } else if d == 4 {
        '4'
    } else if d == 5 {
        '5'
    } else if d == 6 {
        '6'
    } else if d == 7 {
        '7'
    } else if d == 8 {
        '8'
    } else {
        '9'
    }
}

/// The eight characters `YYYYMMDD` of a date.
pub open spec fn spec_format_date(d: Date) -> Seq<char> {
    seq![
        digit_char(d.year as int / 1000 % 10),
        digit_char(d.year as int / 100 % 10),
        digit_char(d.year as int / 10 % 10),
        digit_char(d.year as int % 10),
        digit_char(d.month as int / 10 % 10),
        digit_char(d.month as int % 10),
        digit_char(d.day as int / 10 % 10),
        digit_char(d.day as int % 10),
    ]
}

/// One decimal digit as a one-character string.
pub fn digit_str(d: u16) -> (r: &'static str)
    requires
        d < 10,
    ensures
        r@ =~= seq![digit_char(d as int)],
{
    proof {
        reveal_strlit("0");
        reveal_strlit("1");
        reveal_strlit("2");
        reveal_strlit("3");
        reveal_strlit("4");
        reveal_strlit("5");
        reveal_strlit("6");
        reveal_strlit("7");
        reveal_strlit("8");
        reveal_strlit("9");
    }
    match d {
        0 => "0",
        1 => "1",
        2 => "2",
        3 => "3",
        4 => "4",
        5 => "5",
        6 => "6",
        7 => "7",
        8 => "8",
        _ => "9",
    }
}

/// Format a date as the eight digits `YYYYMMDD`.
pub fn format_date(d: Date) -> (r: String)
    ensures
        r@ == spec_format_date(d),
{
    let mut s = String::new();
    s.append(digit_str(d.year / 1000 % 10));
    s.append(digit_str(d.year / 100 % 10));
    s.append(digit_str(d.year / 10 % 10));
    s.append(digit_str(d.year % 10));
    s.append(digit_str(d.month as u16 / 10 % 10));
    s.append(digit_str(d.month as u16 % 10));
    s.append(digit_str(d.day as u16 / 10 % 10));
    s.append(digit_str(d.day as u16 % 10));
    proof {
        assert(s@ =~= spec_format_date(d));
    }
    s
}

/// True when `c` is a decimal digit.
pub open spec fn is_digit(c: char) -> bool {
    '0' <= c && c <= '9'
}

/// Numeric value of the digit `c`.
pub open spec fn digit_val(c: char) -> int {
    c as int - '0' as int
}

/// Numeric value of a digit string, most significant first.
pub open spec fn digits_val(s: Seq<char>) -> int
    decreases s.len(),
{
    if s.len() == 0 {
        0
    } else {
        digits_val(s.drop_last()) * 10 + digit_val(s.last())
    }
}

/// The date named by the eight digits `YYYYMMDD`, when the eight
/// characters are digits and name a date that exists.
pub open spec fn spec_parse_date(s: Seq<char>) -> Option<Date> {
    if s.len() == 8 && (forall|i: int| 0 <= i < 8 ==> is_digit(#[trigger] s[i])) {
        let d = Date {
            year: digits_val(s.subrange(0, 4)) as u16,
            month: digits_val(s.subrange(4, 6)) as u8,
            day: digits_val(s.subrange(6, 8)) as u8,
        };
        if digits_val(s.subrange(0, 4)) <= 9999 && digits_val(s.subrange(4, 6)) <= 12
            && digits_val(s.subrange(6, 8)) <= 31 && date_valid(d) {
            Some(d)
        } else {
            None
        }
    } else {
        None
    }
}

/// Ten to the power `n`.
pub open spec fn ten_pow(n: int) -> int
    decreases n,
{
    if n <= 0 {
        1
    } else {
        10 * ten_pow(n - 1)
    }
}

/// Numeric value of the digits of `s` between `from` and `to`.
fn digits_value(s: &str, from: usize, to: usize) -> (r: Option<u32>)
    requires
        from <= to <= s@.len(),
        to - from <= 4,
    ensures
        match r {
            Some(v) => (forall|i: int| from <= i < to ==> is_digit(#[trigger] s@[i])) && v
                == digits_val(s@.subrange(from as int, to as int)),
            None => !(forall|i: int| from <= i < to ==> is_digit(#[trigger] s@[i])),
        },
{
    let mut v: u32 = 0;
    let mut i: usize = from;
    proof {
        assert(s@.subrange(from as int, from as int) =~= Seq::<char>::empty());
    }
    while i < to
        invariant
            from <= i <= to <= s@.len(),
            to - from <= 4,
            forall|j: int| from <= j < i ==> is_digit(#[trigger] s@[j]),
            v == digits_val(s@.subrange(from as int, i as int)),
            v < ten_pow(i - from),
        decreases to - i,
    {
        let c = s.get_char(i);
        if c < '0' || c > '9' {
            return None;
        }
        let d = c as u32 - '0' as u32;
        proof {
            reveal_with_fuel(ten_pow, 6);
            assert(v < ten_pow(3) || i - from == 3) by {
                assert(ten_pow(i - from) <= ten_pow(3)) by {
                    if i - from == 0 {
                    } else if i - from == 1 {
                    } else if i - from == 2 {
                    }
                }
            }
        }
        v = v * 10 + d;
        proof {
            let sub1 = s@.subrange(from as int, i as int + 1);
            assert(sub1.drop_last() =~= s@.subrange(from as int, i as int));
            assert(sub1.last() == s@[i as int]);
            reveal_with_fuel(ten_pow, 6);
        }
        i = i + 1;
    }
    Some(v)
}

/// Parse the eight digits `YYYYMMDD` into a date. Anything else — a
/// different length, a non-digit, or a date that does not exist — is a
/// malformed field.
pub fn parse_date(s: &str) -> (r: Result<Date, Error>)
    ensures
        match r {
            Ok(d) => spec_parse_date(s@) == Some(d),
            Err(e) => spec_parse_date(s@) is None && e == Error::FieldParse,
        },
{
    let n = s.unicode_len();
    if n != 8 {
        return Err(Error::FieldParse);
    }
    let y = match digits_value(s, 0, 4) {
        Some(v) => v,
        None => {
            return Err(Error::FieldParse);
        },
    };
    let m = match digits_value(s, 4, 6) {
        Some(v) => v,
        None => {
            return Err(Error::FieldParse);
        },
    };
    let d = match digits_value(s, 6, 8) {
        Some(v) => v,
        None => {
            return Err(Error::FieldParse);
        },
    };
    let date = Date { year: y as u16, month: m as u8, day: d as u8 };
    if y < 1 || y > 9999 || m < 1 || m > 12 || d < 1 {
        return Err(Error::FieldParse);
    }
    let max_day = days_of_month(y as u16, m as u8);
    if d > max_day as u32 {
        return Err(Error::FieldParse);
    }
    Ok(date)
}

/// Days of the month `m` of year `y`.
pub fn days_of_month(y: u16, m: u8) -> (r: u8)
    ensures
        r == days_in_month(y as int, m as int),
{
    if m == 2 {
        if (y % 4 == 0) && (y % 100 != 0 || y % 400 == 0) {
            29
        } else {
            28
        }
    } else if m == 4 || m == 6 || m == 9 || m == 11 {
        30
    } else {
        31
    }
}

/// Law: parsing undoes formatting — the eight digits of a valid date
/// parse back to exactly that date.
pub proof fn lemma_format_parse_round_trip(d: Date)
    requires
        date_valid(d),
    ensures
        spec_parse_date(spec_format_date(d)) == Some(d),
{
    let s = spec_format_date(d);
    assert forall|i: int| 0 <= i < 8 implies is_digit(#[trigger] s[i]) by {
        assert(0 <= d.year as int / 1000 % 10 < 10);
    }
    let ys = s.subrange(0, 4);
    let ms = s.subrange(4, 6);
    let ds = s.subrange(6, 8);
    assert(digits_val(ys) == d.year) by {
        reveal_with_fuel(digits_val, 5);
        assert(ys.drop_last() =~= s.subrange(0, 3));
        assert(s.subrange(0, 3).drop_last() =~= s.subrange(0, 2));
        assert(s.subrange(0, 2).drop_last() =~= s.subrange(0, 1));
        assert(s.subrange(0, 1).drop_last() =~= Seq::<char>::empty());
        assert(digit_val(digit_char(d.year as int / 1000 % 10)) == d.year as int / 1000 % 10);
        assert(digit_val(digit_char(d.year as int / 100 % 10)) == d.year as int / 100 % 10);
        assert(digit_val(digit_char(d.year as int / 10 % 10)) == d.year as int / 10 % 10);
        assert(digit_val(digit_char(d.year as int % 10)) == d.year as int % 10);
        assert(d.year as int / 1000 % 10 * 1000 + d.year as int / 100 % 10 * 100 + d.year as int
            / 10 % 10 * 10 + d.year as int % 10 == d.year as int);
    }
    assert(digits_val(ms) == d.month) by {
        reveal_with_fuel(digits_val, 3);
        assert(ms.drop_last() =~= s.subrange(4, 5));
        assert(s.subrange(4, 5).drop_last() =~= Seq::<char>::empty());
        assert(digit_val(digit_char(d.month as int / 10 % 10)) == d.month as int / 10 % 10);
        assert(digit_val(digit_char(d.month as int % 10)) == d.month as int % 10);
        assert(d.month as int / 10 % 10 * 10 + d.month as int % 10 == d.month as int);
    }
    assert(digits_val(ds) == d.day) by {
        reveal_with_fuel(digits_val, 3);
        assert(ds.drop_last() =~= s.subrange(6, 7));
        assert(s.subrange(6, 7).drop_last() =~= Seq::<char>::empty());
        assert(digit_val(digit_char(d.day as int / 10 % 10)) == d.day as int / 10 % 10);
        assert(digit_val(digit_char(d.day as int % 10)) == d.day as int % 10);
        assert(d.day as int / 10 % 10 * 10 + d.day as int % 10 == d.day as int);
    }
}

} // verus!
