//! UTC timestamps held as plain calendar fields, the fixed
//! `YYYYMMDDTHHMMSSZ` wire pattern, and conversion from text through
//! chrono's parser.

use vstd::prelude::*;
use vstd::arithmetic::div_mod::lemma_div_denominator;
use chrono::Datelike;
use chrono::Timelike;
use crate::numbers::{digit_char, spec_2digits, spec_4digits, two_digits, four_digits};

verus! {

/// An instant in UTC, as plain calendar fields.
#[derive(Clone, Copy, PartialEq, Eq, Structural, Debug)]
pub struct DateTimeUtc {
    pub year: u32,
    pub month: u32,
    pub day: u32,
    pub hour: u32,
    pub minute: u32,
    pub second: u32,
}

pub open spec fn is_leap_year(y: int) -> bool {
    y % 4 == 0 && (y % 100 != 0 || y % 400 == 0)
}

pub open spec fn days_in_month(y: int, m: int) -> int {
    if m == 2 {
        if is_leap_year(y) {
            29
        } else {
            28
        }
    } else if m == 4 || m == 6 || m == 9 || m == 11 {
        30
    } else {
        31
    }
}

/// Days in a month, executable form.
pub fn days_in_month_x(y: u32, m: u32) -> (d: u32)
    ensures
        d as int == days_in_month(y as int, m as int),
{
    if m == 2 {
        if y % 4 == 0 && (y % 100 != 0 || y % 400 == 0) {
            29
        } else {
            28
        }
    } else if m == 4 || m == 6 || m == 9 || m == 11 {
        30
    } else {
        31
    }
}

impl DateTimeUtc {
    /// A valid Gregorian calendar timestamp within the wire format's
    /// four-digit year range.
    pub open spec fn wf(self) -> bool {
        self.year <= 9999 && 1 <= self.month <= 12 && 1 <= self.day && self.day as int
            <= days_in_month(self.year as int, self.month as int) && self.hour <= 23
            && self.minute <= 59 && self.second <= 59
    }

    /// The sixteen characters `YYYYMMDDTHHMMSSZ`.
    pub open spec fn canonical(self) -> Seq<char> {
        spec_4digits(self.year as int) + spec_2digits(self.month as int) + spec_2digits(
            self.day as int,
        ) + seq!['T'] + spec_2digits(self.hour as int) + spec_2digits(self.minute as int)
            + spec_2digits(self.second as int) + seq!['Z']
    }

    /// Formats the timestamp in the wire pattern.
    pub fn canonical_string(&self) -> (s: String)
        ensures
            s@ == self.canonical(),
    {
        let mut s = four_digits(self.year);
        s.append(two_digits(self.month).as_str());
        s.append(two_digits(self.day).as_str());
        s.append("T");
        s.append(two_digits(self.hour).as_str());
        s.append(two_digits(self.minute).as_str());
        s.append(two_digits(self.second).as_str());
        s.append("Z");
        proof {
            reveal_strlit("T");
            reveal_strlit("Z");
            assert("T"@ =~= seq!['T']);
            assert("Z"@ =~= seq!['Z']);
        }
        s
    }

    /// The fixed default instant of never-assigned timestamp fields.
    pub open spec fn spec_sentinel() -> DateTimeUtc {
        DateTimeUtc { year: 2019, month: 6, day: 30, hour: 13, minute: 0, second: 0 }
    }

    pub fn sentinel() -> (dt: DateTimeUtc)
        ensures
            dt == Self::spec_sentinel(),
    {
        DateTimeUtc { year: 2019, month: 6, day: 30, hour: 13, minute: 0, second: 0 }
    }

    /// Days on the library's linear day count, whose anchor is chosen so
    /// that the count is never negative. A day field of zero (which no
    /// well-formed timestamp has) is read as day one to keep the scale
    /// total.
    pub open spec fn spec_days(self) -> int {
        let y = self.year as int;
        let m = self.month as int;
        let yy = if m <= 2 {
            y + 399
        } else {
            y + 400
        };
        let era = yy / 400;
        let yoe = yy % 400;
        let mp = if m <= 2 {
            m + 9
        } else {
            m - 3
        };
        let dm1 = if self.day == 0 {
            0
        } else {
            self.day as int - 1
        };
        let doy = (153 * mp + 2) / 5 + dm1;
        let doe = yoe * 365 + yoe / 4 - yoe / 100 + doy;
        era * 146097 + doe
    }

    /// Seconds on the library's linear time scale.
    pub open spec fn spec_timestamp(self) -> int {
        self.spec_days() * 86400 + self.hour as int * 3600 + self.minute as int * 60
            + self.second as int
    }

    /// Seconds on the library's linear time scale, executable form.
    pub fn timestamp(&self) -> (t: i64)
        ensures
            t == self.spec_timestamp(),
            0 <= t <= 0x1000_0000_0000_0000,
    {
        let y: u64 = self.year as u64;
        let m: u64 = self.month as u64;
        let yy: u64 = if m <= 2 {
            y + 399
        } else {
            y + 400
        };
        let era: u64 = yy / 400;
        let yoe: u64 = yy % 400;
        let mp: u64 = if m <= 2 {
            m + 9
        } else {
            m - 3
        };
        let dm1: u64 = if self.day == 0 {
            0
        } else {
            (self.day - 1) as u64
        };
        proof {
            assert(era * 400 <= yy);
            assert(era <= 10737420);
            assert(era * 146097 <= 10737420 * 146097);
            assert(153 * mp <= 153 * 0x1_0000_0000);
        }
        let doy: u64 = (153 * mp + 2) / 5 + dm1;
        let doe: u64 = yoe * 365 + yoe / 4 - yoe / 100 + doy;
        let days: u64 = era * 146097 + doe;
        proof {
            assert(days <= 10737420 * 146097 + 399 * 365 + 99 + (153 * 0x1_0000_0000 + 2) / 5
                + 0x1_0000_0000);
            assert(days * 86400 <= 1706543777820 * 86400);
        }
        let t: u64 = days * 86400 + (self.hour as u64) * 3600 + (self.minute as u64) * 60 + (
        self.second as u64);
        t as i64
    }
}

/// What chrono's `NaiveDateTime::parse_from_str` yields on `s` with the
/// pattern `%Y%m%dT%H%M%SZ`: the parsed `(year, month, day, hour,
/// minute, second)` fields, or `None` on a parse error.
pub uninterp spec fn chrono_fields_of(s: Seq<char>) -> Option<(i32, u32, u32, u32, u32, u32)>;

/// Relies on chrono's `NaiveDateTime::parse_from_str` with the fixed
/// pattern `%Y%m%dT%H%M%SZ`: the result depends on the input characters
/// alone, and a string formatted as `YYYYMMDDTHHMMSSZ` from a valid
/// timestamp (chrono's unsigned four-digit `%Y` covers years 0 through
/// 9999, and the parse consumes the whole input) parses back to exactly
/// its own fields.
#[verifier::external_body]
fn chrono_parse_fields(s: &str) -> (r: Option<(i32, u32, u32, u32, u32, u32)>)
    ensures
        r == chrono_fields_of(s@),
        forall|dt: DateTimeUtc|
            dt.wf() && s@ == #[trigger] dt.canonical() ==> r == Some(
                (dt.year as i32, dt.month, dt.day, dt.hour, dt.minute, dt.second),
            ),
{
    match chrono::NaiveDateTime::parse_from_str(s, "%Y%m%dT%H%M%SZ") {
        Ok(t) => Some((t.year(), t.month(), t.day(), t.hour(), t.minute(), t.second())),
        Err(_) => None,
    }
}

/// Parsed fields that denote a well-formed timestamp.
pub open spec fn fields_valid(f: (i32, u32, u32, u32, u32, u32)) -> bool {
    0 <= f.0 <= 9999 && 1 <= f.1 <= 12 && 1 <= f.2 && f.2 as int <= days_in_month(
        f.0 as int,
        f.1 as int,
    ) && f.3 <= 23 && f.4 <= 59 && f.5 <= 59
}

pub open spec fn dt_of_fields(f: (i32, u32, u32, u32, u32, u32)) -> DateTimeUtc {
    DateTimeUtc { year: f.0 as u32, month: f.1, day: f.2, hour: f.3, minute: f.4, second: f.5 }
}

/// The timestamp a text denotes: text in the exact wire pattern denotes
/// the timestamp it spells; any other text goes through chrono's
/// parser, modeled by `chrono_fields_of`, with the parsed fields then
/// checked against the calendar.
pub open spec fn spec_convert_datetime(s: Seq<char>) -> Option<DateTimeUtc> {
    if exists|dt: DateTimeUtc| dt.wf() && s == #[trigger] dt.canonical() {
        Some(choose|dt: DateTimeUtc| dt.wf() && s == dt.canonical())
    } else {
        match chrono_fields_of(s) {
            Some(f) => if fields_valid(f) {
                Some(dt_of_fields(f))
            } else {
                None
            },
            None => None,
        }
    }
}

proof fn lemma_two_digit_value(x: int)
    requires
        0 <= x <= 99,
    ensures
        x / 10 % 10 * 10 + x % 10 == x,
{
    assert(x / 10 <= 9);
    assert(x / 10 % 10 == x / 10);
}

proof fn lemma_four_digit_value(x: int)
    requires
        0 <= x <= 9999,
    ensures
        x / 1000 % 10 * 1000 + x / 100 % 10 * 100 + x / 10 % 10 * 10 + x % 10 == x,
{
    lemma_div_denominator(x, 10, 10);
    lemma_div_denominator(x, 100, 10);
    assert(x / 10 / 10 == x / 100);
    assert(x / 100 / 10 == x / 1000);
    assert(x / 1000 <= 9);
    assert(x / 1000 % 10 == x / 1000);
    assert(x == x / 10 * 10 + x % 10);
    assert(x / 10 == x / 100 * 10 + x / 10 % 10);
    assert(x / 100 == x / 1000 * 10 + x / 100 % 10);
}

proof fn lemma_digit_char_injective(p: int, q: int)
    requires
        0 <= p <= 9,
        0 <= q <= 9,
        digit_char(p) == digit_char(q),
    ensures
        p == q,
{
}

/// Two well-formed timestamps with the same wire text are equal.
pub proof fn lemma_canonical_injective(a: DateTimeUtc, b: DateTimeUtc)
    requires
        a.wf(),
        b.wf(),
        a.canonical() == b.canonical(),
    ensures
        a == b,
{
    let ca = a.canonical();
    let cb = b.canonical();
    assert(ca[0] == digit_char(a.year as int / 1000 % 10));
    assert(ca[1] == digit_char(a.year as int / 100 % 10));
    assert(ca[2] == digit_char(a.year as int / 10 % 10));
    assert(ca[3] == digit_char(a.year as int % 10));
    assert(ca[4] == digit_char(a.month as int / 10 % 10));
    assert(ca[5] == digit_char(a.month as int % 10));
    assert(ca[6] == digit_char(a.day as int / 10 % 10));
    assert(ca[7] == digit_char(a.day as int % 10));
    assert(ca[9] == digit_char(a.hour as int / 10 % 10));
    assert(ca[10] == digit_char(a.hour as int % 10));
    assert(ca[11] == digit_char(a.minute as int / 10 % 10));
    assert(ca[12] == digit_char(a.minute as int % 10));
    assert(ca[13] == digit_char(a.second as int / 10 % 10));
    assert(ca[14] == digit_char(a.second as int % 10));
    assert(cb[0] == digit_char(b.year as int / 1000 % 10));
    assert(cb[1] == digit_char(b.year as int / 100 % 10));
    assert(cb[2] == digit_char(b.year as int / 10 % 10));
    assert(cb[3] == digit_char(b.year as int % 10));
    assert(cb[4] == digit_char(b.month as int / 10 % 10));
    assert(cb[5] == digit_char(b.month as int % 10));
    assert(cb[6] == digit_char(b.day as int / 10 % 10));
    assert(cb[7] == digit_char(b.day as int % 10));
    assert(cb[9] == digit_char(b.hour as int / 10 % 10));
    assert(cb[10] == digit_char(b.hour as int % 10));
    assert(cb[11] == digit_char(b.minute as int / 10 % 10));
    assert(cb[12] == digit_char(b.minute as int % 10));
    assert(cb[13] == digit_char(b.second as int / 10 % 10));
    assert(cb[14] == digit_char(b.second as int % 10));
    assert forall|p: int, q: int|
        0 <= p <= 9 && 0 <= q <= 9 && #[trigger] digit_char(p) == #[trigger] digit_char(
            q,
        ) implies p == q by {
        lemma_digit_char_injective(p, q);
    }
    lemma_four_digit_value(a.year as int);
    lemma_four_digit_value(b.year as int);
    lemma_two_digit_value(a.month as int);
    lemma_two_digit_value(b.month as int);
    lemma_two_digit_value(a.day as int);
    lemma_two_digit_value(b.day as int);
    lemma_two_digit_value(a.hour as int);
    lemma_two_digit_value(b.hour as int);
    lemma_two_digit_value(a.minute as int);
    lemma_two_digit_value(b.minute as int);
    lemma_two_digit_value(a.second as int);
    lemma_two_digit_value(b.second as int);
}

/// Converting a canonically formatted timestamp yields that timestamp.
pub proof fn lemma_convert_canonical(dt: DateTimeUtc)
    requires
        dt.wf(),
    ensures
        spec_convert_datetime(dt.canonical()) == Some(dt),
{
    assert(dt.wf() && dt.canonical() == dt.canonical());
    let w = choose|d: DateTimeUtc| d.wf() && dt.canonical() == d.canonical();
    lemma_canonical_injective(w, dt);
}

/// A converted timestamp is always well-formed.
pub proof fn lemma_convert_wf(s: Seq<char>)
    ensures
        spec_convert_datetime(s) matches Some(dt) ==> dt.wf(),
{
    if exists|dt: DateTimeUtc| dt.wf() && s == #[trigger] dt.canonical() {
        let w = choose|dt: DateTimeUtc| dt.wf() && s == dt.canonical();
        assert(w.wf());
    }
}

/// Parses a timestamp written in the pattern `YYYYMMDDTHHMMSSZ`,
/// yielding `None` for text chrono rejects or fields that do not
/// denote a valid timestamp.
pub fn convert_datetime(value: &str) -> (r: Option<DateTimeUtc>)
    ensures
        r == spec_convert_datetime(value@),
{
    let fields = chrono_parse_fields(value);
    let r: Option<DateTimeUtc> = match fields {
        Some((y, mo, d, h, mi, s)) => {
            if 0 <= y && y <= 9999 && 1 <= mo && mo <= 12 && 1 <= d && d <= days_in_month_x(
                y as u32,
                mo,
            ) && h <= 23 && mi <= 59 && s <= 59 {
                Some(DateTimeUtc { year: y as u32, month: mo, day: d, hour: h, minute: mi, second: s })
            } else {
                None
            }
        },
        None => None,
    };
    proof {
        if exists|dt: DateTimeUtc| dt.wf() && value@ == #[trigger] dt.canonical() {
            let dt = choose|dt: DateTimeUtc| dt.wf() && value@ == dt.canonical();
            assert(fields == Some((dt.year as i32, dt.month, dt.day, dt.hour, dt.minute, dt.second)));
            assert(r == Some(dt));
            lemma_convert_canonical(dt);
        }
    }
    r
}

} // verus!
