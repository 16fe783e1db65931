//! The clock in the header.

use crate::text::decimal;
use vstd::prelude::*;

verus! {

/// A local date and time of day.
#[derive(Debug, Clone, Copy)]
pub struct Moment {
    pub year: i32,
    pub month: u32,
    pub day: u32,
    pub hour: u32,
    pub minute: u32,
    pub second: u32,
}

/// Whether `year` is a leap year.
pub open spec fn is_leap(year: int) -> bool {
    year % 4 == 0 && (year % 100 != 0 || year % 400 == 0)
}

/// The number of days in a month.
pub open spec fn month_days(year: int, month: int) -> int {
    if month == 2 {
        if is_leap(year) {
            29
        } else {
            28
        }
    } else if month == 4 || month == 6 || month == 9 || month == 11 {
        30
    } else {
        31
    }
}

/// `n` in decimal, with zeros in front up to the given width.
pub open spec fn padded(n: nat, width: nat) -> Seq<char> {
    let digits = decimal(n);
    if digits.len() >= width {
        digits
    } else {
        Seq::new((width - digits.len()) as nat, |i: int| '0') + digits
    }
}

/// A year in at least four digits, with a sign where it has more or lies before the
/// year 0.
pub open spec fn year_text(year: int) -> Seq<char> {
    if year < 0 {
        "-"@ + padded((-year) as nat, 4)
    } else if year > 9999 {
        "+"@ + padded(year as nat, 4)
    } else {
        padded(year as nat, 4)
    }
}

impl Moment {
    /// Whether the calendar has such a day, in the years that `chrono` covers, and
    /// the day such a time.
    pub open spec fn valid(self) -> bool {
        &&& -262143 <= self.year <= 262142
        &&& 1 <= self.month <= 12
        &&& 1 <= self.day <= month_days(self.year as int, self.month as int)
        &&& self.hour < 24
        &&& self.minute < 60
        &&& self.second < 60
    }

    /// The moment in the form `2024-05-06 07:08:09`.
    pub open spec fn text(self) -> Seq<char> {
        year_text(self.year as int) + "-"@ + padded(self.month as nat, 2) + "-"@ + padded(
            self.day as nat,
            2,
        ) + " "@ + padded(self.hour as nat, 2) + ":"@ + padded(self.minute as nat, 2) + ":"@
            + padded(self.second as nat, 2)
    }

    /// Tests whether there is such a moment.
    pub fn is_valid(&self) -> (r: bool)
        ensures
            r == self.valid(),
    {
        let y: i32 = self.year;
        if y < -262143 || y > 262142 || self.month < 1 || self.month > 12 {
            return false;
        }
        // The years are shifted by a multiple of 400, so that none is negative.
        let z: u32 = (y + 262400) as u32;
        assert(is_leap(y as int) == is_leap(z as int));
        let leap: bool = z % 4 == 0 && (z % 100 != 0 || z % 400 == 0);
        let days: u32 = if self.month == 2 {
            if leap {
                29
            } else {
                28
            }
        } else if self.month == 4 || self.month == 6 || self.month == 9 || self.month == 11 {
            30
        } else {
            31
        };
        1 <= self.day && self.day <= days && self.hour < 24 && self.minute < 60 && self.second < 60
    }
}

/// Calls `chrono::NaiveDateTime::format` on the moment, which `NaiveDate::from_ymd_opt`
/// and `NaiveDate::and_hms_opt` accept where it is valid. In this format `%Y` is the
/// year in at least four digits, signed outside 0 to 9999, and the other fields
/// have two digits each.
#[verifier::external_body]
fn format_moment(m: &Moment, format: &str) -> (r: String)
    requires
        m.valid(),
        format@ == "%Y-%m-%d %H:%M:%S"@,
    ensures
        r@ == m.text(),
{
    let date = chrono::NaiveDate::from_ymd_opt(m.year, m.month, m.day).unwrap();
    let moment = date.and_hms_opt(m.hour, m.minute, m.second).unwrap();
    moment.format(format).to_string()
}

/// Writes a moment; `None` where there is no such moment.
pub fn clock(m: &Moment) -> (r: Option<String>)
    ensures
        r is Some <==> m.valid(),
        r matches Some(s) ==> s@ == m.text(),
{
    if m.is_valid() {
        Some(format_moment(m, "%Y-%m-%d %H:%M:%S"))
    } else {
        None
    }
}

/// A number of at most two digits is written with two, and one of at most four with
/// four; a longer one is written as it is.
pub proof fn law_padded_digits(n: nat)
    ensures
        n < 100 ==> padded(n, 2) == seq![
            "0123456789"@[n as int / 10],
            "0123456789"@[n as int % 10],
        ],
        n < 10000 ==> padded(n, 4) == seq![
            "0123456789"@[n as int / 1000],
            "0123456789"@[n as int / 100 % 10],
            "0123456789"@[n as int / 10 % 10],
            "0123456789"@[n as int % 10],
        ],
        n >= 1000 ==> padded(n, 4) == decimal(n),
{
    reveal_strlit("0123456789");
    reveal_with_fuel(decimal, 5);
    if n < 100 {
        assert(padded(n, 2) =~= seq![
            "0123456789"@[n as int / 10],
            "0123456789"@[n as int % 10],
        ]);
    }
    if n < 10000 {
        let a = n / 10;
        let b = a / 10;
        assert(n / 100 == b && n / 1000 == b / 10);
        assert(padded(n, 4) =~= seq![
            "0123456789"@[n as int / 1000],
            "0123456789"@[n as int / 100 % 10],
            "0123456789"@[n as int / 10 % 10],
            "0123456789"@[n as int % 10],
        ]);
    } else {
        lemma_long(n);
    }
}

/// A number from ten thousand on has more than four digits.
proof fn lemma_long(n: nat)
    requires
        n >= 1000,
    ensures
        decimal(n).len() >= 4,
    decreases n,
{
    reveal_with_fuel(decimal, 5);
    if n >= 10000 {
        lemma_long(n / 10);
    }
}

/// The clock shows year, month, day, hour, minute and second, in this order and each
/// with all its digits, as in `2024-05-06 07:08:09`.
pub proof fn law_clock_text(m: Moment)
    requires
        m.valid(),
        0 <= m.year <= 9999,
    ensures
        ({
            let t = m.text();
            let d = "0123456789"@;
            &&& t.len() == 19
            &&& t[0] == d[m.year as int / 1000] && t[1] == d[m.year as int / 100 % 10]
            &&& t[2] == d[m.year as int / 10 % 10] && t[3] == d[m.year as int % 10]
            &&& t[4] == '-' && t[7] == '-' && t[10] == ' ' && t[13] == ':' && t[16] == ':'
            &&& t[5] == d[m.month as int / 10] && t[6] == d[m.month as int % 10]
            &&& t[8] == d[m.day as int / 10] && t[9] == d[m.day as int % 10]
            &&& t[11] == d[m.hour as int / 10] && t[12] == d[m.hour as int % 10]
            &&& t[14] == d[m.minute as int / 10] && t[15] == d[m.minute as int % 10]
            &&& t[17] == d[m.second as int / 10] && t[18] == d[m.second as int % 10]
        }),
{
    law_padded_digits(m.year as nat);
    law_padded_digits(m.month as nat);
    law_padded_digits(m.day as nat);
    law_padded_digits(m.hour as nat);
    law_padded_digits(m.minute as nat);
    law_padded_digits(m.second as nat);
    reveal_strlit("-");
    reveal_strlit(" ");
    reveal_strlit(":");
}

/// A year of more than four digits has a plus sign, and one before the year 0 a minus
/// sign; the rest of the text does not depend on the year.
pub proof fn law_clock_signs_years(m: Moment, n: Moment)
    requires
        m.valid(),
        n == (Moment { year: 0, ..m }),
    ensures
        m.year > 9999 ==> m.text() == seq!['+'] + decimal(m.year as nat) + n.text().skip(4),
        m.year < 0 && m.year > -10000 ==> m.text() == seq!['-'] + (Moment {
            year: (-m.year) as i32,
            ..m
        }).text(),
        m.year <= -10000 ==> m.text() == seq!['-'] + decimal((-m.year) as nat) + n.text().skip(4),
{
    reveal_strlit("-");
    reveal_strlit("+");
    let tail = behind_year(m);
    lemma_year_first(m);
    lemma_year_first(n);
    assert(behind_year(n) == tail);
    law_padded_digits(0);
    assert((padded(0, 4) + tail).skip(4) =~= tail);
    assert(n.text().skip(4) == tail);
    if m.year > 9999 {
        law_padded_digits(m.year as nat);
        assert("+"@ =~= seq!['+']);
    } else if m.year < 0 {
        law_padded_digits((-m.year) as nat);
        assert("-"@ =~= seq!['-']);
        if m.year > -10000 {
            let p = Moment { year: (-m.year) as i32, ..m };
            lemma_year_first(p);
            assert(behind_year(p) == tail);
            let digits = padded((-m.year) as nat, 4);
            assert(seq!['-'] + digits + tail =~= seq!['-'] + (digits + tail));
        }
    }
}

/// What stands behind the year in a moment's text.
spec fn behind_year(m: Moment) -> Seq<char> {
    "-"@ + padded(m.month as nat, 2) + "-"@ + padded(m.day as nat, 2) + " "@ + padded(
        m.hour as nat,
        2,
    ) + ":"@ + padded(m.minute as nat, 2) + ":"@ + padded(m.second as nat, 2)
}

/// A moment's text starts with the year.
proof fn lemma_year_first(m: Moment)
    ensures
        m.text() == year_text(m.year as int) + behind_year(m),
{
    assert(m.text() =~= year_text(m.year as int) + behind_year(m));
}

/// Which days there are: every month has 28, all but February 30 or more, seven months
/// 31, and February 29 in every fourth year, except that of a hundred only every fourth
/// counts. A day has 24 hours of 60 minutes of 60 seconds.
pub proof fn law_calendar(m: Moment)
    ensures
        m.valid() ==> 1 <= m.month <= 12 && 1 <= m.day <= 31 && m.hour <= 23 && m.minute <= 59
            && m.second <= 59 && -262143 <= m.year <= 262142,
        m.valid() && m.day == 31 ==> m.month == 1 || m.month == 3 || m.month == 5 || m.month == 7
            || m.month == 8 || m.month == 10 || m.month == 12,
        m.valid() && m.month == 2 ==> m.day <= 29,
        m.valid() && m.month == 2 && m.day == 29 ==> m.year as int % 400 == 0 || (m.year as int
            % 4 == 0 && m.year as int % 100 != 0),
        -262143 <= m.year <= 262142 && m.hour <= 23 && m.minute <= 59 && m.second <= 59 && 1
            <= m.month <= 12 && 1 <= m.day && (m.day <= 28 || (m.day <= 30 && m.month != 2) || (
        m.day == 31 && (m.month == 1 || m.month == 3 || m.month == 5 || m.month == 7 || m.month
            == 8 || m.month == 10 || m.month == 12)) || (m.day == 29 && (m.year as int % 400 == 0
            || (m.year as int % 4 == 0 && m.year as int % 100 != 0)))) ==> m.valid(),
{
}

} // verus!
