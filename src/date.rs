use vstd::prelude::*;

verus! {

/// A calendar day of the proleptic Gregorian calendar.
#[derive(Clone, Copy, Debug, PartialEq, Eq, Structural)]
pub struct Date {
    pub year: u32,
    pub month: u32,
    pub day: u32,
}

pub open spec fn is_leap_year(y: int) -> bool {
    (y % 4 == 0 && y % 100 != 0) || y % 400 == 0
}

pub open spec fn days_in_month(y: int, m: int) -> int {
    if m == 2 {
        if is_leap_year(y) { 29 } else { 28 }
    } else if m == 4 || m == 6 || m == 9 || m == 11 {
        30
    } else {
        31
    }
}

/// A day that exists, with a year of at most four digits.
pub open spec fn is_calendar_date(y: int, m: int, d: int) -> bool {
    0 <= y <= 9999 && 1 <= m <= 12 && 1 <= d <= days_in_month(y, m)
}

pub open spec fn digit_char(n: int) -> char {
    (n + 48) as char
}

pub open spec fn is_digit(c: char) -> bool {
    48 <= c as int <= 57
}

pub open spec fn digit_value(c: char) -> int {
    c as int - 48
}

/// The value of the four digits at `s[i..i + 4]`, or of two when `k == 2`.
pub open spec fn digits_value(s: Seq<char>, i: int, k: int) -> int
    decreases k,
{
    if k <= 0 {
        0
    } else {
        digits_value(s, i, k - 1) * 10 + digit_value(s[i + k - 1])
    }
}

pub open spec fn all_digits(s: Seq<char>, i: int, k: int) -> bool {
    forall|j: int| i <= j < i + k ==> is_digit(#[trigger] s[j])
}

/// The date written as `YYYY-MM-DD` in `s`, which must be ten characters long.
pub open spec fn date_from_text(s: Seq<char>) -> Option<Date> {
    if s.len() == 10 && all_digits(s, 0, 4) && s[4] == '-' && all_digits(s, 5, 2) && s[7] == '-'
        && all_digits(s, 8, 2) && is_calendar_date(
        digits_value(s, 0, 4),
        digits_value(s, 5, 2),
        digits_value(s, 8, 2),
    ) {
        Some(
            Date {
                year: digits_value(s, 0, 4) as u32,
                month: digits_value(s, 5, 2) as u32,
                day: digits_value(s, 8, 2) as u32,
            },
        )
    } else {
        None
    }
}

/// `a` is a later day than `b`.
pub open spec fn is_later(a: Date, b: Date) -> bool {
    a.year > b.year || (a.year == b.year && (a.month > b.month || (a.month == b.month && a.day
        > b.day)))
}

impl Date {
    pub open spec fn wf(&self) -> bool {
        is_calendar_date(self.year as int, self.month as int, self.day as int)
    }

    /// The `YYYY-MM-DD` form of the day.
    pub open spec fn text(&self) -> Seq<char> {
        let y = self.year as int;
        let m = self.month as int;
        let d = self.day as int;
        seq![
            digit_char(y / 1000),
            digit_char(y / 100 % 10),
            digit_char(y / 10 % 10),
            digit_char(y % 10),
            '-',
            digit_char(m / 10),
            digit_char(m % 10),
            '-',
            digit_char(d / 10),
            digit_char(d % 10),
        ]
    }

    /// Reads the day written as `YYYY-MM-DD` at `v[start..start + 10]`; `None` where
    /// those characters are not of that form or name no existing day.
    pub fn parse_text(v: &Vec<char>, start: usize) -> (r: Option<Date>)
        requires
            start + 10 <= v.len(),
        ensures
            r == date_from_text(v@.subrange(start as int, start + 10)),
            r matches Some(d) ==> d.wf(),
    {
        let ghost sub = v@.subrange(start as int, start + 10);
        let y0 = digit_at(v, start);
        let y1 = digit_at(v, start + 1);
        let y2 = digit_at(v, start + 2);
        let y3 = digit_at(v, start + 3);
        let m0 = digit_at(v, start + 5);
        let m1 = digit_at(v, start + 6);
        let d0 = digit_at(v, start + 8);
        let d1 = digit_at(v, start + 9);
        proof {
            assert(sub[0] == v@[start as int] && sub[1] == v@[start + 1] && sub[2] == v@[start + 2]
                && sub[3] == v@[start + 3] && sub[4] == v@[start + 4]);
            assert(sub[5] == v@[start + 5] && sub[6] == v@[start + 6] && sub[7] == v@[start + 7]
                && sub[8] == v@[start + 8] && sub[9] == v@[start + 9]);
        }
        if let (Some(y0), Some(y1), Some(y2), Some(y3), Some(m0), Some(m1), Some(d0), Some(d1)) = (
            y0,
            y1,
            y2,
            y3,
            m0,
            m1,
            d0,
            d1,
        ) {
            if v[start + 4] == '-' && v[start + 7] == '-' {
                let y = y0 * 1000 + y1 * 100 + y2 * 10 + y3;
                let m = m0 * 10 + m1;
                let d = d0 * 10 + d1;
                proof {
                    assert(digits_value(sub, 0, 0) == 0);
                    assert(digits_value(sub, 0, 1) == y0);
                    assert(digits_value(sub, 0, 2) == y0 * 10 + y1);
                    assert(digits_value(sub, 0, 3) == (y0 * 10 + y1) * 10 + y2);
                    assert(digits_value(sub, 0, 4) == ((y0 * 10 + y1) * 10 + y2) * 10 + y3);
                    assert(digits_value(sub, 5, 0) == 0);
                    assert(digits_value(sub, 5, 1) == m0);
                    assert(digits_value(sub, 5, 2) == m);
                    assert(digits_value(sub, 8, 0) == 0);
                    assert(digits_value(sub, 8, 1) == d0);
                    assert(digits_value(sub, 8, 2) == d);
                }
                if calendar_day_exists(y, m, d) {
                    Some(Date { year: y, month: m, day: d })
                } else {
                    None
                }
            } else {
                None
            }
        } else {
            None
        }
    }

    /// The `YYYY-MM-DD` form of the day.
    pub fn to_text(&self) -> (r: String)
        requires
            self.wf(),
        ensures
            r@ == self.text(),
    {
        let mut out = String::new();
        push_digit(&mut out, self.year / 1000);
        push_digit(&mut out, self.year / 100 % 10);
        push_digit(&mut out, self.year / 10 % 10);
        push_digit(&mut out, self.year % 10);
        push_dash(&mut out);
        push_digit(&mut out, self.month / 10);
        push_digit(&mut out, self.month % 10);
        push_dash(&mut out);
        push_digit(&mut out, self.day / 10);
        push_digit(&mut out, self.day % 10);
        assert(out@ =~= self.text());
        out
    }

    /// Whether `self` is a later day than `other`.
    pub fn is_after(&self, other: &Date) -> (r: bool)
        ensures
            r == is_later(*self, *other),
    {
        self.year > other.year || (self.year == other.year && (self.month > other.month || (
        self.month == other.month && self.day > other.day)))
    }
}

fn digit_at(v: &Vec<char>, i: usize) -> (r: Option<u32>)
    requires
        i < v.len(),
    ensures
        r == (if is_digit(v@[i as int]) {
            Some(digit_value(v@[i as int]) as u32)
        } else {
            None
        }),
        r matches Some(n) ==> n <= 9,
{
    let c = v[i];
    if '0' <= c && c <= '9' {
        Some((c as u32) - 48)
    } else {
        None
    }
}

fn push_digit(out: &mut String, n: u32)
    requires
        n <= 9,
    ensures
        final(out)@ == old(out)@.push(digit_char(n as int)),
{
    let digits = "0123456789";
    proof {
        reveal_strlit("0123456789");
    }
    let one = digits.substring_char(n as usize, n as usize + 1);
    assert(one@ =~= seq![digit_char(n as int)]);
    out.append(one);
}

fn push_dash(out: &mut String)
    ensures
        final(out)@ == old(out)@.push('-'),
{
    let dash = "-";
    proof {
        reveal_strlit("-");
    }
    out.append(dash);
}

/// Relies on chrono's `NaiveDate::from_ymd_opt`, which gives a day exactly when
/// the month is 1 to 12 and the day lies within it, February having 29 days in
/// Gregorian leap years; years of four digits are within its range.
#[verifier::external_body]
fn calendar_day_exists(y: u32, m: u32, d: u32) -> (r: bool)
    requires
        y <= 9999,
    ensures
        r == is_calendar_date(y as int, m as int, d as int),
{
    chrono::NaiveDate::from_ymd_opt(y as i32, m, d).is_some()
}

proof fn lemma_digit_round_trip(n: int)
    requires
        0 <= n <= 9,
    ensures
        is_digit(digit_char(n)),
        digit_value(digit_char(n)) == n,
{
}

/// Reading back the text of a day gives the same day.
pub proof fn lemma_date_text_round_trip(d: Date)
    requires
        d.wf(),
    ensures
        date_from_text(d.text()) == Some(d),
{
    let s = d.text();
    let y = d.year as int;
    let m = d.month as int;
    let dd = d.day as int;
    lemma_digit_round_trip(y / 1000);
    lemma_digit_round_trip(y / 100 % 10);
    lemma_digit_round_trip(y / 10 % 10);
    lemma_digit_round_trip(y % 10);
    lemma_digit_round_trip(m / 10);
    lemma_digit_round_trip(m % 10);
    lemma_digit_round_trip(dd / 10);
    lemma_digit_round_trip(dd % 10);
    assert(digits_value(s, 0, 4) == y) by {
        assert(digits_value(s, 0, 0) == 0);
        assert(s[0] == digit_char(y / 1000));
        assert(digits_value(s, 0, 1) == y / 1000);
        assert(s[1] == digit_char(y / 100 % 10));
        assert(s[2] == digit_char(y / 10 % 10));
        assert(s[3] == digit_char(y % 10));
        assert(digits_value(s, 0, 2) == y / 100) by (nonlinear_arith)
            requires digits_value(s, 0, 2) == (y / 1000) * 10 + y / 100 % 10, 0 <= y <= 9999;
        assert(digits_value(s, 0, 3) == y / 10) by (nonlinear_arith)
            requires digits_value(s, 0, 3) == (y / 100) * 10 + y / 10 % 10, 0 <= y <= 9999;
        assert(digits_value(s, 0, 4) == y) by (nonlinear_arith)
            requires digits_value(s, 0, 4) == (y / 10) * 10 + y % 10, 0 <= y <= 9999;
    }
    assert(s[5] == digit_char(m / 10) && s[6] == digit_char(m % 10));
    assert(digits_value(s, 5, 0) == 0);
    assert(digits_value(s, 5, 1) == m / 10);
    assert(digits_value(s, 5, 2) == m);
    assert(s[8] == digit_char(dd / 10) && s[9] == digit_char(dd % 10));
    assert(digits_value(s, 8, 0) == 0);
    assert(digits_value(s, 8, 1) == dd / 10);
    assert(digits_value(s, 8, 2) == dd);
}

/// A text that reads as a day is that day's own text.
pub proof fn lemma_date_text_canonical(s: Seq<char>)
    requires
        date_from_text(s) is Some,
    ensures
        s == date_from_text(s)->0.text(),
{
    let d = date_from_text(s)->0;
    let a = digit_value(s[0]);
    let b = digit_value(s[1]);
    let c = digit_value(s[2]);
    let e = digit_value(s[3]);
    assert(is_digit(s[0]) && is_digit(s[1]) && is_digit(s[2]) && is_digit(s[3]));
    assert(is_digit(s[5]) && is_digit(s[6]) && is_digit(s[8]) && is_digit(s[9]));
    assert(digits_value(s, 0, 0) == 0);
    assert(digits_value(s, 0, 1) == a);
    assert(digits_value(s, 0, 2) == a * 10 + b);
    assert(digits_value(s, 0, 3) == (a * 10 + b) * 10 + c);
    assert(digits_value(s, 0, 4) == ((a * 10 + b) * 10 + c) * 10 + e);
    let y = d.year as int;
    assert(y / 1000 == a && y / 100 % 10 == b && y / 10 % 10 == c && y % 10 == e) by (nonlinear_arith)
        requires
            y == ((a * 10 + b) * 10 + c) * 10 + e,
            0 <= a <= 9,
            0 <= b <= 9,
            0 <= c <= 9,
            0 <= e <= 9,
    ;
    assert(digits_value(s, 5, 0) == 0);
    assert(digits_value(s, 8, 0) == 0);
    let m = d.month as int;
    let dd = d.day as int;
    assert(digits_value(s, 5, 1) == digit_value(s[5]));
    assert(digits_value(s, 8, 1) == digit_value(s[8]));
    assert(m == digit_value(s[5]) * 10 + digit_value(s[6]));
    assert(dd == digit_value(s[8]) * 10 + digit_value(s[9]));
    assert(m / 10 == digit_value(s[5]) && m % 10 == digit_value(s[6]));
    assert(dd / 10 == digit_value(s[8]) && dd % 10 == digit_value(s[9]));
    assert forall|j: int| 0 <= j < 10 && j != 4 && j != 7 implies digit_char(digit_value(s[j]))
        == s[j] by {
        assert(is_digit(s[j]));
    }
    assert(s =~= d.text());
}

} // verus!
