//! Calendar dates, and the `time` crate's reading and writing of them.
use vstd::prelude::*;
use crate::text::{all_digits, digit_char, digit_value, digits_value, is_digit};

verus! {

/// Leap years of the proleptic Gregorian calendar.
pub open spec fn is_leap_year(y: int) -> bool {
    (y % 4 == 0 && y % 100 != 0) || y % 400 == 0
}

pub open spec fn days_in_month(y: int, m: int) -> int {
    if m == 2 {
        if is_leap_year(y) {
            29
        } else {
            28
        }
    } else if m == 4 || m == 6 || m == 9 || m == 11 {
        30
    } else {
        31
    }
}

/// A day of the proleptic Gregorian calendar in the years that `time::Date`
/// holds (-9999 to 9999).
pub open spec fn valid_date(y: int, m: int, d: int) -> bool {
    -9999 <= y <= 9999 && 1 <= m <= 12 && 1 <= d <= days_in_month(y, m)
}

pub open spec fn valid_parts(p: (i32, u8, u8)) -> bool {
    valid_date(p.0 as int, p.1 as int, p.2 as int)
}

/// A valid date whose year is not negative: its text is `YYYY-MM-DD`.
pub open spec fn four_digit_date(p: (i32, u8, u8)) -> bool {
    valid_parts(p) && p.0 >= 0
}

/// The last `w` decimal digits of `n`, padded with zeros.
pub open spec fn padded_text(n: nat, w: nat) -> Seq<char>
    decreases w,
{
    if w == 0 {
        Seq::empty()
    } else {
        padded_text(n / 10, (w - 1) as nat).push(digit_char((n % 10) as int))
    }
}

/// The text that `time::Date` displays: the year in four digits at least,
/// after a `-` when it is negative, then the month and the day in two digits,
/// separated by `-`.
pub open spec fn date_text(y: int, m: int, d: int) -> Seq<char> {
    let sign = if y < 0 {
        seq!['-']
    } else {
        Seq::<char>::empty()
    };
    let a = if y < 0 {
        -y
    } else {
        y
    };
    sign + padded_text(a as nat, 4) + seq!['-'] + padded_text(m as nat, 2) + seq!['-']
        + padded_text(d as nat, 2)
}

/// A date written as `YYYY-MM-DD`: ten characters, digits but for the two
/// dashes, naming a valid date.
pub open spec fn canonical_date(t: Seq<char>) -> Option<(i32, u8, u8)> {
    let y = digits_value(t.subrange(0, 4));
    let m = digits_value(t.subrange(5, 7));
    let d = digits_value(t.subrange(8, 10));
    if t.len() == 10 && t[4] == '-' && t[7] == '-' && all_digits(t.subrange(0, 4))
        && all_digits(t.subrange(5, 7)) && all_digits(t.subrange(8, 10)) && valid_date(
        y as int,
        m as int,
        d as int,
    ) {
        Some((y as i32, m as u8, d as u8))
    } else {
        None
    }
}

/// What `time::Date::parse` with the ISO 8601 date format reads from a text,
/// as year, month and day.
pub uninterp spec fn iso_date_of(t: Seq<char>) -> Option<(i32, u8, u8)>;

/// Relies on `time::Date::from_calendar_date` (with `time::Month::try_from`
/// for the month number): it accepts exactly the valid dates and keeps their
/// parts.
#[verifier::external_body]
fn checked_calendar_date(year: i32, month: u8, day: u8) -> (r: Option<(i32, u8, u8)>)
    ensures
        r is Some <==> valid_date(year as int, month as int, day as int),
        r is Some ==> r == Some((year, month, day)),
{
    let month = time::Month::try_from(month).ok()?;
    let date = time::Date::from_calendar_date(year, month, day).ok()?;
    Some((date.year(), date.month() as u8, date.day()))
}

/// Relies on `Display` of `time::Date`: `[-]YYYY-MM-DD`, as `date_text` says.
#[verifier::external_body]
fn display_date(year: i32, month: u8, day: u8) -> (r: String)
    requires
        valid_date(year as int, month as int, day as int),
    ensures
        r@ == date_text(year as int, month as int, day as int),
{
    let month = time::Month::try_from(month).unwrap();
    time::Date::from_calendar_date(year, month, day).unwrap().to_string()
}

/// The date read from an ISO 8601 text: a `YYYY-MM-DD` text is read as the
/// date it names; any other text as `time` reads it.
pub open spec fn date_of_text(t: Seq<char>) -> Option<(i32, u8, u8)> {
    if canonical_date(t) is Some {
        canonical_date(t)
    } else {
        iso_date_of(t)
    }
}

/// Relies on `time::Date::parse` with `Iso8601::DATE`: the date it reads is
/// valid, and a `YYYY-MM-DD` text is read as the date it names (year, `-`,
/// month, `-`, day, with nothing after).
#[verifier::external_body]
fn parse_iso_date(s: &str) -> (r: Option<(i32, u8, u8)>)
    ensures
        canonical_date(s@) is Some ==> r == canonical_date(s@),
        canonical_date(s@) is None ==> r == iso_date_of(s@),
        r is Some ==> valid_parts(r->0),
{
    let format = time::format_description::well_known::Iso8601::DATE;
    let date = time::Date::parse(s, &format).ok()?;
    Some((date.year(), date.month() as u8, date.day()))
}

/// Relies on `time::UtcDateTime::now`: today's date in UTC, a valid date.
#[verifier::external_body]
fn utc_today() -> (r: (i32, u8, u8))
    ensures
        valid_date(r.0 as int, r.1 as int, r.2 as int),
{
    let date = time::UtcDateTime::now().date();
    (date.year(), date.month() as u8, date.day())
}

/// A valid day of the calendar.
#[derive(Debug, Clone, Copy, PartialEq, Eq, Structural, PartialOrd, Ord, Hash)]
pub struct CalendarDate {
    year: i32,
    month: u8,
    day: u8,
}

impl View for CalendarDate {
    type V = (i32, u8, u8);

    closed spec fn view(&self) -> (i32, u8, u8) {
        (self.year, self.month, self.day)
    }
}

impl CalendarDate {
    #[verifier::type_invariant]
    spec fn inv(&self) -> bool {
        valid_date(self.year as int, self.month as int, self.day as int)
    }

    /// Two dates with the same parts are the same date.
    pub proof fn lemma_view_eq(a: CalendarDate, b: CalendarDate)
        requires
            a@ == b@,
        ensures
            a == b,
    {
    }

    /// The date of the given parts, if they name a valid date.
    pub fn from_calendar_date(year: i32, month: u8, day: u8) -> (r: Option<CalendarDate>)
        ensures
            r is Some <==> valid_date(year as int, month as int, day as int),
            r is Some ==> r->0@ == (year, month, day),
    {
        match checked_calendar_date(year, month, day) {
            Some((y, m, d)) => Some(CalendarDate { year: y, month: m, day: d }),
            None => None,
        }
    }

    /// Today's date in UTC.
    pub fn today() -> (r: CalendarDate) {
        let (y, m, d) = utc_today();
        CalendarDate { year: y, month: m, day: d }
    }

    pub fn year(&self) -> (r: i32)
        ensures
            r == self@.0,
    {
        self.year
    }

    pub fn month(&self) -> (r: u8)
        ensures
            r == self@.1,
    {
        self.month
    }

    pub fn day(&self) -> (r: u8)
        ensures
            r == self@.2,
    {
        self.day
    }

    /// The ISO 8601 text of the date, `YYYY-MM-DD` for years from 0 to 9999.
    pub fn to_string(&self) -> (r: String)
        ensures
            r@ == date_text(self@.0 as int, self@.1 as int, self@.2 as int),
    {
        proof {
            use_type_invariant(self);
        }
        display_date(self.year, self.month, self.day)
    }

    /// Reads an ISO 8601 date, as `time::Date::parse` does.
    pub fn parse_iso(s: &str) -> (r: Option<CalendarDate>)
        ensures
            r is Some <==> date_of_text(s@) is Some,
            r is Some ==> date_of_text(s@) == Some(r->0@),
    {
        match parse_iso_date(s) {
            Some((y, m, d)) => Some(CalendarDate { year: y, month: m, day: d }),
            None => None,
        }
    }
}

spec fn pow10(w: nat) -> nat
    decreases w,
{
    if w == 0 {
        1
    } else {
        10 * pow10((w - 1) as nat)
    }
}

proof fn lemma_padded_text(n: nat, w: nat)
    ensures
        padded_text(n, w).len() == w,
        all_digits(padded_text(n, w)),
        n < pow10(w) ==> digits_value(padded_text(n, w)) == n,
    decreases w,
{
    if w > 0 {
        lemma_padded_text(n / 10, (w - 1) as nat);
        let t = padded_text(n, w);
        let c = digit_char((n % 10) as int);
        assert('0' <= c <= '9' && digit_value(c) == n % 10);
        assert(t.drop_last() =~= padded_text(n / 10, (w - 1) as nat));
        assert forall|i: int| 0 <= i < t.len() implies is_digit(#[trigger] t[i]) by {
            if i < t.len() - 1 {
                assert(t[i] == padded_text(n / 10, (w - 1) as nat)[i]);
            }
        }
        vstd::arithmetic::div_mod::lemma_fundamental_div_mod(n as int, 10);
        if n < pow10(w) {
            assert(n / 10 < pow10((w - 1) as nat)) by {
                vstd::arithmetic::div_mod::lemma_div_by_multiple_is_strongly_ordered(
                    n as int, pow10(w) as int, pow10((w - 1) as nat) as int, 10);
            }
        }
    } else {
        assert(digits_value(Seq::<char>::empty()) == 0);
    }
}

/// The text written for a valid date whose year is not negative reads back
/// as that date.
pub proof fn lemma_canonical_date_text(p: (i32, u8, u8))
    requires
        four_digit_date(p),
    ensures
        canonical_date(date_text(p.0 as int, p.1 as int, p.2 as int)) == Some(p),
{
    let (y, m, dd) = p;
    let t = date_text(y as int, m as int, dd as int);
    assert(pow10(2) == 100) by {
        reveal_with_fuel(pow10, 3);
    }
    assert(pow10(4) == 10000) by {
        reveal_with_fuel(pow10, 5);
    }
    lemma_padded_text(y as nat, 4);
    lemma_padded_text(m as nat, 2);
    lemma_padded_text(dd as nat, 2);
    assert(t.subrange(0, 4) =~= padded_text(y as nat, 4));
    assert(t.subrange(5, 7) =~= padded_text(m as nat, 2));
    assert(t.subrange(8, 10) =~= padded_text(dd as nat, 2));
    assert(t.len() == 10);
    assert(t[4] == '-');
    assert(t[7] == '-');
}

} // verus!
