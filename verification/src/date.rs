//! Calendar dates in the proleptic Gregorian calendar, counted in days from
//! 1970-01-01, and their `YYYY-MM-DD` form.

use vstd::prelude::*;

use crate::text::{chars_of, pad_signed, parse_i32, parse_signed, parse_u32, parse_unsigned, push_padded, split_chars, split_on, string_of, sub_chars, views, zero_pad, decimal};

verus! {

pub open spec fn is_leap(y: int) -> bool {
    (y % 4 == 0 && y % 100 != 0) || y % 400 == 0
}

/// Whether `year` is a leap year.
pub fn is_leap_year(year: i32) -> (r: bool)
    ensures
        r == is_leap(year as int),
{
    let a: i64 = year as i64;
    let m: i64 = if a >= 0 { a } else { -a };
    proof {
        lemma_divides_neg(a as int, 4);
        lemma_divides_neg(a as int, 100);
        lemma_divides_neg(a as int, 400);
    }
    (m % 4 == 0 && m % 100 != 0) || m % 400 == 0
}

proof fn lemma_divides_neg(y: int, k: int)
    requires
        k > 0,
    ensures
        (y % k == 0) == ((-y) % k == 0),
{
    if y % k == 0 {
        let q = y / k;
        assert(y == k * q) by (nonlinear_arith)
            requires
                y % k == 0,
                q == y / k,
                k > 0,
        ;
        assert(-y == k * (-q)) by (nonlinear_arith)
            requires
                y == k * q,
        ;
        vstd::arithmetic::div_mod::lemma_mod_multiples_basic(-q, k);
        assert((-q) * k == k * (-q)) by (nonlinear_arith);
    }
    if (-y) % k == 0 {
        let q = (-y) / k;
        assert(-y == k * q) by (nonlinear_arith)
            requires
                (-y) % k == 0,
                q == (-y) / k,
                k > 0,
        ;
        vstd::arithmetic::div_mod::lemma_mod_multiples_basic(-q, k);
        assert((-q) * k == y) by (nonlinear_arith)
            requires
                -y == k * q,
        ;
    }
}

pub open spec fn year_len(y: int) -> int {
    if is_leap(y) {
        366
    } else {
        365
    }
}

/// Length of month `m` of year `y`; 0 outside 1..=12.
pub open spec fn month_len(y: int, m: int) -> int {
    if m == 1 || m == 3 || m == 5 || m == 7 || m == 8 || m == 10 || m == 12 {
        31
    } else if m == 4 || m == 6 || m == 9 || m == 11 {
        30
    } else if m == 2 {
        if is_leap(y) {
            29
        } else {
            28
        }
    } else {
        0
    }
}

/// Days from 1970-01-01 to January 1st of year `y` (negative before 1970).
pub open spec fn days_before_year(y: int) -> int
    decreases (if y >= 1970 { y - 1970 } else { 1970 - y }),
{
    if y == 1970 {
        0
    } else if y > 1970 {
        days_before_year(y - 1) + year_len(y - 1)
    } else {
        days_before_year(y + 1) - year_len(y)
    }
}

/// Days of year `y` that come before the first of month `m`.
pub open spec fn days_before_month(y: int, m: int) -> int
    decreases m,
{
    if m <= 1 {
        0
    } else {
        days_before_month(y, m - 1) + month_len(y, m - 1)
    }
}

/// The first day number that a date with an `i32` year cannot reach: the
/// day after the last day of year `i32::MAX`.
pub open spec fn epoch_day_limit() -> int {
    days_before_year(i32::MAX as int) + year_len(i32::MAX as int)
}

/// The first day number that a date with an `i32` year can have.
pub open spec fn epoch_day_floor() -> int {
    days_before_year(i32::MIN as int)
}

/// Number of days in `month` of `year`; 0 when `month` is not in 1..=12.
pub fn days_in_month(year: i32, month: u32) -> (r: u32)
    ensures
        r as int == month_len(year as int, month as int),
{
    match month {
        1 | 3 | 5 | 7 | 8 | 10 | 12 => 31,
        4 | 6 | 9 | 11 => 30,
        2 => if is_leap_year(year) {
            29
        } else {
            28
        },
        _ => 0,
    }
}

/// Number of days in `year`.
pub fn days_in_year(year: i32) -> (r: u32)
    ensures
        r as int == year_len(year as int),
{
    if is_leap_year(year) {
        366
    } else {
        365
    }
}

pub proof fn lemma_year_step(y: int)
    ensures
        days_before_year(y + 1) == days_before_year(y) + year_len(y),
{
    if y >= 1970 {
        assert(days_before_year(y + 1) == days_before_year(y) + year_len(y));
    } else {
        assert(days_before_year(y) == days_before_year(y + 1) - year_len(y));
    }
}

/// Days before a later year are at least 365 per year more, at most 366.
pub proof fn lemma_year_gap(a: int, b: int)
    requires
        a <= b,
    ensures
        365 * (b - a) <= days_before_year(b) - days_before_year(a) <= 366 * (b - a),
    decreases b - a,
{
    if a < b {
        lemma_year_gap(a, b - 1);
        lemma_year_step(b - 1);
    }
}

pub proof fn lemma_month_table(y: int)
    ensures
        days_before_month(y, 1) == 0,
        days_before_month(y, 2) == 31,
        days_before_month(y, 3) == 31 + month_len(y, 2),
        days_before_month(y, 13) == year_len(y),
        forall|m: int| 1 <= m <= 12 ==> days_before_month(y, m + 1) == days_before_month(y, m)
            + month_len(y, m),
        forall|m: int| 1 <= m <= 12 ==> 28 <= #[trigger] month_len(y, m) <= 31,
        forall|m: int| 1 <= m <= 13 ==> 0 <= #[trigger] days_before_month(y, m) <= year_len(y),
{
    reveal_with_fuel(days_before_month, 14);
}

pub proof fn lemma_month_mono(y: int, a: int, b: int)
    requires
        1 <= a <= b <= 13,
    ensures
        days_before_month(y, a) <= days_before_month(y, b),
    decreases b - a,
{
    lemma_month_table(y);
    if a < b {
        lemma_month_mono(y, a, b - 1);
    }
}

pub proof fn lemma_year_mono(a: int, b: int)
    requires
        a < b,
    ensures
        days_before_year(a) + year_len(a) <= days_before_year(b),
{
    lemma_year_step(a);
    lemma_year_gap(a + 1, b);
}

/// `x` divided by 12, rounded down, with the remainder in 0..12.
fn floor_div_12(x: i32) -> (r: (i32, i32))
    ensures
        r.0 as int == (x as int) / 12,
        r.1 as int == (x as int) % 12,
{
    if x >= 0 {
        let q = x / 12;
        let m = x % 12;
        proof {
            vstd::arithmetic::div_mod::lemma_fundamental_div_mod_converse(x as int, 12, q as int, m as int);
        }
        (q, m)
    } else {
        let n: i32 = -(x + 1);
        let q = -(n / 12) - 1;
        let m = 11 - n % 12;
        proof {
            vstd::arithmetic::div_mod::lemma_fundamental_div_mod_converse(x as int, 12, q as int, m as int);
        }
        (q, m)
    }
}

/// `x` modulo 7, in 0..7.
fn floor_mod_7(x: i64) -> (r: i64)
    ensures
        r as int == (x as int) % 7,
{
    if x >= 0 {
        let q = x / 7;
        let m = x % 7;
        proof {
            vstd::arithmetic::div_mod::lemma_fundamental_div_mod_converse(x as int, 7, q as int, m as int);
        }
        m
    } else {
        let n: i64 = -(x + 1);
        let q = -(n / 7) - 1;
        let m = 6 - n % 7;
        proof {
            vstd::arithmetic::div_mod::lemma_fundamental_div_mod_converse(x as int, 7, q as int, m as int);
        }
        m
    }
}

/// The date `add_months` lands on: the same day in the month `delta`
/// months away, clamped to the length of that month.
pub open spec fn add_months_spec(d: Date, delta: int) -> Date {
    let mi = (d.year as int) * 12 + d.month as int - 1 + delta;
    let y = mi / 12;
    let m = mi % 12 + 1;
    let len = month_len(y, m);
    Date { year: y as i32, month: m as u32, day: if d.day as int <= len { d.day } else { len as u32 } }
}

/// Day numbers reachable with an `i32` year fit comfortably in an `i64`.
pub proof fn lemma_limits()
    ensures
        -800_000_000_000 <= epoch_day_floor() <= 0 <= epoch_day_limit() <= 800_000_000_000,
{
    lemma_year_gap(1970, i32::MAX as int);
    lemma_year_gap(i32::MIN as int, 1970);
    let a = epoch_day_limit();
    let b = epoch_day_floor();
    assert(a <= 366 * 2147481678);
    assert(0 - b <= 366 * 2147485618);
}

/// The date that `Date::parse` reads from `YYYY-MM-DD`: three pieces
/// separated by `-`, read as integers, forming a date that exists.
pub open spec fn parse_date(s: Seq<char>) -> Option<Date> {
    let parts = split_on(s, '-');
    if parts.len() != 3 {
        None
    } else {
        match (
            parse_signed(parts[0], i32::MIN as int, i32::MAX as int),
            parse_unsigned(parts[1], u32::MAX as int),
            parse_unsigned(parts[2], u32::MAX as int),
        ) {
            (Some(y), Some(m), Some(d)) => {
                let date = Date { year: y as i32, month: m as u32, day: d as u32 };
                if date.valid() {
                    Some(date)
                } else {
                    None
                }
            },
            _ => None,
        }
    }
}

/// The `YYYY-MM-DD` text of a date, as `format!("{:04}-{:02}-{:02}")` writes it.
pub open spec fn iso_text(d: Date) -> Seq<char> {
    pad_signed(d.year as int, 4) + seq!['-'] + zero_pad(decimal(d.month as nat), 2) + seq!['-']
        + zero_pad(decimal(d.day as nat), 2)
}

/// English name of a month; empty outside 1..=12.
pub open spec fn month_name_text(month: u32) -> Seq<char> {
    if month == 1 {
        "January"@
    } else if month == 2 {
        "February"@
    } else if month == 3 {
        "March"@
    } else if month == 4 {
        "April"@
    } else if month == 5 {
        "May"@
    } else if month == 6 {
        "June"@
    } else if month == 7 {
        "July"@
    } else if month == 8 {
        "August"@
    } else if month == 9 {
        "September"@
    } else if month == 10 {
        "October"@
    } else if month == 11 {
        "November"@
    } else if month == 12 {
        "December"@
    } else {
        ""@
    }
}

/// English name of a month; empty outside 1..=12.
pub fn month_name(month: u32) -> (r: &'static str)
    ensures
        r@ == month_name_text(month),
{
    match month {
        1 => "January",
        2 => "February",
        3 => "March",
        4 => "April",
        5 => "May",
        6 => "June",
        7 => "July",
        8 => "August",
        9 => "September",
        10 => "October",
        11 => "November",
        12 => "December",
        _ => "",
    }
}

/// Day number of the local day at `now` seconds after the epoch, for a
/// time zone `offset` seconds east of UTC.
pub open spec fn local_day(now: int, offset: int) -> int {
    (now + offset) / 86400
}

/// Whether `d` is the local date, in a zone `offset` seconds east of UTC,
/// of some reading of the clock.
pub open spec fn is_local_today(d: Date, offset: int) -> bool {
    &&& d.valid()
    &&& exists|now: u64| d.epoch_day() == held_day(local_day(now as int, offset))
}

/// A day number held within about 1.9 billion years of 1970.
pub open spec fn held_day(d: int) -> int {
    if d > 700_000_000_000 {
        700_000_000_000
    } else if d < -700_000_000_000 {
        -700_000_000_000
    } else {
        d
    }
}

/// The local day number: seconds shifted by the zone offset, divided by a
/// day and rounded down.
pub fn day_number(now: u64, offset: i64) -> (r: i64)
    ensures
        r as int == local_day(now as int, offset as int),
{
    let x: i128 = now as i128 + offset as i128;
    if x >= 0 {
        let q = x / 86400;
        let m = x % 86400;
        proof {
            vstd::arithmetic::div_mod::lemma_fundamental_div_mod_converse(x as int, 86400, q as int, m as int);
        }
        q as i64
    } else {
        let n: i128 = -(x + 1);
        let q = -(n / 86400) - 1;
        let m = 86399 - n % 86400;
        proof {
            vstd::arithmetic::div_mod::lemma_fundamental_div_mod_converse(x as int, 86400, q as int, m as int);
        }
        q as i64
    }
}

/// Reads the clock: seconds since 1970-01-01 UTC, 0 when the clock is set
/// before that. Nothing is stated of the value: it is the time.
#[verifier::external_body]
fn unix_seconds_now() -> u64 {
    match std::time::SystemTime::now().duration_since(std::time::UNIX_EPOCH) {
        Ok(elapsed) => elapsed.as_secs(),
        Err(_) => 0,
    }
}

/// Reads a UTC offset written `+HHMM` or `-HHMM`, as `date +%z` prints it,
/// in seconds east of UTC.
pub open spec fn tz_offset(s: Seq<char>) -> Option<int> {
    if s.len() == 5 && (s[0] == '+' || s[0] == '-') {
        match (
            parse_signed(s.subrange(1, 3), i64::MIN as int, i64::MAX as int),
            parse_signed(s.subrange(3, 5), i64::MIN as int, i64::MAX as int),
        ) {
            (Some(h), Some(m)) => Some(
                (if s[0] == '+' {
                    1int
                } else {
                    -1int
                }) * (h * 3600 + m * 60),
            ),
            _ => None,
        }
    } else {
        None
    }
}

proof fn lemma_two_digits(s: Seq<char>)
    requires
        s.len() <= 2,
        crate::text::all_digits(s),
    ensures
        0 <= crate::text::digits_value(s) <= 99,
{
    reveal_with_fuel(crate::text::digits_value, 3);
    if s.len() == 2 {
        assert(s.drop_last().drop_last().len() == 0);
    } else if s.len() == 1 {
        assert(s.drop_last().len() == 0);
    }
}

proof fn lemma_small_signed(s: Seq<char>)
    requires
        s.len() == 2,
    ensures
        parse_signed(s, i64::MIN as int, i64::MAX as int) == parse_signed(
            s,
            i32::MIN as int,
            i32::MAX as int,
        ),
        parse_signed(s, i64::MIN as int, i64::MAX as int) matches Some(v) ==> -99 <= v <= 99,
{
    if crate::text::all_digits(s) {
        lemma_two_digits(s);
    }
    if s[0] == '-' || s[0] == '+' {
        let d = s.drop_first();
        if crate::text::all_digits(d) {
            lemma_two_digits(d);
        }
    }
}

/// Reads a UTC offset written `+HHMM` or `-HHMM` into seconds east of UTC.
pub fn parse_tz_offset(s: &str) -> (r: Option<i64>)
    ensures
        r matches Some(v) ==> tz_offset(s@) == Some(v as int),
        r is None ==> tz_offset(s@) is None,
{
    let cs = chars_of(s);
    if cs.len() != 5 || (cs[0] != '+' && cs[0] != '-') {
        return None;
    }
    let sign: i64 = if cs[0] == '+' {
        1
    } else {
        -1
    };
    let hs = sub_chars(cs.as_slice(), 1, 3);
    let ms = sub_chars(cs.as_slice(), 3, 5);
    proof {
        lemma_small_signed(hs@);
        lemma_small_signed(ms@);
    }
    let hours = match parse_i32(hs.as_slice()) {
        Some(h) => h as i64,
        None => return None,
    };
    let minutes = match parse_i32(ms.as_slice()) {
        Some(m) => m as i64,
        None => return None,
    };
    Some(sign * (hours * 3600 + minutes * 60))
}

/// A calendar date. `Date::new` and `Date::parse` only build valid ones.
#[derive(Debug, Clone, Copy, PartialEq, Eq, PartialOrd, Ord)]
pub struct Date {
    pub year: i32,
    pub month: u32,
    pub day: u32,
}

impl Date {
    /// The month is in 1..=12 and the day exists in that month.
    pub open spec fn valid(self) -> bool {
        &&& 1 <= self.month <= 12
        &&& 1 <= self.day <= month_len(self.year as int, self.month as int)
    }

    /// Days from 1970-01-01 to this date.
    pub open spec fn epoch_day(self) -> int {
        days_before_year(self.year as int) + days_before_month(self.year as int, self.month as int)
            + self.day - 1
    }

    /// The date `year-month-day`, when it exists.
    pub fn new(year: i32, month: u32, day: u32) -> (r: Option<Date>)
        ensures
            r == (if (Date { year, month, day }).valid() {
                Some(Date { year, month, day })
            } else {
                None
            }),
    {
        if month < 1 || month > 12 {
            return None;
        }
        if day < 1 || day > days_in_month(year, month) {
            return None;
        }
        Some(Date { year, month, day })
    }

    /// Days from 1970-01-01 to this date (negative before it).
    pub fn days_since_epoch(self) -> (r: i64)
        requires
            self.valid(),
        ensures
            r as int == self.epoch_day(),
    {
        let mut days: i64 = 0;
        if self.year >= 1970 {
            let mut y: i32 = 1970;
            while y < self.year
                invariant
                    1970 <= y <= self.year,
                    days as int == days_before_year(y as int),
                decreases self.year - y,
            {
                proof {
                    lemma_year_step(y as int);
                    lemma_year_gap(1970, y as int + 1);
                }
                days = days + days_in_year(y) as i64;
                y = y + 1;
            }
        } else {
            let mut y: i32 = self.year;
            while y < 1970
                invariant
                    self.year <= y <= 1970,
                    days as int == days_before_year(self.year as int) - days_before_year(y as int),
                decreases 1970 - y,
            {
                proof {
                    lemma_year_step(y as int);
                    lemma_year_gap(self.year as int, y as int + 1);
                }
                days = days - days_in_year(y) as i64;
                y = y + 1;
            }
        }
        proof {
            lemma_month_table(self.year as int);
            let y = self.year as int;
            let d = days_before_year(y);
            if self.year >= 1970 {
                lemma_year_gap(1970, y);
                assert(d <= 366 * 2147483648) by (nonlinear_arith)
                    requires
                        d - 0 <= 366 * (y - 1970),
                        y <= 2147483647,
                ;
                assert(d >= 0);
            } else {
                lemma_year_gap(y, 1970);
                assert(d >= -366 * 2147483648 - 800000) by (nonlinear_arith)
                    requires
                        0 - d <= 366 * (1970 - y),
                        y >= -2147483648,
                ;
                assert(d <= 0);
            }
        }
        let mut m: u32 = 1;
        while m < self.month
            invariant
                1 <= m <= self.month <= 12,
                days as int == days_before_year(self.year as int) + days_before_month(
                    self.year as int,
                    m as int,
                ),
                forall|k: int| 1 <= k <= 12 ==> days_before_month(self.year as int, k + 1)
                    == days_before_month(self.year as int, k) + month_len(self.year as int, k),
                forall|k: int| 1 <= k <= 13 ==> 0 <= #[trigger] days_before_month(self.year as int, k)
                    <= year_len(self.year as int),
                -366 * 2147483648 - 800000 <= days_before_year(self.year as int) <= 366 * 2147483648,
            decreases self.month - m,
        {
            days = days + days_in_month(self.year, m) as i64;
            m = m + 1;
        }
        days + (self.day - 1) as i64
    }

    /// A valid date lies inside its year and inside its month.
    pub proof fn lemma_bounds(self)
        requires
            self.valid(),
        ensures
            days_before_year(self.year as int) <= self.epoch_day() < days_before_year(
                self.year as int,
            ) + year_len(self.year as int),
            days_before_month(self.year as int, self.month as int) <= self.epoch_day()
                - days_before_year(self.year as int) < days_before_month(
                self.year as int,
                self.month as int + 1,
            ),
            epoch_day_floor() <= self.epoch_day(),
            self.epoch_day() < epoch_day_limit(),
    {
        let y = self.year as int;
        lemma_month_table(y);
        lemma_month_mono(y, self.month as int + 1, 13);
        if y > i32::MIN {
            lemma_year_gap(i32::MIN as int, y);
        }
        if y < i32::MAX {
            lemma_year_mono(y, i32::MAX as int);
        }
    }

    /// Two valid dates with the same day number are the same date.
    pub proof fn lemma_epoch_injective(self, other: Date)
        requires
            self.valid(),
            other.valid(),
            self.epoch_day() == other.epoch_day(),
        ensures
            self == other,
    {
        self.lemma_bounds();
        other.lemma_bounds();
        let ya = self.year as int;
        let yb = other.year as int;
        if ya < yb {
            lemma_year_mono(ya, yb);
        } else if yb < ya {
            lemma_year_mono(yb, ya);
        }
        assert(ya == yb);
        let ma = self.month as int;
        let mb = other.month as int;
        if ma < mb {
            lemma_month_mono(ya, ma + 1, mb);
        } else if mb < ma {
            lemma_month_mono(ya, mb + 1, ma);
        }
        assert(ma == mb);
    }

    /// The date `delta` days later (earlier when `delta` is negative).
    pub fn add_days(self, delta: i32) -> (r: Date)
        requires
            self.valid(),
            epoch_day_floor() <= self.epoch_day() + delta < epoch_day_limit(),
        ensures
            r.valid(),
            r.epoch_day() == self.epoch_day() + delta,
    {
        proof {
            self.lemma_bounds();
            lemma_limits();
        }
        Date::from_days_since_epoch(self.days_since_epoch() + delta as i64)
    }

    /// The same day `delta` months later, clamped to the last day of the
    /// month reached.
    pub fn add_months(self, delta: i32) -> (r: Date)
        requires
            self.valid(),
            i32::MIN <= (self.year as int) * 12 + self.month - 1 + delta <= i32::MAX,
            i32::MIN <= (self.year as int) * 12 <= i32::MAX,
            (self.year as int) * 12 + self.month <= i32::MAX,
        ensures
            r == add_months_spec(self, delta as int),
            r.valid(),
    {
        let month_index = self.year * 12 + self.month as i32 - 1 + delta;
        let (year, m) = floor_div_12(month_index);
        let month = m as u32 + 1;
        let len = days_in_month(year, month);
        let day = if self.day <= len {
            self.day
        } else {
            len
        };
        proof {
            lemma_month_table(year as int);
        }
        Date { year, month, day }
    }

    /// Day of the week, Monday being 0 and Sunday 6.
    pub fn weekday_monday0(self) -> (r: u32)
        requires
            self.valid(),
        ensures
            r as int == (self.epoch_day() + 3) % 7,
            r < 7,
    {
        proof {
            self.lemma_bounds();
            if self.year >= 1970 {
                lemma_year_gap(1970, self.year as int);
            } else {
                lemma_year_gap(self.year as int, 1970);
            }
            let y = self.year as int;
            let d = days_before_year(y);
            if self.year >= 1970 {
                assert(d <= 366 * 2147483648) by (nonlinear_arith)
                    requires
                        d - 0 <= 366 * (y - 1970),
                        y <= 2147483647,
                ;
            } else {
                assert(d >= -366 * 2147483648 - 800000) by (nonlinear_arith)
                    requires
                        0 - d <= 366 * (1970 - y),
                        y >= -2147483648,
                ;
            }
        }
        floor_mod_7(self.days_since_epoch() + 3) as u32
    }

    /// Reads a date written `YYYY-MM-DD`.
    pub fn parse(s: &str) -> (r: Option<Date>)
        ensures
            r == parse_date(s@),
    {
        let cs = chars_of(s);
        let parts = split_chars(cs.as_slice(), '-');
        if parts.len() != 3 {
            return None;
        }
        proof {
            assert(views(parts@)[0] == parts@[0]@);
            assert(views(parts@)[1] == parts@[1]@);
            assert(views(parts@)[2] == parts@[2]@);
        }
        let year = match parse_i32(parts[0].as_slice()) {
            Some(v) => v,
            None => return None,
        };
        let month = match parse_u32(parts[1].as_slice()) {
            Some(v) => v,
            None => return None,
        };
        let day = match parse_u32(parts[2].as_slice()) {
            Some(v) => v,
            None => return None,
        };
        Date::new(year, month, day)
    }

    /// The `YYYY-MM-DD` text of this date.
    pub fn iso(self) -> (r: String)
        ensures
            r@ == iso_text(self),
    {
        let mut out: Vec<char> = Vec::new();
        if self.year >= 0 {
            push_padded(&mut out, self.year as u64, 4);
        } else {
            out.push('-');
            let mag: i64 = -(self.year as i64);
            push_padded(&mut out, mag as u64, 3);
        }
        out.push('-');
        push_padded(&mut out, self.month as u64, 2);
        out.push('-');
        push_padded(&mut out, self.day as u64, 2);
        assert(out@ =~= iso_text(self));
        string_of(out.as_slice())
    }

    /// The date `now_seconds` after 1970-01-01 UTC in a time zone
    /// `offset_seconds` east of UTC. A day number beyond the years an `i32`
    /// holds is held at about 1.9 billion years from 1970.
    pub fn on_clock(now_seconds: u64, offset_seconds: i64) -> (r: Date)
        ensures
            r.valid(),
            r.epoch_day() == held_day(local_day(now_seconds as int, offset_seconds as int)),
    {
        let mut days = day_number(now_seconds, offset_seconds);
        proof {
            lemma_limits();
            lemma_year_gap(1970, i32::MAX as int);
            lemma_year_gap(i32::MIN as int, 1970);
        }
        if days > 700_000_000_000 {
            days = 700_000_000_000;
        }
        if days < -700_000_000_000 {
            days = -700_000_000_000;
        }
        Date::from_days_since_epoch(days)
    }

    /// Today's local date, for a time zone `offset_seconds` east of UTC
    /// (the caller reads the zone), as `on_clock` gives it for the clock's
    /// reading.
    pub fn today(offset_seconds: i64) -> (r: Date)
        ensures
            is_local_today(r, offset_seconds as int),
    {
        let now = unix_seconds_now();
        Date::on_clock(now, offset_seconds)
    }

    /// The date that lies `days` days after 1970-01-01.
    pub fn from_days_since_epoch(days: i64) -> (r: Date)
        requires
            epoch_day_floor() <= days < epoch_day_limit(),
        ensures
            r.valid(),
            r.epoch_day() == days,
    {
        let mut rem: i64 = days;
        let mut year: i32 = 1970;
        if rem >= 0 {
            loop
                invariant_except_break
                    1970 <= year,
                    0 <= rem,
                    days_before_year(year as int) + rem == days,
                    days < epoch_day_limit(),
                ensures
                    0 <= rem < year_len(year as int),
                    days_before_year(year as int) + rem == days,
                decreases rem,
            {
                let yd = days_in_year(year) as i64;
                if rem < yd {
                    break;
                }
                proof {
                    lemma_year_step(year as int);
                    if year == i32::MAX {
                        assert(false);
                    }
                }
                rem = rem - yd;
                year = year + 1;
            }
        } else {
            loop
                invariant_except_break
                    year <= 1970,
                    rem < 0,
                    days_before_year(year as int) + rem == days,
                    epoch_day_floor() <= days,
                ensures
                    0 <= rem < year_len(year as int),
                    days_before_year(year as int) + rem == days,
                decreases year - i32::MIN,
            {
                proof {
                    if year == i32::MIN {
                        assert(false);
                    }
                    lemma_year_step(year - 1);
                }
                year = year - 1;
                let yd = days_in_year(year) as i64;
                rem = rem + yd;
                if rem >= 0 {
                    break;
                }
            }
        }
        proof {
            lemma_month_table(year as int);
        }
        let ghost y = year as int;
        let mut month: u32 = 1;
        loop
            invariant_except_break
                1 <= month <= 12,
                0 <= rem,
                rem + days_before_month(y, month as int) < year_len(y),
                days_before_year(y) + days_before_month(y, month as int) + rem == days,
                y == year as int,
                forall|m: int| 1 <= m <= 12 ==> days_before_month(y, m + 1) == days_before_month(y, m)
                    + month_len(y, m),
                days_before_month(y, 13) == year_len(y),
                forall|m: int| 1 <= m <= 12 ==> 28 <= #[trigger] month_len(y, m) <= 31,
            ensures
                1 <= month <= 12,
                0 <= rem < month_len(y, month as int),
                days_before_year(y) + days_before_month(y, month as int) + rem == days,
            decreases 12 - month,
        {
            let md = days_in_month(year, month) as i64;
            if rem < md {
                break;
            }
            rem = rem - md;
            month = month + 1;
        }
        Date { year, month, day: rem as u32 + 1 }
    }
}

/// Days from `today` to the date written in `due`, when it reads as one.
pub open spec fn days_until_on(due: Seq<char>, today: Date) -> Option<int> {
    match parse_date(due) {
        Some(d) => Some(d.epoch_day() - today.epoch_day()),
        None => None,
    }
}

/// Whether the date written in `due` is `today` or earlier.
pub open spec fn overdue_on(due: Seq<char>, today: Date) -> bool {
    match parse_date(due) {
        Some(d) => d.epoch_day() <= today.epoch_day(),
        None => false,
    }
}

/// Comparing valid dates field by field orders them as their day numbers do.
pub proof fn lemma_epoch_order(a: Date, b: Date)
    requires
        a.valid(),
        b.valid(),
    ensures
        (a.epoch_day() <= b.epoch_day()) == (a.year < b.year || (a.year == b.year && (a.month
            < b.month || (a.month == b.month && a.day <= b.day)))),
{
    a.lemma_bounds();
    b.lemma_bounds();
    if a.year < b.year {
        lemma_year_mono(a.year as int, b.year as int);
    } else if b.year < a.year {
        lemma_year_mono(b.year as int, a.year as int);
    } else if a.month < b.month {
        lemma_month_mono(a.year as int, a.month as int + 1, b.month as int);
    } else if b.month < a.month {
        lemma_month_mono(a.year as int, b.month as int + 1, a.month as int);
    }
}

/// Days from `today` to the date written in `due`.
pub fn days_until_from(due: &str, today: Date) -> (r: Option<i64>)
    requires
        today.valid(),
    ensures
        r matches Some(v) ==> days_until_on(due@, today) == Some(v as int),
        r is None ==> days_until_on(due@, today) is None,
{
    match Date::parse(due) {
        Some(d) => {
            proof {
                d.lemma_bounds();
                today.lemma_bounds();
                lemma_limits();
                if d.year == i32::MAX {
                    lemma_year_gap(1970, i32::MAX as int);
                    lemma_year_step(i32::MAX as int);
                }
            }
            let a = d.days_since_epoch();
            let b = today.days_since_epoch();
            Some(a - b)
        },
        None => None,
    }
}

/// Whether the date written in `due` is `today` or earlier.
pub fn is_overdue_on(due: &str, today: Date) -> (r: bool)
    requires
        today.valid(),
    ensures
        r == overdue_on(due@, today),
{
    match Date::parse(due) {
        Some(d) => {
            proof {
                lemma_epoch_order(d, today);
            }
            d.year < today.year || (d.year == today.year && (d.month < today.month || (d.month
                == today.month && d.day <= today.day)))
        },
        None => false,
    }
}

/// Days from today, in a zone `offset_seconds` east of UTC, to the date
/// written in `due`; `None` when `due` is not a date.
pub fn days_until(due: &str, offset_seconds: i64) -> (r: Option<i64>)
    ensures
        exists|t: Date| #![auto]
            is_local_today(t, offset_seconds as int) && (r matches Some(v) ==> days_until_on(due@, t) == Some(
                v as int,
            )) && (r is None ==> days_until_on(due@, t) is None),
{
    let today = Date::today(offset_seconds);
    days_until_from(due, today)
}

/// Whether the date written in `due` is today, in a zone `offset_seconds`
/// east of UTC, or earlier.
pub fn is_overdue(due: &str, offset_seconds: i64) -> (r: bool)
    ensures
        exists|t: Date| #![auto] is_local_today(t, offset_seconds as int) && r == overdue_on(due@, t),
{
    let today = Date::today(offset_seconds);
    is_overdue_on(due, today)
}

/// A day number is shared by exactly one valid date: converting a date to
/// its day number and back gives the same date.
pub proof fn law_day_number_round_trip(d: Date, e: Date)
    requires
        d.valid(),
        e.valid(),
        e.epoch_day() == d.epoch_day(),
    ensures
        e == d,
{
    d.lemma_epoch_injective(e);
}

/// Moving `a` days and then `b` days lands on the date `a + b` days away.
pub proof fn law_add_days_compose(d: Date, x: Date, y: Date, z: Date, a: int, b: int)
    requires
        d.valid(),
        x.valid(),
        y.valid(),
        z.valid(),
        x.epoch_day() == d.epoch_day() + a,
        y.epoch_day() == x.epoch_day() + b,
        z.epoch_day() == d.epoch_day() + (a + b),
    ensures
        y == z,
{
    y.lemma_epoch_injective(z);
}

/// Moving `a` days and then `-a` days returns to the date one started from.
pub proof fn law_add_days_inverse(d: Date, x: Date, y: Date, a: int)
    requires
        d.valid(),
        x.valid(),
        y.valid(),
        x.epoch_day() == d.epoch_day() + a,
        y.epoch_day() == x.epoch_day() - a,
    ensures
        y == d,
{
    y.lemma_epoch_injective(d);
}

/// The `YYYY-MM-DD` text of a valid date with a year of 0 or later reads
/// back as the same date.
pub proof fn law_parse_iso(d: Date)
    requires
        d.valid(),
        d.year >= 0,
    ensures
        parse_date(iso_text(d)) == Some(d),
{
    let ys = zero_pad(decimal(d.year as nat), 4);
    let ms = zero_pad(decimal(d.month as nat), 2);
    let ds = zero_pad(decimal(d.day as nat), 2);
    crate::text::lemma_zero_pad_value(d.year as nat, 4);
    crate::text::lemma_zero_pad_value(d.month as nat, 2);
    crate::text::lemma_zero_pad_value(d.day as nat, 2);
    crate::text::lemma_digits_no_sign(ys);
    crate::text::lemma_digits_no_sign(ms);
    crate::text::lemma_digits_no_sign(ds);
    assert(iso_text(d) =~= ys + seq!['-'] + ms + seq!['-'] + ds);
    crate::text::lemma_split_single(ys, '-');
    crate::text::lemma_split_append(ys, ms, '-');
    crate::text::lemma_split_append(ys + seq!['-'] + ms, ds, '-');
    let parts = split_on(iso_text(d), '-');
    assert(parts =~= seq![ys, ms, ds]);
    assert(ys[0] != '-' && ys[0] != '+') by {
        assert(crate::text::is_ascii_digit(ys[0]));
    }
    assert(ms[0] != '+') by {
        assert(crate::text::is_ascii_digit(ms[0]));
    }
    assert(ds[0] != '+') by {
        assert(crate::text::is_ascii_digit(ds[0]));
    }
}

} // verus!
