use vstd::prelude::*;

verus! {

use vstd::arithmetic::div_mod::lemma_div_is_ordered_by_denominator;
use vstd::arithmetic::div_mod::lemma_fundamental_div_mod;
use vstd::arithmetic::div_mod::lemma_fundamental_div_mod_converse;

/// A calendar date in the proleptic Gregorian calendar, without a
/// time-of-day component. Only years 0 through 9999 are admitted, the
/// range that the four-digit `YYYY-MM-DD` notation can express.
#[derive(Clone, Copy, PartialEq, Eq, Structural, Debug)]
pub struct Date {
    pub year: i32,
    pub month: u8,
    pub day: u8,
}

pub open spec fn spec_is_leap_year(y: int) -> bool {
    (y % 4 == 0 && y % 100 != 0) || y % 400 == 0
}

pub open spec fn spec_days_in_month(y: int, m: int) -> int {
    if m == 2 {
        if spec_is_leap_year(y) {
            29
        } else {
            28
        }
    } else if m == 4 || m == 6 || m == 9 || m == 11 {
        30
    } else {
        31
    }
}

pub open spec fn spec_valid_date(d: Date) -> bool {
    &&& 0 <= d.year <= 9999
    &&& 1 <= d.month <= 12
    &&& 1 <= d.day <= spec_days_in_month(d.year as int, d.month as int)
}

/// How many leap years lie in the half-open range `[0, y)`.
/// Year 0 itself is a leap year, hence the `1 +` for positive `y`.
pub open spec fn spec_leap_count(y: int) -> int
    recommends
        y >= 0,
{
    if y <= 0 {
        0
    } else {
        1 + (y - 1) / 4 - (y - 1) / 100 + (y - 1) / 400
    }
}

/// Days in all years before year `y`, counting from 0000-01-01 as day zero.
pub open spec fn spec_days_before_year(y: int) -> int {
    365 * y + spec_leap_count(y)
}

/// Days in all months of year `y` before month `m`.
pub open spec fn spec_days_before_month(y: int, m: int) -> int
    decreases m,
{
    if m <= 1 {
        0
    } else {
        spec_days_before_month(y, m - 1) + spec_days_in_month(y, m - 1)
    }
}

/// The rank of a date in the calendar: 0000-01-01 is day 0, and each
/// following calendar day adds one (see `lemma_day_number_succ`).
pub open spec fn spec_day_number(d: Date) -> int {
    spec_days_before_year(d.year as int) + spec_days_before_month(d.year as int, d.month as int)
        + d.day - 1
}

/// For d >= 1 and y >= 1, stepping the numerator down by one lowers the
/// quotient exactly when d divides y.
proof fn lemma_div_step(y: int, d: int)
    requires
        y >= 1,
        d >= 1,
    ensures
        y / d == (y - 1) / d + if y % d == 0 {
            1int
        } else {
            0int
        },
{
    let q = (y - 1) / d;
    let r = (y - 1) % d;
    lemma_fundamental_div_mod(y - 1, d);
    if r + 1 == d {
        assert(y == (q + 1) * d + 0) by (nonlinear_arith)
            requires
                y - 1 == d * q + r,
                r + 1 == d,
        ;
        lemma_fundamental_div_mod_converse(y, d, q + 1, 0);
    } else {
        assert(y == q * d + (r + 1)) by (nonlinear_arith)
            requires
                y - 1 == d * q + r,
        ;
        lemma_fundamental_div_mod_converse(y, d, q, r + 1);
    }
}

/// Moving from year `y` to year `y + 1` adds one leap day exactly when
/// `y` is a leap year.
proof fn lemma_leap_count_step(y: int)
    requires
        y >= 0,
    ensures
        spec_leap_count(y + 1) == spec_leap_count(y) + if spec_is_leap_year(y) {
            1int
        } else {
            0int
        },
{
    if y == 0 {
        assert(spec_is_leap_year(0));
    } else {
        lemma_div_step(y, 4);
        lemma_div_step(y, 100);
        lemma_div_step(y, 400);
        if y % 400 == 0 {
            assert(y % 4 == 0 && y % 100 == 0) by {
                lemma_fundamental_div_mod(y, 400);
                lemma_fundamental_div_mod_converse(y, 4, 100 * (y / 400), 0);
                lemma_fundamental_div_mod_converse(y, 100, 4 * (y / 400), 0);
            }
        }
        if y % 100 == 0 {
            assert(y % 4 == 0) by {
                lemma_fundamental_div_mod(y, 100);
                lemma_fundamental_div_mod_converse(y, 4, 25 * (y / 100), 0);
            }
        }
    }
}

/// A year holds 365 days, or 366 in a leap year.
proof fn lemma_year_length(y: int)
    requires
        y >= 0,
    ensures
        spec_days_before_year(y + 1) - spec_days_before_year(y) == if spec_is_leap_year(y) {
            366int
        } else {
            365int
        },
{
    lemma_leap_count_step(y);
}

/// The months of a year sum to the year's length.
proof fn lemma_months_sum(y: int)
    requires
        y >= 0,
    ensures
        spec_days_before_month(y, 13) == if spec_is_leap_year(y) {
            366int
        } else {
            365int
        },
{
    reveal_with_fuel(spec_days_before_month, 13);
}

/// The day number is bounded by the number of the last representable
/// date, 9999-12-31.
pub proof fn lemma_day_number_bounds(d: Date)
    requires
        spec_valid_date(d),
    ensures
        0 <= spec_day_number(d) <= 3652431,
{
    assert(spec_leap_count(d.year as int) >= 0) by {
        if d.year >= 1 {
            let n = d.year as int - 1;
            lemma_div_is_ordered_by_denominator(n, 4, 100);
        }
    }
    assert(spec_days_before_month(d.year as int, d.month as int) >= 0) by {
        lemma_days_before_month_bounds(d.year as int, d.month as int);
    }
    assert(spec_day_number(d) >= 0);
    let y = d.year as int;
    assert(spec_leap_count(y) <= 2425) by {
        if y >= 1 {
            let n = y - 1;
            assert(n / 4 <= 9998int / 4) by {
                vstd::arithmetic::div_mod::lemma_div_is_ordered(n, 9998, 4);
            }
            assert(n / 400 <= 9998int / 400) by {
                vstd::arithmetic::div_mod::lemma_div_is_ordered(n, 9998, 400);
            }
            assert(n / 100 >= 0) by {
                vstd::arithmetic::div_mod::lemma_div_pos_is_pos(n, 100);
            }
            assert(9998int / 4 == 2499);
            assert(9998int / 400 == 24);
        }
    }
    assert(spec_days_before_month(y, d.month as int) <= 341) by {
        lemma_days_before_month_bounds(y, d.month as int);
    }
    assert(365 * y <= 365 * 9999);
}

proof fn lemma_days_before_month_bounds(y: int, m: int)
    requires
        1 <= m <= 13,
    ensures
        0 <= spec_days_before_month(y, m) <= 31 * (m - 1),
    decreases m,
{
    if m > 1 {
        lemma_days_before_month_bounds(y, m - 1);
    }
}

impl Date {
    /// Builds a date from raw components, accepting exactly the valid
    /// calendar dates of years 0 through 9999.
    pub fn from_ymd(year: i32, month: u32, day: u32) -> (r: Option<Date>)
        ensures
            match r {
                Some(d) => {
                    &&& spec_valid_date(d)
                    &&& d.year == year
                    &&& d.month == month
                    &&& d.day == day
                },
                None => !(exists|d: Date|
                    spec_valid_date(d) && d.year == year && d.month == month && d.day == day),
            },
    {
        if 0 <= year && year <= 9999 && 1 <= month && month <= 12 {
            let dim = days_in_month(year, month as u8);
            if 1 <= day && day <= dim as u32 {
                Some(Date { year, month: month as u8, day: day as u8 })
            } else {
                None
            }
        } else {
            None
        }
    }

    /// The rank of this date among all calendar days, counted from
    /// 0000-01-01.
    pub fn day_number(&self) -> (n: u64)
        requires
            spec_valid_date(*self),
        ensures
            n == spec_day_number(*self),
            n <= 3652431,
    {
        proof {
            lemma_day_number_bounds(*self);
        }
        let y = self.year as u64;
        let leaps: u64 = if y == 0 {
            0
        } else {
            proof {
                lemma_div_is_ordered_by_denominator((y - 1) as int, 4, 100);
            }
            1 + (y - 1) / 4 + (y - 1) / 400 - (y - 1) / 100
        };
        let mut before_month: u64 = 0;
        let mut m: u8 = 1;
        while m < self.month
            invariant
                1 <= m <= self.month,
                spec_valid_date(*self),
                before_month == spec_days_before_month(self.year as int, m as int),
                before_month <= 341,
            decreases self.month - m,
        {
            proof {
                lemma_days_before_month_bounds(self.year as int, (m + 1) as int);
            }
            before_month = before_month + days_in_month(self.year, m) as u64;
            m = m + 1;
        }
        365 * y + leaps + before_month + (self.day - 1) as u64
    }
}

/// Whether year `y` is a leap year.
pub fn is_leap_year(y: i32) -> (r: bool)
    requires
        y >= 0,
    ensures
        r == spec_is_leap_year(y as int),
{
    let yu = y as u64;
    (yu % 4 == 0 && yu % 100 != 0) || yu % 400 == 0
}

/// The number of days in month `m` of year `y`.
pub fn days_in_month(y: i32, m: u8) -> (r: u8)
    requires
        y >= 0,
    ensures
        r == spec_days_in_month(y as int, m as int),
{
    if m == 2 {
        if is_leap_year(y) {
            29
        } else {
            28
        }
    } else if m == 4 || m == 6 || m == 9 || m == 11 {
        30
    } else {
        31
    }
}

/// The day number of 9999-12-31, the last representable date.
pub open spec fn spec_max_day_number() -> int {
    3652424
}

/// No valid date ranks above `spec_max_day_number()`.
pub proof fn lemma_day_number_max(d: Date)
    requires
        spec_valid_date(d),
    ensures
        0 <= spec_day_number(d) <= spec_max_day_number(),
{
    lemma_day_number_bounds(d);
    let y = d.year as int;
    let m = d.month as int;
    assert(spec_day_number(d) <= spec_days_before_year(y) + spec_days_before_month(y, m + 1) - 1);
    lemma_days_before_month_monotone(y, m + 1, 13);
    lemma_months_sum(y);
    lemma_year_length(y);
    assert(spec_day_number(d) <= spec_days_before_year(y + 1) - 1);
    lemma_days_before_year_monotone(y + 1, 10000);
    assert(spec_leap_count(10000) == 1 + 9999int / 4 - 9999int / 100 + 9999int / 400);
    assert(spec_days_before_year(10000) == 3652425);
}

proof fn lemma_days_before_month_monotone(y: int, a: int, b: int)
    requires
        1 <= a <= b,
    ensures
        spec_days_before_month(y, a) <= spec_days_before_month(y, b),
    decreases b - a,
{
    if a < b {
        lemma_days_before_month_monotone(y, a, b - 1);
    }
}

proof fn lemma_days_before_year_monotone(a: int, b: int)
    requires
        0 <= a <= b,
    ensures
        spec_days_before_year(a) <= spec_days_before_year(b),
    decreases b - a,
{
    if a < b {
        lemma_days_before_year_monotone(a, b - 1);
        lemma_year_length(b - 1);
    }
}

pub open spec fn spec_is_ascii_digit(b: u8) -> bool {
    48 <= b <= 57
}

/// The ten bytes of the `YYYY-MM-DD` rendering of a date.
pub open spec fn spec_date_str(d: Date) -> Seq<u8> {
    let y = d.year as int;
    let m = d.month as int;
    let dd = d.day as int;
    seq![
        (48 + y / 1000) as u8,
        (48 + (y / 100) % 10) as u8,
        (48 + (y / 10) % 10) as u8,
        (48 + y % 10) as u8,
        45u8,
        (48 + m / 10) as u8,
        (48 + m % 10) as u8,
        45u8,
        (48 + dd / 10) as u8,
        (48 + dd % 10) as u8,
    ]
}

/// Whether ten bytes have the `YYYY-MM-DD` shape: digits in the date
/// positions and `-` separators.
pub open spec fn spec_date_shape(s: Seq<u8>) -> bool {
    &&& s.len() == 10
    &&& spec_is_ascii_digit(s[0])
    &&& spec_is_ascii_digit(s[1])
    &&& spec_is_ascii_digit(s[2])
    &&& spec_is_ascii_digit(s[3])
    &&& s[4] == 45
    &&& spec_is_ascii_digit(s[5])
    &&& spec_is_ascii_digit(s[6])
    &&& s[7] == 45
    &&& spec_is_ascii_digit(s[8])
    &&& spec_is_ascii_digit(s[9])
}

/// The date whose digits stand in a `YYYY-MM-DD`-shaped byte run.
pub open spec fn spec_shape_date(s: Seq<u8>) -> Date
    recommends
        spec_date_shape(s),
{
    Date {
        year: (1000 * (s[0] - 48) + 100 * (s[1] - 48) + 10 * (s[2] - 48) + (s[3] - 48)) as i32,
        month: (10 * (s[5] - 48) + (s[6] - 48)) as u8,
        day: (10 * (s[8] - 48) + (s[9] - 48)) as u8,
    }
}

/// What parsing ten bytes as `YYYY-MM-DD` yields: the written date if
/// the shape fits and the date is a real calendar date, nothing
/// otherwise.
pub open spec fn spec_parse_date(s: Seq<u8>) -> Option<Date> {
    if spec_date_shape(s) && spec_valid_date(spec_shape_date(s)) {
        Some(spec_shape_date(s))
    } else {
        None
    }
}

impl Date {
    /// Renders this date as the ten bytes `YYYY-MM-DD`.
    pub fn date_string(&self) -> (r: Vec<u8>)
        requires
            spec_valid_date(*self),
        ensures
            r@ == spec_date_str(*self),
    {
        let y = self.year as u32;
        let m = self.month as u32;
        let dd = self.day as u32;
        let mut v: Vec<u8> = Vec::new();
        v.push((48 + y / 1000) as u8);
        v.push((48 + (y / 100) % 10) as u8);
        v.push((48 + (y / 10) % 10) as u8);
        v.push((48 + y % 10) as u8);
        v.push(45);
        v.push((48 + m / 10) as u8);
        v.push((48 + m % 10) as u8);
        v.push(45);
        v.push((48 + dd / 10) as u8);
        v.push((48 + dd % 10) as u8);
        proof {
            assert(v@ =~= spec_date_str(*self));
        }
        v
    }
}

/// Parses the ten bytes at `s[off..off + 10]` as a `YYYY-MM-DD` date.
fn parse_date_bytes(s: &[u8], off: usize) -> (r: Option<Date>)
    requires
        off + 10 <= s@.len(),
    ensures
        r == spec_parse_date(s@.subrange(off as int, off as int + 10)),
{
    let ghost t = s@.subrange(off as int, off as int + 10);
    let d0 = s[off];
    let d1 = s[off + 1];
    let d2 = s[off + 2];
    let d3 = s[off + 3];
    let sep0 = s[off + 4];
    let d5 = s[off + 5];
    let d6 = s[off + 6];
    let sep1 = s[off + 7];
    let d8 = s[off + 8];
    let d9 = s[off + 9];
    if !(is_ascii_digit(d0) && is_ascii_digit(d1) && is_ascii_digit(d2) && is_ascii_digit(d3)
        && sep0 == 45 && is_ascii_digit(d5) && is_ascii_digit(d6) && sep1 == 45
        && is_ascii_digit(d8) && is_ascii_digit(d9)) {
        assert(!spec_date_shape(t));
        return None;
    }
    assert(spec_date_shape(t));
    let year: u32 = 1000 * (d0 - 48) as u32 + 100 * (d1 - 48) as u32 + 10 * (d2 - 48) as u32 + (d3
        - 48) as u32;
    let month: u8 = 10 * (d5 - 48) + (d6 - 48);
    let day: u8 = 10 * (d8 - 48) + (d9 - 48);
    let candidate = Date { year: year as i32, month, day };
    assert(candidate == spec_shape_date(t));
    if 1 <= month && month <= 12 && 1 <= day && day <= days_in_month(year as i32, month) {
        Some(candidate)
    } else {
        None
    }
}

fn is_ascii_digit(b: u8) -> (r: bool)
    ensures
        r == spec_is_ascii_digit(b),
{
    48 <= b && b <= 57
}

/// Whether `date=YYYY-MM-DD` stands in `s` at position `i`, with the
/// date part only required to have the digit shape.
pub open spec fn spec_date_match_at(s: Seq<u8>, i: int) -> bool {
    &&& 0 <= i
    &&& i + 15 <= s.len()
    &&& s[i] == 'd' as u8
    &&& s[i + 1] == 'a' as u8
    &&& s[i + 2] == 't' as u8
    &&& s[i + 3] == 'e' as u8
    &&& s[i + 4] == '=' as u8
    &&& spec_date_shape(s.subrange(i + 5, i + 15))
}

/// The first position in `s`, at or after `i`, where a `date=` marker
/// followed by a date-shaped run stands.
pub open spec fn spec_find_date(s: Seq<u8>, i: int) -> Option<int>
    recommends
        0 <= i,
    decreases s.len() - i,
{
    if i + 15 > s.len() {
        None
    } else if spec_date_match_at(s, i) {
        Some(i)
    } else {
        spec_find_date(s, i + 1)
    }
}

/// How a date expression resolves against `today`: the first embedded
/// `date=YYYY-MM-DD` whose digits name a real calendar date wins;
/// everything else — no marker, a malformed marker, or an impossible
/// date — falls back to `today`. Resolution is total and never fails.
pub open spec fn spec_resolve_date(s: Seq<u8>, today: Date) -> Date {
    match spec_find_date(s, 0) {
        Some(i) => match spec_parse_date(s.subrange(i + 5, i + 15)) {
            Some(d) => d,
            None => today,
        },
        None => today,
    }
}

/// A malformed date expression — one without an embedded
/// `date=YYYY-MM-DD` marker, or whose first marker names an impossible
/// date — resolves to `today` itself, and so to a day-offset of zero.
pub proof fn lemma_malformed_resolves_to_today(s: Seq<u8>, today: Date)
    requires
        match spec_find_date(s, 0) {
            Some(i) => spec_parse_date(s.subrange(i + 5, i + 15)) is None,
            None => true,
        },
    ensures
        spec_resolve_date(s, today) == today,
{
}

/// Formatting and parsing are inverse: the ten bytes a valid date
/// writes read back as exactly that date.
pub proof fn lemma_date_str_roundtrip(d: Date)
    requires
        spec_valid_date(d),
    ensures
        spec_parse_date(spec_date_str(d)) == Some(d),
{
    let s = spec_date_str(d);
    let y = d.year as int;
    let mo = d.month as int;
    let dd = d.day as int;
    lemma_fundamental_div_mod(y, 10);
    lemma_fundamental_div_mod(y / 10, 10);
    lemma_fundamental_div_mod(y / 100, 10);
    vstd::arithmetic::div_mod::lemma_div_denominator(y, 10, 10);
    vstd::arithmetic::div_mod::lemma_div_denominator(y, 100, 10);
    vstd::arithmetic::div_mod::lemma_div_is_ordered(y, 9999, 1000);
    assert(9999int / 1000 == 9);
    vstd::arithmetic::div_mod::lemma_div_pos_is_pos(y, 1000);
    vstd::arithmetic::div_mod::lemma_mod_bound(y, 10);
    vstd::arithmetic::div_mod::lemma_mod_bound(y / 10, 10);
    vstd::arithmetic::div_mod::lemma_mod_bound(y / 100, 10);
    vstd::arithmetic::div_mod::lemma_div_pos_is_pos(y / 10, 10);
    vstd::arithmetic::div_mod::lemma_div_pos_is_pos(y / 100, 10);
    lemma_fundamental_div_mod(mo, 10);
    vstd::arithmetic::div_mod::lemma_mod_bound(mo, 10);
    vstd::arithmetic::div_mod::lemma_div_is_ordered(mo, 12, 10);
    vstd::arithmetic::div_mod::lemma_div_pos_is_pos(mo, 10);
    lemma_fundamental_div_mod(dd, 10);
    vstd::arithmetic::div_mod::lemma_mod_bound(dd, 10);
    vstd::arithmetic::div_mod::lemma_div_is_ordered(dd, 31, 10);
    vstd::arithmetic::div_mod::lemma_div_pos_is_pos(dd, 10);
    assert(spec_date_shape(s));
    assert(spec_shape_date(s) == d);
}

/// A resolved date expression: the concrete calendar date it names and
/// its signed distance in days from the `today` it was resolved
/// against, fixed once at resolution time.
pub struct DateOption {
    pub date: Date,
    pub days_from_now: i64,
}

impl DateOption {
    /// Resolves a date expression against an injected `today`.
    pub fn new(date_str: &[u8], today: Date) -> (r: DateOption)
        requires
            spec_valid_date(today),
        ensures
            r.date == spec_resolve_date(date_str@, today),
            spec_valid_date(r.date),
            r.days_from_now == spec_day_number(r.date) - spec_day_number(today),
            spec_find_date(date_str@, 0) is None ==> r.date == today && r.days_from_now == 0,
    {
        let ghost s = date_str@;
        let n = date_str.len();
        let mut resolved: Date = today;
        if n >= 15 {
            let mut i: usize = 0;
            let mut scanning = true;
            while scanning && i <= n - 15
                invariant
                    s == date_str@,
                    n == s.len(),
                    n >= 15,
                    0 <= i <= n,
                    spec_valid_date(today),
                    scanning ==> spec_find_date(s, 0) == spec_find_date(s, i as int),
                    scanning ==> resolved == today,
                    !scanning ==> match spec_find_date(s, 0) {
                        Some(j) => resolved == match spec_parse_date(
                            s.subrange(j + 5, j + 15),
                        ) {
                            Some(d) => d,
                            None => today,
                        },
                        None => false,
                    },
                    !scanning ==> spec_valid_date(resolved),
                decreases n - i, if scanning {
                    1int
                } else {
                    0int
                },
            {
                let hit = date_str[i] == 'd' as u8 && date_str[i + 1] == 'a' as u8 && date_str[i
                    + 2] == 't' as u8 && date_str[i + 3] == 'e' as u8 && date_str[i + 4]
                    == '=' as u8;
                if hit {
                    match parse_date_bytes(date_str, i + 5) {
                        Some(d) => {
                            assert(spec_date_shape(s.subrange(i + 5, i + 15)));
                            assert(spec_date_match_at(s, i as int));
                            assert(spec_find_date(s, i as int) == Some(i as int));
                            resolved = d;
                            scanning = false;
                        },
                        None => {
                            // A shapeless run is no match and the scan walks
                            // on; a shaped but impossible date ends it with
                            // the fallback.
                            let shaped = is_ascii_digit(date_str[i + 5]) && is_ascii_digit(
                                date_str[i + 6],
                            ) && is_ascii_digit(date_str[i + 7]) && is_ascii_digit(
                                date_str[i + 8],
                            ) && date_str[i + 9] == 45 && is_ascii_digit(date_str[i + 10])
                                && is_ascii_digit(date_str[i + 11]) && date_str[i + 12] == 45
                                && is_ascii_digit(date_str[i + 13]) && is_ascii_digit(
                                date_str[i + 14],
                            );
                            if shaped {
                                assert(spec_date_shape(s.subrange(i + 5, i + 15)));
                                assert(spec_date_match_at(s, i as int));
                                assert(spec_find_date(s, i as int) == Some(i as int));
                                resolved = today;
                                scanning = false;
                            } else {
                                assert(!spec_date_shape(s.subrange(i + 5, i + 15)));
                                assert(!spec_date_match_at(s, i as int));
                                i = i + 1;
                            }
                        },
                    }
                } else {
                    assert(!spec_date_match_at(s, i as int));
                    i = i + 1;
                }
            }
            if scanning {
                assert(spec_find_date(s, i as int) is None);
            }
        } else {
            assert(spec_find_date(s, 0) is None);
        }
        let dn = resolved.day_number();
        let tn = today.day_number();
        DateOption { date: resolved, days_from_now: dn as i64 - tn as i64 }
    }

    /// Renders the resolved date as the ten bytes `YYYY-MM-DD`.
    pub fn to_string(&self) -> (r: Vec<u8>)
        requires
            spec_valid_date(self.date),
        ensures
            r@ == spec_date_str(self.date),
    {
        self.date.date_string()
    }
}

/// The number of days in year `y`.
pub fn year_length(y: i32) -> (r: u64)
    requires
        y >= 0,
    ensures
        r == if spec_is_leap_year(y as int) {
            366int
        } else {
            365int
        },
{
    if is_leap_year(y) {
        366
    } else {
        365
    }
}

/// Recovers the calendar date with a given day number. `None` exactly
/// when the number lies beyond the last representable date.
pub fn date_from_day_number(n: u64) -> (r: Option<Date>)
    ensures
        match r {
            Some(d) => spec_valid_date(d) && spec_day_number(d) == n,
            None => n > spec_max_day_number(),
        },
{
    let mut y: u64 = 0;
    let mut rem: u64 = n;
    while y < 9999 && rem >= year_length(y as i32)
        invariant
            0 <= y <= 9999,
            rem <= n,
            n == spec_days_before_year(y as int) + rem,
        decreases 9999 - y,
    {
        let yl: u64 = year_length(y as i32);
        proof {
            lemma_year_length(y as int);
        }
        rem = rem - yl;
        y = y + 1;
    }
    let year_len: u64 = year_length(y as i32);
    if rem >= year_len {
        // Only reachable with y == 9999, so n ranks past 9999-12-31.
        proof {
            assert(!spec_is_leap_year(9999));
            lemma_year_length(9999);
            assert(n >= spec_days_before_year(10000));
            assert(spec_leap_count(10000) == 1 + 9999int / 4 - 9999int / 100 + 9999int / 400);
            assert(spec_days_before_year(10000) == 3652425);
        }
        return None;
    }
    proof {
        lemma_months_sum(y as int);
        lemma_year_length(y as int);
    }
    let mut m: u8 = 1;
    while m < 12 && rem >= days_in_month(y as i32, m) as u64
        invariant
            0 <= y <= 9999,
            1 <= m <= 12,
            n == spec_days_before_year(y as int) + spec_days_before_month(y as int, m as int)
                + rem,
            spec_days_before_month(y as int, m as int) + rem < spec_days_before_month(
                y as int,
                13,
            ),
        decreases 12 - m,
    {
        let dim = days_in_month(y as i32, m) as u64;
        proof {
            lemma_days_before_month_monotone(y as int, (m + 1) as int, 13);
        }
        rem = rem - dim;
        m = m + 1;
    }
    proof {
        if m == 12 {
            assert(spec_days_before_month(y as int, 13) == spec_days_before_month(y as int, 12)
                + spec_days_in_month(y as int, 12));
        }
    }
    let day: u8 = (rem + 1) as u8;
    Some(Date { year: y as i32, month: m, day })
}

/// A date's day number lies within its year's span of the calendar.
proof fn lemma_day_number_year_range(d: Date)
    requires
        spec_valid_date(d),
    ensures
        spec_days_before_year(d.year as int) <= spec_day_number(d) < spec_days_before_year(
            d.year as int + 1,
        ),
{
    let y = d.year as int;
    let m = d.month as int;
    lemma_days_before_month_bounds(y, m);
    assert(spec_day_number(d) < spec_days_before_year(y) + spec_days_before_month(y, m + 1));
    lemma_days_before_month_monotone(y, m + 1, 13);
    lemma_months_sum(y);
    lemma_year_length(y);
}

/// Two different valid dates never share a day number: the day number
/// names its date uniquely.
pub proof fn lemma_day_number_injective(a: Date, b: Date)
    requires
        spec_valid_date(a),
        spec_valid_date(b),
        spec_day_number(a) == spec_day_number(b),
    ensures
        a == b,
{
    lemma_day_number_year_range(a);
    lemma_day_number_year_range(b);
    if a.year < b.year {
        lemma_days_before_year_monotone(a.year as int + 1, b.year as int);
        assert(false);
    }
    if b.year < a.year {
        lemma_days_before_year_monotone(b.year as int + 1, a.year as int);
        assert(false);
    }
    let y = a.year as int;
    let within_a = spec_day_number(a) - spec_days_before_year(y);
    let within_b = spec_day_number(b) - spec_days_before_year(y);
    if a.month < b.month {
        assert(within_a < spec_days_before_month(y, a.month as int + 1));
        lemma_days_before_month_monotone(y, a.month as int + 1, b.month as int);
        assert(false);
    }
    if b.month < a.month {
        assert(within_b < spec_days_before_month(y, b.month as int + 1));
        lemma_days_before_month_monotone(y, b.month as int + 1, a.month as int);
        assert(false);
    }
}

/// The date that carries a given day number; meaningful for numbers
/// up to `spec_max_day_number()`, where such a date exists and
/// `lemma_day_number_injective` makes it unique.
pub open spec fn spec_date_of_day(n: int) -> Date {
    choose|d: Date| spec_valid_date(d) && spec_day_number(d) == n
}

/// Seconds from 0000-01-01T00:00:00 to the Unix epoch; `719528 * 86400`.
pub open spec fn spec_epoch_shift() -> int {
    62167219200
}

/// The calendar day, as a day number, in which a Unix timestamp falls
/// under UTC-at-midnight semantics.
pub open spec fn spec_timestamp_day(ts: int) -> int {
    (ts + spec_epoch_shift()) / 86400
}

/// Converts a Unix timestamp to the UTC calendar date it falls in.
/// `None` exactly when that date lies outside years 0 through 9999.
pub fn date_from_timestamp(ts: i64) -> (r: Option<Date>)
    ensures
        match r {
            Some(d) => spec_valid_date(d) && spec_day_number(d) == spec_timestamp_day(ts as int),
            None => spec_timestamp_day(ts as int) < 0 || spec_timestamp_day(ts as int) > spec_max_day_number(),
        },
{
    if ts < -62167219200i64 {
        proof {
            lemma_fundamental_div_mod(ts as int + spec_epoch_shift(), 86400);
            vstd::arithmetic::div_mod::lemma_mod_bound(ts as int + spec_epoch_shift(), 86400);
        }
        return None;
    }
    if ts >= 253402300800i64 {
        proof {
            vstd::arithmetic::div_mod::lemma_div_is_ordered(
                253402300800 + spec_epoch_shift(),
                ts as int + spec_epoch_shift(),
                86400,
            );
        }
        return None;
    }
    let shifted: u64 = (ts + 62167219200i64) as u64;
    let day = shifted / 86400;
    date_from_day_number(day)
}

/// The calendar day that follows `d`.
pub open spec fn spec_next_date(d: Date) -> Date {
    if d.day < spec_days_in_month(d.year as int, d.month as int) {
        Date { year: d.year, month: d.month, day: (d.day + 1) as u8 }
    } else if d.month < 12 {
        Date { year: d.year, month: (d.month + 1) as u8, day: 1 }
    } else {
        Date { year: (d.year + 1) as i32, month: 1, day: 1 }
    }
}

/// Day numbers count calendar days: stepping to the next calendar day
/// raises the day number by exactly one. This is what makes a
/// difference of day numbers the exact calendar-day distance between
/// two dates.
pub proof fn lemma_day_number_succ(d: Date)
    requires
        spec_valid_date(d),
        spec_day_number(d) < spec_max_day_number(),
    ensures
        spec_valid_date(spec_next_date(d)),
        spec_day_number(spec_next_date(d)) == spec_day_number(d) + 1,
{
    let y = d.year as int;
    let m = d.month as int;
    if d.day < spec_days_in_month(y, m) {
    } else if d.month < 12 {
        assert(spec_days_before_month(y, m + 1) == spec_days_before_month(y, m)
            + spec_days_in_month(y, m));
    } else {
        // Rolling over a year end: the months of year y sum to the
        // year's length, which is the step between consecutive
        // days-before-year values.
        lemma_months_sum(y);
        lemma_year_length(y);
        if y == 9999 {
            lemma_day_number_max(d);
            assert(spec_day_number(d) == spec_max_day_number());
        }
        assert(y < 9999);
    }
}

} // verus!
