//! Calendar dates of the proleptic Gregorian calendar, the day count that
//! orders them, and the Julian day number used by the astronomical code.

use vstd::prelude::*;
use chrono::Datelike;

verus! {

/// The earliest year that a calendar date of this library can carry.
pub const MIN_YEAR: i32 = -262143;

/// The latest year that a calendar date of this library can carry.
pub const MAX_YEAR: i32 = 262142;

/// A day of the proleptic Gregorian calendar, held as plain numbers.
#[derive(Clone, Copy, Debug, PartialEq, Eq, Structural)]
pub struct CivilDate {
    pub year: i32,
    pub month: u32,
    pub day: u32,
}

pub open spec fn is_leap_year(y: int) -> bool {
    (y % 4 == 0 && y % 100 != 0) || y % 400 == 0
}

pub open spec fn days_in_month(y: int, m: int) -> int {
    if m == 2 {
        if is_leap_year(y) { 29 } else { 28 }
    } else if m == 4 || m == 6 || m == 9 || m == 11 {
        30
    } else {
        31
    }
}

/// Whether `(y, m, d)` names a day that exists, within the supported years.
pub open spec fn valid_ymd(y: int, m: int, d: int) -> bool {
    &&& MIN_YEAR <= y <= MAX_YEAR
    &&& 1 <= m <= 12
    &&& 1 <= d <= days_in_month(y, m)
}

/// Number of days from 1970-01-01 to the given day (negative before it).
pub open spec fn day_number(y: int, m: int, d: int) -> int {
    let yy = if m <= 2 { y - 1 } else { y };
    let mp = if m <= 2 { m + 9 } else { m - 3 };
    365 * yy + yy / 4 - yy / 100 + yy / 400 + (153 * mp + 2) / 5 + d - 719469
}

/// The Julian day number of 1970-01-01.
pub open spec fn unix_epoch_jdn() -> int {
    2440588
}

/// Day numbers of the first and the last supported day.
pub open spec fn first_day_number() -> int {
    day_number(MIN_YEAR as int, 1, 1)
}

pub open spec fn last_day_number() -> int {
    day_number(MAX_YEAR as int, 12, 31)
}

pub open spec fn day_number_in_range(n: int) -> bool {
    first_day_number() <= n <= last_day_number()
}

impl CivilDate {
    pub open spec fn valid(self) -> bool {
        valid_ymd(self.year as int, self.month as int, self.day as int)
    }

    pub open spec fn days(self) -> int {
        day_number(self.year as int, self.month as int, self.day as int)
    }

    /// Lexicographic order of (year, month, day).
    pub open spec fn le(self, other: CivilDate) -> bool {
        ||| self.year < other.year
        ||| (self.year == other.year && self.month < other.month)
        ||| (self.year == other.year && self.month == other.month && self.day <= other.day)
    }

    /// Makes a date from year, month and day; `None` where no such day exists
    /// in the supported years.
    pub fn from_ymd_opt(year: i32, month: u32, day: u32) -> (r: Option<CivilDate>)
        ensures
            r is Some <==> valid_ymd(year as int, month as int, day as int),
            r matches Some(c) ==> c == (CivilDate { year, month, day }),
    {
        checked_date(year, month, day)
    }

    /// Whether `self` names a day that exists, within the supported years.
    pub fn is_valid(&self) -> (r: bool)
        ensures
            r == self.valid(),
    {
        checked_date(self.year, self.month, self.day).is_some()
    }

    /// Whether `self` comes on or before `other`.
    pub fn is_on_or_before(&self, other: &CivilDate) -> (r: bool)
        ensures
            r == self.le(*other),
    {
        if self.year != other.year {
            self.year < other.year
        } else if self.month != other.month {
            self.month < other.month
        } else {
            self.day <= other.day
        }
    }
}

/// `chrono::NaiveDate::from_ymd_opt`: the date exists (within chrono's years)
/// exactly when the month is 1..=12 and the day lies within that month of the
/// Gregorian calendar; the returned date carries the given numbers.
#[verifier::external_body]
fn checked_date(year: i32, month: u32, day: u32) -> (r: Option<CivilDate>)
    ensures
        r is Some <==> valid_ymd(year as int, month as int, day as int),
        r matches Some(c) ==> c == (CivilDate { year, month, day }),
{
    match chrono::NaiveDate::from_ymd_opt(year, month, day) {
        Some(nd) => Some(CivilDate { year: nd.year(), month: nd.month(), day: nd.day() }),
        None => None,
    }
}

/// `chrono::NaiveDate::checked_add_signed` with `TimeDelta::days(n)`: the
/// result is the day `n` days later (earlier for negative `n`), and `None`
/// exactly when that day lies outside chrono's years.
#[verifier::external_body]
fn checked_shift(date: CivilDate, n: i64) -> (r: Option<CivilDate>)
    requires
        date.valid(),
        -1_000_000_000 <= n <= 1_000_000_000,
    ensures
        r is Some <==> day_number_in_range(date.days() + n),
        r matches Some(c) ==> c.valid() && c.days() == date.days() + n,
{
    let nd = match chrono::NaiveDate::from_ymd_opt(date.year, date.month, date.day) {
        Some(nd) => nd,
        None => return None,
    };
    match nd.checked_add_signed(chrono::TimeDelta::days(n)) {
        Some(r) => Some(CivilDate { year: r.year(), month: r.month(), day: r.day() }),
        None => None,
    }
}

/// `chrono::NaiveDate::signed_duration_since(..).num_days()`: the number of
/// days from `earlier` to `later`.
#[verifier::external_body]
fn days_since(later: CivilDate, earlier: CivilDate) -> (r: i64)
    requires
        later.valid(),
        earlier.valid(),
    ensures
        r == later.days() - earlier.days(),
{
    let a = chrono::NaiveDate::from_ymd_opt(later.year, later.month, later.day).unwrap();
    let b = chrono::NaiveDate::from_ymd_opt(earlier.year, earlier.month, earlier.day).unwrap();
    a.signed_duration_since(b).num_days()
}

/// The day `n` days after `date` (before it, for negative `n`).
pub fn shift_days(date: CivilDate, n: i64) -> (r: CivilDate)
    requires
        date.valid(),
        -1_000_000_000 <= n <= 1_000_000_000,
        day_number_in_range(date.days() + n),
    ensures
        r.valid(),
        r.days() == date.days() + n,
{
    match checked_shift(date, n) {
        Some(r) => r,
        None => date,
    }
}

/// The number of days from `earlier` to `later`.
pub fn days_between(later: CivilDate, earlier: CivilDate) -> (r: i64)
    requires
        later.valid(),
        earlier.valid(),
    ensures
        r == later.days() - earlier.days(),
{
    days_since(later, earlier)
}

/// Whether the day `offset` days from `date` lies within the supported years.
pub fn offset_in_range(date: CivilDate, offset: i64) -> (r: bool)
    requires
        date.valid(),
        -1_000_000_000 <= offset <= 1_000_000_000,
    ensures
        r == day_number_in_range(date.days() + offset),
{
    let first = julian_day_number(CivilDate { year: MIN_YEAR, month: 1, day: 1 });
    let last = julian_day_number(CivilDate { year: MAX_YEAR, month: 12, day: 31 });
    let z = julian_day_number(date) + offset;
    first <= z && z <= last
}

/// `(x + k * d) / d == x / d + k` for a positive divisor.
proof fn lemma_div_shift(x: int, k: int, d: int)
    requires
        d > 0,
    ensures
        (x + k * d) / d == x / d + k,
{
    vstd::arithmetic::div_mod::lemma_fundamental_div_mod(x, d);
    assert(x + k * d == (x / d + k) * d + x % d) by (nonlinear_arith)
        requires
            x == d * (x / d) + x % d,
    ;
    vstd::arithmetic::div_mod::lemma_fundamental_div_mod_converse(x + k * d, d, x / d + k, x % d);
}

/// Meeus' month term `floor(30.6001 (M + 1))` is the March-based month
/// offset plus a constant 122.
proof fn lemma_month_term(m: int)
    requires
        3 <= m <= 14,
    ensures
        (306001 * (m + 1)) / 10000 == (153 * (m - 3) + 2) / 5 + 122,
{
    if m == 3 {} else if m == 4 {} else if m == 5 {} else if m == 6 {} else if m == 7 {}
    else if m == 8 {} else if m == 9 {} else if m == 10 {} else if m == 11 {}
    else if m == 12 {} else if m == 13 {} else {}
}

/// Century terms: `floor(floor(y / 100) / 4) == floor(y / 400)`.
proof fn lemma_century_terms(y: int)
    ensures
        (y / 100) / 4 == y / 400,
{
    let q = y / 400;
    let r = y % 400;
    vstd::arithmetic::div_mod::lemma_fundamental_div_mod(y, 400);
    assert(y == 100 * (4 * q + r / 100) + r % 100) by {
        vstd::arithmetic::div_mod::lemma_fundamental_div_mod(r, 100);
    }
    vstd::arithmetic::div_mod::lemma_fundamental_div_mod_converse(y, 100, 4 * q + r / 100, r % 100);
    vstd::arithmetic::div_mod::lemma_fundamental_div_mod_converse(4 * q + r / 100, 4, q, r / 100);
}

/// The Julian day number (the day count that starts at noon) of a date, by
/// Meeus' formula. The Julian date of the date's 0h UT is this number minus
/// one half.
pub fn julian_day_number(date: CivilDate) -> (r: i64)
    requires
        date.valid(),
    ensures
        r == date.days() + unix_epoch_jdn(),
{
    let (y, m): (i64, i64) = if date.month <= 2 {
        (date.year as i64 - 1, date.month as i64 + 12)
    } else {
        (date.year as i64, date.month as i64)
    };
    // Offsets by whole multiples of 400 years keep every division below on
    // non-negative numbers, where it agrees with the floor.
    let centuries: i64 = (y + 280000) / 100;
    let a: i64 = centuries - 2800;
    let b: i64 = 2 - a + centuries / 4 - 700;
    let yearly: i64 = 1461 * (y + 284716) / 4 - 102270000;
    let monthly: i64 = 306001 * (m + 1) / 10000;
    proof {
        lemma_div_shift(y as int, 2800, 100);
        lemma_div_shift(a as int, 700, 4);
        lemma_century_terms(y as int);
        lemma_div_shift(1461 * (y as int) + 6890076, 102270000, 4);
        assert(1461 * (y as int) + 6890076 == 4 * (365 * (y as int) + 1722519) + y);
        lemma_div_shift(y as int, 365 * (y as int) + 1722519, 4);
        lemma_month_term(m as int);
    }
    yearly + monthly + date.day as i64 + b - 1524
}

/// First Julian day number that Meeus' inverse reads as a Gregorian date
/// (1582-10-15); before it the Julian calendar is used.
pub open spec fn gregorian_reform_jdn() -> int {
    2299161
}

/// Meeus' calendar fields `(year, month, day)` for Julian day number `z`
/// (Astronomical Algorithms, ch. 7), evaluated exactly.
pub open spec fn meeus_fields(z: int) -> (int, int, int) {
    let a = if z < gregorian_reform_jdn() {
        z
    } else {
        let alpha = (4 * z - 7468865) / 146097;
        z + 1 + alpha - alpha / 4
    };
    let b = a + 1524;
    let c = (100 * b - 12210) / 36525;
    let d = (1461 * c) / 4;
    let e = (10000 * (b - d)) / 306001;
    let day = b - d - (306001 * e) / 10000;
    let month = if e < 14 { e - 1 } else { e - 13 };
    let year = if month > 2 { c - 4716 } else { c - 4715 };
    (year, month, day)
}

/// The date named for Julian day number `z`: Meeus' fields, with the day
/// lowered to 28 where that day does not exist in the month.
pub open spec fn date_of_jdn(z: int) -> CivilDate {
    let (y, m, d) = meeus_fields(z);
    if valid_ymd(y, m, d) {
        CivilDate { year: y as i32, month: m as u32, day: d as u32 }
    } else {
        CivilDate { year: y as i32, month: m as u32, day: if d < 28 { d as u32 } else { 28 } }
    }
}

/// Julian day numbers whose dates lie within the supported years.
pub open spec fn jdn_in_domain(z: int) -> bool {
    -94_000_000 <= z <= 97_000_000
}

/// The calendar date of Julian day number `z` (Meeus' inverse of the Julian
/// day number).
pub fn date_from_jdn(z: i64) -> (r: CivilDate)
    requires
        jdn_in_domain(z as int),
    ensures
        r == date_of_jdn(z as int),
        r.valid(),
        z >= gregorian_reform_jdn() ==> forall|c: CivilDate|
            c.valid() && c.days() + unix_epoch_jdn() == z ==> r == c,
        z >= gregorian_reform_jdn() ==> r.days() + unix_epoch_jdn() == z,
{
    proof {
        if z >= gregorian_reform_jdn() {
            assert(last_day_number() + unix_epoch_jdn() >= 97_000_000);
            law_day_numbers_name_dates(z - unix_epoch_jdn());
            law_date_from_jdn_inverts(date_at(z - unix_epoch_jdn()));
        }
        assert forall|c: CivilDate|
            z >= gregorian_reform_jdn() && c.valid() && c.days() + unix_epoch_jdn() == z implies date_of_jdn(z as int) == c by {
            law_date_from_jdn_inverts(c);
        }
    }
    let a: i64 = if z < 2299161 {
        z
    } else {
        let alpha: i64 = (4 * z - 7468865) / 146097;
        z + 1 + alpha - alpha / 4
    };
    let b: i64 = a + 1524;
    // Offsets by whole multiples keep the divisions on non-negative numbers.
    let c: i64 = (100 * b - 12210 + 10957500000) / 36525 - 300000;
    let d: i64 = 1461 * (c + 300000) / 4 - 109575000;
    let e: i64 = 10000 * (b - d) / 306001;
    let day: i64 = b - d - 306001 * e / 10000;
    let month: i64 = if e < 14 { e - 1 } else { e - 13 };
    let year: i64 = if month > 2 { c - 4716 } else { c - 4715 };
    proof {
        lemma_div_shift(100 * b - 12210, 300000, 36525);
        lemma_div_shift(1461 * c, 109575000, 4);
        assert(1461 * (c + 300000) == 1461 * c + 109575000 * 4);
        vstd::arithmetic::div_mod::lemma_fundamental_div_mod(100 * b - 12210, 36525);
        vstd::arithmetic::div_mod::lemma_fundamental_div_mod(1461 * c, 4);
        vstd::arithmetic::div_mod::lemma_fundamental_div_mod(10000 * (b - d), 306001);
        vstd::arithmetic::div_mod::lemma_fundamental_div_mod(306001 * e, 10000);
    }
    let first = checked_date(year as i32, month as u32, day as u32);
    match first {
        Some(r) => r,
        None => {
            let low_day: u32 = if day < 28 { day as u32 } else { 28 };
            match checked_date(year as i32, month as u32, low_day) {
                Some(r) => r,
                None => CivilDate { year: year as i32, month: month as u32, day: low_day },
            }
        },
    }
}

// ─── The day count orders the dates ─────────────────────────────

/// Days before the March-based year `yy` (from an arbitrary origin).
pub open spec fn year_base(yy: int) -> int {
    365 * yy + yy / 4 - yy / 100 + yy / 400
}

/// Days of a March-based year before its month `mp` (0 for March).
pub open spec fn month_base(mp: int) -> int {
    (153 * mp + 2) / 5
}

proof fn lemma_month_base_values(mp: int)
    requires
        0 <= mp <= 11,
    ensures
        month_base(mp) == (if mp == 0 { 0int } else if mp == 1 { 31 } else if mp == 2 { 61 }
        else if mp == 3 { 92 } else if mp == 4 { 122 } else if mp == 5 { 153 } else if mp == 6 {
            184
        } else if mp == 7 { 214 } else if mp == 8 { 245 } else if mp == 9 { 275 } else if mp
            == 10 { 306 } else { 337 }),
{
    if mp == 0 {} else if mp == 1 {} else if mp == 2 {} else if mp == 3 {} else if mp == 4 {}
    else if mp == 5 {} else if mp == 6 {} else if mp == 7 {} else if mp == 8 {}
    else if mp == 9 {} else if mp == 10 {} else {}
}

/// `(x + 1) / d` exceeds `x / d` by one exactly when `d` divides `x + 1`.
proof fn lemma_div_step(x: int, d: int)
    requires
        d > 0,
    ensures
        (x + 1) / d == x / d + (if (x + 1) % d == 0 { 1int } else { 0int }),
{
    vstd::arithmetic::div_mod::lemma_fundamental_div_mod(x, d);
    let q = x / d;
    let r = x % d;
    if r == d - 1 {
        assert(x + 1 == (q + 1) * d + 0) by (nonlinear_arith)
            requires
                x == d * q + r,
                r == d - 1,
        ;
        vstd::arithmetic::div_mod::lemma_fundamental_div_mod_converse(x + 1, d, q + 1, 0);
    } else {
        assert(x + 1 == q * d + (r + 1)) by (nonlinear_arith)
            requires
                x == d * q + r,
        ;
        vstd::arithmetic::div_mod::lemma_fundamental_div_mod_converse(x + 1, d, q, r + 1);
    }
}

/// A March-based year holds 366 days when its February is a leap February.
proof fn lemma_year_length(yy: int)
    ensures
        year_base(yy + 1) - year_base(yy) == 365 + (if is_leap_year(yy + 1) { 1int } else { 0int }),
{
    lemma_div_step(yy, 4);
    lemma_div_step(yy, 100);
    lemma_div_step(yy, 400);
    let x = yy + 1;
    vstd::arithmetic::div_mod::lemma_fundamental_div_mod(x, 400);
    vstd::arithmetic::div_mod::lemma_fundamental_div_mod(x, 100);
    vstd::arithmetic::div_mod::lemma_fundamental_div_mod(x, 4);
    // divisibility by 400 implies divisibility by 100, and by 100 implies by 4
    if x % 400 == 0 {
        assert(x == 100 * (4 * (x / 400)));
        vstd::arithmetic::div_mod::lemma_fundamental_div_mod_converse(x, 100, 4 * (x / 400), 0);
    }
    if x % 100 == 0 {
        assert(x == 4 * (25 * (x / 100)));
        vstd::arithmetic::div_mod::lemma_fundamental_div_mod_converse(x, 4, 25 * (x / 100), 0);
    }
}

/// Later March-based years start later, by at least 365 days a year.
proof fn lemma_year_base_grows(a: int, b: int)
    requires
        a <= b,
    ensures
        year_base(b) - year_base(a) >= 365 * (b - a),
    decreases b - a,
{
    if a < b {
        lemma_year_base_grows(a, b - 1);
        lemma_year_length(b - 1);
    }
}

/// March-based year and month of a date.
pub open spec fn march_year(y: int, m: int) -> int {
    if m <= 2 { y - 1 } else { y }
}

pub open spec fn march_month(m: int) -> int {
    if m <= 2 { m + 9 } else { m - 3 }
}

/// Of two valid dates, the earlier one has the smaller day count.
pub proof fn lemma_days_strictly_increasing(a: CivilDate, b: CivilDate)
    requires
        a.valid(),
        b.valid(),
        a.le(b),
        a != b,
    ensures
        a.days() < b.days(),
{
    let ya = march_year(a.year as int, a.month as int);
    let yb = march_year(b.year as int, b.month as int);
    let ma = march_month(a.month as int);
    let mb = march_month(b.month as int);
    lemma_month_base_values(ma);
    lemma_month_base_values(mb);
    assert(a.days() == year_base(ya) + month_base(ma) + a.day - 719469);
    assert(b.days() == year_base(yb) + month_base(mb) + b.day - 719469);
    if ya < yb {
        lemma_year_length(ya);
        lemma_year_base_grows(ya + 1, yb);
    }
}

/// Valid dates with the same day count are the same date.
pub proof fn lemma_days_injective(a: CivilDate, b: CivilDate)
    requires
        a.valid(),
        b.valid(),
        a.days() == b.days(),
    ensures
        a == b,
{
    if a != b {
        if a.le(b) {
            lemma_days_strictly_increasing(a, b);
        } else {
            lemma_days_strictly_increasing(b, a);
        }
    }
}


// ─── Law: the Julian day number and its inverse ──────────────────

/// Day `e` of Meeus' inverse is the month term's index: for a day `d` of
/// month `mm` (March-based months 3..=14), `floor(10000 x / 306001)` with
/// `x = floor(30.6001 (mm + 1)) + d` is `mm + 1`.
proof fn lemma_month_index_back(mm: int, d: int, feb_days: int)
    requires
        3 <= mm <= 14,
        1 <= d,
        feb_days <= 29,
        mm == 14 ==> d <= feb_days,
        (mm == 4 || mm == 6 || mm == 9 || mm == 11) ==> d <= 30,
        d <= 31,
    ensures
        (10000 * ((306001 * (mm + 1)) / 10000 + d)) / 306001 == mm + 1,
{
    let x = (306001 * (mm + 1)) / 10000 + d;
    let lo = 306001 * (mm + 1);
    assert(lo <= 10000 * x < lo + 306001) by {
        lemma_month_term(mm);
        if mm == 3 {} else if mm == 4 {} else if mm == 5 {} else if mm == 6 {} else if mm == 7 {}
        else if mm == 8 {} else if mm == 9 {} else if mm == 10 {} else if mm == 11 {}
        else if mm == 12 {} else if mm == 13 {} else {}
    }
    vstd::arithmetic::div_mod::lemma_fundamental_div_mod_converse(10000 * x, 306001, mm + 1, 10000 * x - lo);
}

/// Meeus' inverse of the Julian day number gives back the date, for every
/// day of the Gregorian calendar (from 1582-10-15 on).
pub proof fn law_date_from_jdn_inverts(date: CivilDate)
    requires
        date.valid(),
        date.days() + unix_epoch_jdn() >= gregorian_reform_jdn(),
    ensures
        date_of_jdn(date.days() + unix_epoch_jdn()) == date,
{
    let y = date.year as int;
    let m = date.month as int;
    let d = date.day as int;
    let yy = march_year(y, m);
    let mm = if m <= 2 { m + 12 } else { m };
    let mp = mm - 3;
    let z = date.days() + unix_epoch_jdn();
    assert(z == year_base(yy) + month_base(mp) + d + 1721119);
    lemma_month_base_values(mp);

    // Century and leap-year parts of the year.
    let a = yy / 100;
    let r = yy % 100;
    let q = a / 4;
    let s = a % 4;
    vstd::arithmetic::div_mod::lemma_fundamental_div_mod(yy, 100);
    vstd::arithmetic::div_mod::lemma_fundamental_div_mod(a, 4);
    vstd::arithmetic::div_mod::lemma_fundamental_div_mod(r, 4);
    assert(yy / 4 == 25 * a + r / 4) by {
        vstd::arithmetic::div_mod::lemma_fundamental_div_mod_converse(yy, 4, 25 * a + r / 4, r % 4);
    }
    assert(yy / 400 == q) by {
        vstd::arithmetic::div_mod::lemma_fundamental_div_mod_converse(yy, 400, q, 100 * s + r);
    }

    // The February 29th of a leap year sits at the end of a March-based year
    // whose next calendar year is the leap year.
    if mp == 11 && d == 29 {
        assert(is_leap_year(y));
        assert(y == yy + 1);
        vstd::arithmetic::div_mod::lemma_fundamental_div_mod(y, 4);
        vstd::arithmetic::div_mod::lemma_fundamental_div_mod(y, 400);
        if y % 400 == 0 {
            assert(y == 4 * (100 * (y / 400)));
            vstd::arithmetic::div_mod::lemma_fundamental_div_mod_converse(y, 4, 100 * (y / 400), 0);
        }
        assert(y % 4 == 0);
        assert(yy % 4 == 3) by {
            vstd::arithmetic::div_mod::lemma_fundamental_div_mod_converse(yy, 4, y / 4 - 1, 3);
        }
        if r == 99 {
            // then y is a whole century, a leap year only every 400 years
            assert(y == 100 * (a + 1));
            vstd::arithmetic::div_mod::lemma_fundamental_div_mod_converse(y, 100, a + 1, 0);
            assert(y % 400 == 0);
            assert(a + 1 == 4 * (y / 400)) by (nonlinear_arith)
                requires
                    y == 100 * (a + 1),
                    y == 400 * (y / 400),
            ;
            assert(s == 3);
        }
    }

    // alpha recovers the century.
    let alpha = (4 * z - 7468865) / 146097;
    assert(4 * z - 7468865 == 146097 * (a - 4) + (1460 * r + 4 * (r / 4) + 4 * (month_base(mp) + d) - s - 1));
    assert(0 <= 1460 * r + 4 * (r / 4) + 4 * (month_base(mp) + d) - s - 1 < 146097);
    vstd::arithmetic::div_mod::lemma_fundamental_div_mod_converse(
        4 * z - 7468865,
        146097,
        a - 4,
        1460 * r + 4 * (r / 4) + 4 * (month_base(mp) + d) - s - 1,
    );
    assert(alpha == a - 4);
    assert(alpha / 4 == q - 1) by {
        vstd::arithmetic::div_mod::lemma_fundamental_div_mod_converse(alpha, 4, q - 1, s);
    }
    let aa = z + 1 + alpha - alpha / 4;
    let b = aa + 1524;

    // b is the Julian-calendar count of years, months and days.
    let yp = yy + 4716;
    let u = yp / 4;
    let v = yp % 4;
    vstd::arithmetic::div_mod::lemma_fundamental_div_mod(yp, 4);
    let j1 = (1461 * yp) / 4;
    assert(j1 == 365 * yp + u) by {
        vstd::arithmetic::div_mod::lemma_fundamental_div_mod_converse(1461 * yp, 4, 365 * yp + u, v);
    }
    assert(u == yy / 4 + 1179) by {
        lemma_div_shift(yy, 1179, 4);
    }
    assert(v == yy % 4) by {
        vstd::arithmetic::div_mod::lemma_fundamental_div_mod(yy, 4);
        vstd::arithmetic::div_mod::lemma_fundamental_div_mod_converse(yp, 4, yy / 4 + 1179, yy % 4);
    }
    lemma_month_term(mm);
    let mt = (306001 * (mm + 1)) / 10000;
    assert(mt == month_base(mp) + 122);
    assert(b == j1 + mt + d);

    // c recovers the year.
    let c = (100 * b - 12210) / 36525;
    assert(100 * b - 12210 == 36525 * yp + (100 * (mt + d) - 12210 - 25 * v));
    vstd::arithmetic::div_mod::lemma_fundamental_div_mod_converse(
        100 * b - 12210,
        36525,
        yp,
        100 * (mt + d) - 12210 - 25 * v,
    );
    assert(c == yp);
    let dd = (1461 * c) / 4;
    assert(dd == j1);

    // e recovers the month, and the day follows.
    let feb_days = if is_leap_year(y) { 29int } else { 28int };
    lemma_month_index_back(mm, d, feb_days);
    let e = (10000 * (b - dd)) / 306001;
    assert(e == mm + 1);
    assert(meeus_fields(z) == (y, m, d));
}


// ─── Every day count in the supported range names a date ─────────

/// The day after `c`.
pub open spec fn next_date(c: CivilDate) -> CivilDate {
    if (c.day as int) < days_in_month(c.year as int, c.month as int) {
        CivilDate { year: c.year, month: c.month, day: (c.day + 1) as u32 }
    } else if c.month < 12 {
        CivilDate { year: c.year, month: (c.month + 1) as u32, day: 1 }
    } else {
        CivilDate { year: (c.year + 1) as i32, month: 1, day: 1 }
    }
}

proof fn lemma_next_date(c: CivilDate)
    requires
        c.valid(),
        !(c.year == MAX_YEAR && c.month == 12 && c.day == 31),
    ensures
        next_date(c).valid(),
        next_date(c).days() == c.days() + 1,
{
    let n = next_date(c);
    let ya = march_year(c.year as int, c.month as int);
    let yb = march_year(n.year as int, n.month as int);
    let ma = march_month(c.month as int);
    let mb = march_month(n.month as int);
    lemma_month_base_values(ma);
    lemma_month_base_values(mb);
    assert(c.days() == year_base(ya) + month_base(ma) + c.day - 719469);
    assert(n.days() == year_base(yb) + month_base(mb) + n.day - 719469);
    if c.month == 2 && (c.day as int) == days_in_month(c.year as int, 2) {
        lemma_year_length(c.year as int - 1);
    }
}

/// The date with day count `n`, reached by stepping day by day from the
/// first supported day.
pub open spec fn date_at(n: int) -> CivilDate
    decreases n - first_day_number(),
{
    if n <= first_day_number() {
        CivilDate { year: MIN_YEAR, month: 1, day: 1 }
    } else {
        next_date(date_at(n - 1))
    }
}

/// Every day count in the supported range is the day count of a date.
pub proof fn law_day_numbers_name_dates(n: int)
    requires
        day_number_in_range(n),
    ensures
        date_at(n).valid(),
        date_at(n).days() == n,
    decreases n - first_day_number(),
{
    if n > first_day_number() {
        law_day_numbers_name_dates(n - 1);
        let c = date_at(n - 1);
        if c.year == MAX_YEAR && c.month == 12 && c.day == 31 {
            assert(c.days() == last_day_number());
        }
        lemma_next_date(c);
    }
}

} // verus!
