//! Japanese calendar reckoning: era years (wareki), traditional month names,
//! day numerals, the sexagenary cycle, the temporal-hour clock (futeiji-ho),
//! the twenty-four solar terms and the seasonal days (zassetsu).
//!
//! The astronomy (solar longitude, the instants at which the sun reaches a
//! given longitude) is computed with floating point outside this library and
//! handed in as dates and integer instants; the reckoning that decides names,
//! days and offsets from them is here.

use vstd::prelude::*;
use crate::date::{
    day_number_in_range, julian_day_number, lemma_days_injective, offset_in_range, shift_days, unix_epoch_jdn,
    CivilDate,
};
use crate::text::{
    decimal, decimal_string, signed_decimal, signed_decimal_string, two_digit_string, two_digits,
};

verus! {

// ─── Kanji numerals ──────────────────────────────────────────────

/// The kanji digit for `d` in `0..10`.
pub open spec fn kanji_digit_char(d: int) -> char {
    if d == 0 { '〇' } else if d == 1 { '一' } else if d == 2 { '二' } else if d == 3 { '三' }
    else if d == 4 { '四' } else if d == 5 { '五' } else if d == 6 { '六' } else if d == 7 { '七' }
    else if d == 8 { '八' } else { '九' }
}

/// One place of a kanji numeral: nothing for a zero digit, the digit followed
/// by the unit otherwise (a lone unit for one ten, when `omit_one` holds).
pub open spec fn kanji_place(d: int, unit: char, omit_one: bool) -> Seq<char> {
    if d == 0 {
        Seq::empty()
    } else if d == 1 && omit_one {
        seq![unit]
    } else {
        seq![kanji_digit_char(d), unit]
    }
}

/// The kanji numeral of `n` in `1..=9999`, read place by place: thousands
/// (千), hundreds (百), tens (十, without a digit for one ten) and ones.
pub open spec fn kanji_numeral(n: int) -> Seq<char> {
    kanji_place(n / 1000, '千', false) + kanji_place((n / 100) % 10, '百', false)
        + kanji_place((n / 10) % 10, '十', true) + (if n % 10 == 0 {
        Seq::<char>::empty()
    } else {
        seq![kanji_digit_char(n % 10)]
    })
}

/// A year count of an era: 元 for the first year, the kanji numeral after it,
/// and nothing for counts below one.
pub open spec fn era_year_numeral(n: int) -> Seq<char> {
    if n <= 0 {
        Seq::empty()
    } else if n == 1 {
        seq!['元']
    } else {
        kanji_numeral(n)
    }
}

/// The one-character string of the kanji digit `d`.
fn kanji_digit_str(d: u32) -> (r: &'static str)
    requires
        d < 10,
    ensures
        r@ == seq![kanji_digit_char(d as int)],
{
    proof {
        reveal_strlit("〇");
        reveal_strlit("一");
        reveal_strlit("二");
        reveal_strlit("三");
        reveal_strlit("四");
        reveal_strlit("五");
        reveal_strlit("六");
        reveal_strlit("七");
        reveal_strlit("八");
        reveal_strlit("九");
    }
    match d {
        0 => "〇",
        1 => "一",
        2 => "二",
        3 => "三",
        4 => "四",
        5 => "五",
        6 => "六",
        7 => "七",
        8 => "八",
        _ => "九",
    }
}

/// Appends one place of a kanji numeral to `s`.
fn push_kanji_place(s: &mut String, d: u32, unit: &str, omit_one: bool)
    requires
        d < 10,
        unit@.len() == 1,
    ensures
        final(s)@ == old(s)@ + kanji_place(d as int, unit@[0], omit_one),
{
    if d > 0 {
        if !(d == 1 && omit_one) {
            s.append(kanji_digit_str(d));
        }
        s.append(unit);
    }
    assert(unit@ =~= seq![unit@[0]]);
    assert(final(s)@ =~= old(s)@ + kanji_place(d as int, unit@[0], omit_one));
}

/// The kanji numeral of `n` (一 for one, 十二 for twelve, 三百五 for 305).
pub fn kanji_number(n: u32) -> (r: String)
    requires
        1 <= n <= 9999,
    ensures
        r@ == kanji_numeral(n as int),
{
    proof {
        reveal_strlit("千");
        reveal_strlit("百");
        reveal_strlit("十");
    }
    let mut s = String::new();
    push_kanji_place(&mut s, n / 1000, "千", false);
    push_kanji_place(&mut s, (n / 100) % 10, "百", false);
    push_kanji_place(&mut s, (n / 10) % 10, "十", true);
    if n % 10 != 0 {
        s.append(kanji_digit_str(n % 10));
    }
    assert(s@ =~= kanji_numeral(n as int));
    s
}

/// The year count of an era as written in a Japanese era year: 元 for the
/// first year, the kanji numeral after it, nothing for counts below one.
pub fn to_kanji_number(num: i64) -> (r: String)
    requires
        num <= 9999,
    ensures
        r@ == era_year_numeral(num as int),
{
    if num <= 0 {
        return String::new();
    }
    if num == 1 {
        proof {
            reveal_strlit("元");
        }
        return String::from_str("元");
    }
    kanji_number(num as u32)
}

// ─── Month names ─────────────────────────────────────────────────

/// The traditional name (wafu getsumei) of month `m`.
pub open spec fn month_name(m: int) -> Seq<char> {
    if m == 1 { "睦月"@ } else if m == 2 { "如月"@ } else if m == 3 { "弥生"@ }
    else if m == 4 { "卯月"@ } else if m == 5 { "皐月"@ } else if m == 6 { "水無月"@ }
    else if m == 7 { "文月"@ } else if m == 8 { "葉月"@ } else if m == 9 { "長月"@ }
    else if m == 10 { "神無月"@ } else if m == 11 { "霜月"@ } else { "師走"@ }
}

/// The traditional name of the month of `date` (睦月 for January .. 師走 for
/// December).
pub fn japanese_month_name(date: CivilDate) -> (r: &'static str)
    requires
        date.valid(),
    ensures
        r@ == month_name(date.month as int),
{
    match date.month {
        1 => "睦月",
        2 => "如月",
        3 => "弥生",
        4 => "卯月",
        5 => "皐月",
        6 => "水無月",
        7 => "文月",
        8 => "葉月",
        9 => "長月",
        10 => "神無月",
        11 => "霜月",
        _ => "師走",
    }
}

// ─── Day numerals ────────────────────────────────────────────────

/// The day of the month in traditional kanji, with 廿 for the twenties,
/// followed by 日.
pub open spec fn kanji_day_text(d: int) -> Seq<char> {
    let body = if 1 <= d <= 9 {
        seq![kanji_digit_char(d)]
    } else if d == 10 {
        seq!['十']
    } else if 11 <= d <= 19 {
        seq!['十', kanji_digit_char(d - 10)]
    } else if d == 20 {
        seq!['廿']
    } else if 21 <= d <= 29 {
        seq!['廿', kanji_digit_char(d - 20)]
    } else if d == 30 {
        seq!['三', '十']
    } else if d == 31 {
        seq!['三', '十', '一']
    } else {
        decimal(d as nat)
    };
    body + seq!['日']
}

/// The day of `date` in traditional kanji (二日, 十日, 十三日, 廿日, 廿五日,
/// 三十一日).
pub fn kanji_day(date: CivilDate) -> (r: String)
    requires
        date.valid(),
    ensures
        r@ == kanji_day_text(date.day as int),
{
    proof {
        reveal_strlit("十");
        reveal_strlit("廿");
        reveal_strlit("三十");
        reveal_strlit("三十一");
        reveal_strlit("日");
    }
    let day = date.day;
    let mut s: String;
    if 1 <= day && day <= 9 {
        s = String::from_str(kanji_digit_str(day));
    } else if day == 10 {
        s = String::from_str("十");
    } else if 11 <= day && day <= 19 {
        s = String::from_str("十");
        s.append(kanji_digit_str(day - 10));
    } else if day == 20 {
        s = String::from_str("廿");
    } else if 21 <= day && day <= 29 {
        s = String::from_str("廿");
        s.append(kanji_digit_str(day - 20));
    } else if day == 30 {
        s = String::from_str("三十");
    } else if day == 31 {
        s = String::from_str("三十一");
    } else {
        s = decimal_string(day as u64);
    }
    s.append("日");
    s
}

// ─── The sexagenary cycle ────────────────────────────────────────

/// The ten heavenly stems (jikkan), 甲 for 0 .. 癸 for 9.
pub open spec fn stem_char(i: int) -> char {
    if i == 0 { '甲' } else if i == 1 { '乙' } else if i == 2 { '丙' } else if i == 3 { '丁' }
    else if i == 4 { '戊' } else if i == 5 { '己' } else if i == 6 { '庚' } else if i == 7 { '辛' }
    else if i == 8 { '壬' } else { '癸' }
}

/// The twelve earthly branches (junishi), 子 for 0 .. 亥 for 11.
pub open spec fn branch_char(i: int) -> char {
    if i == 0 { '子' } else if i == 1 { '丑' } else if i == 2 { '寅' } else if i == 3 { '卯' }
    else if i == 4 { '辰' } else if i == 5 { '巳' } else if i == 6 { '午' } else if i == 7 { '未' }
    else if i == 8 { '申' } else if i == 9 { '酉' } else if i == 10 { '戌' } else { '亥' }
}

/// The stem and branch of the year `y` (甲子 for 1984).
pub open spec fn year_cycle(y: int) -> Seq<char> {
    seq![stem_char((y - 4) % 10), branch_char((y - 4) % 12)]
}

/// The stem and branch of the day with Julian day number `jdn` (戊午 for
/// 2000-01-01).
pub open spec fn day_cycle(jdn: int) -> Seq<char> {
    seq![stem_char((jdn + 9) % 10), branch_char((jdn + 1) % 12)]
}

/// The stem of the day with Julian day number `jdn`, as an index (0 for 甲
/// .. 9 for 癸).
pub open spec fn day_stem(jdn: int) -> int {
    (jdn + 9) % 10
}

fn stem_str(i: u64) -> (r: &'static str)
    requires
        i < 10,
    ensures
        r@ == seq![stem_char(i as int)],
{
    proof {
        reveal_strlit("甲");
        reveal_strlit("乙");
        reveal_strlit("丙");
        reveal_strlit("丁");
        reveal_strlit("戊");
        reveal_strlit("己");
        reveal_strlit("庚");
        reveal_strlit("辛");
        reveal_strlit("壬");
        reveal_strlit("癸");
    }
    match i {
        0 => "甲",
        1 => "乙",
        2 => "丙",
        3 => "丁",
        4 => "戊",
        5 => "己",
        6 => "庚",
        7 => "辛",
        8 => "壬",
        _ => "癸",
    }
}

fn branch_str(i: u64) -> (r: &'static str)
    requires
        i < 12,
    ensures
        r@ == seq![branch_char(i as int)],
{
    proof {
        reveal_strlit("子");
        reveal_strlit("丑");
        reveal_strlit("寅");
        reveal_strlit("卯");
        reveal_strlit("辰");
        reveal_strlit("巳");
        reveal_strlit("午");
        reveal_strlit("未");
        reveal_strlit("申");
        reveal_strlit("酉");
        reveal_strlit("戌");
        reveal_strlit("亥");
    }
    match i {
        0 => "子",
        1 => "丑",
        2 => "寅",
        3 => "卯",
        4 => "辰",
        5 => "巳",
        6 => "午",
        7 => "未",
        8 => "申",
        9 => "酉",
        10 => "戌",
        _ => "亥",
    }
}

/// `(x + k * m) % m == x % m`.
proof fn lemma_mod_shift(x: int, k: int, m: int)
    requires
        m > 0,
    ensures
        (x + k * m) % m == x % m,
{
    vstd::arithmetic::div_mod::lemma_fundamental_div_mod(x, m);
    assert(x + k * m == (x / m + k) * m + x % m) by (nonlinear_arith)
        requires
            x == m * (x / m) + x % m,
    ;
    vstd::arithmetic::div_mod::lemma_fundamental_div_mod_converse(x + k * m, m, x / m + k, x % m);
}

/// The stem and branch of the year of `date` (丙午 for 2026).
pub fn sixty_kanji_cycle(date: CivilDate) -> (r: String)
    requires
        date.valid(),
    ensures
        r@ == year_cycle(date.year as int),
{
    // 262200 is a multiple of 60, so the shifted year has the same stem and
    // branch and is never negative.
    let shifted: u64 = (date.year as i64 - 4 + 262200) as u64;
    proof {
        lemma_mod_shift(date.year as int - 4, 26220int, 10);
        lemma_mod_shift(date.year as int - 4, 21850int, 12);
    }
    let mut s = String::from_str(stem_str(shifted % 10));
    s.append(branch_str(shifted % 12));
    s
}

/// The stem of the day of `date`, as an index (0 for 甲 .. 9 for 癸).
pub fn jikkan_of_date(date: CivilDate) -> (r: i64)
    requires
        date.valid(),
    ensures
        r == day_stem(date.days() + unix_epoch_jdn()),
        0 <= r < 10,
{
    let jdn = julian_day_number(date);
    // 120_000_000 is a multiple of 60 and lifts every supported day above zero.
    let shifted: u64 = (jdn + 120_000_000) as u64;
    proof {
        lemma_mod_shift(jdn as int + 9, 12_000_000int, 10);
    }
    ((shifted + 9) % 10) as i64
}

/// The stem and branch of the day of `date` (戊午 for 2000-01-01).
pub fn day_kanji_cycle(date: CivilDate) -> (r: String)
    requires
        date.valid(),
    ensures
        r@ == day_cycle(date.days() + unix_epoch_jdn()),
{
    let jdn = julian_day_number(date);
    let shifted: u64 = (jdn + 120_000_000) as u64;
    proof {
        lemma_mod_shift(jdn as int + 9, 12_000_000int, 10);
        lemma_mod_shift(jdn as int + 1, 10_000_000int, 12);
    }
    let mut s = String::from_str(stem_str((shifted + 9) % 10));
    s.append(branch_str((shifted + 1) % 12));
    s
}

// ─── Era years (wareki) ──────────────────────────────────────────

/// The eras from the newest back: first day and name.
pub open spec fn era_start(i: int) -> (int, int, int) {
    if i == 0 { (2019, 5, 1) } else if i == 1 { (1989, 1, 8) } else if i == 2 { (1926, 12, 25) }
    else if i == 3 { (1912, 7, 30) } else { (1868, 1, 25) }
}

pub open spec fn era_name(i: int) -> Seq<char> {
    if i == 0 { "令和"@ } else if i == 1 { "平成"@ } else if i == 2 { "昭和"@ }
    else if i == 3 { "大正"@ } else { "明治"@ }
}

/// The name of era `i` (0 for 令和 .. 4 for 明治).
pub fn era_name_str(i: usize) -> (r: &'static str)
    requires
        i < 5,
    ensures
        r@ == era_name(i as int),
{
    match i {
        0 => "令和",
        1 => "平成",
        2 => "昭和",
        3 => "大正",
        _ => "明治",
    }
}

/// Whether day `(y, m, d)` falls on or after the first day of era `i`.
pub open spec fn in_era_or_later(y: int, m: int, d: int, i: int) -> bool {
    let (sy, sm, sd) = era_start(i);
    y > sy || (y == sy && (m > sm || (m == sm && d >= sd)))
}

/// The index of the era of day `(y, m, d)`: the newest era that has begun by
/// then, or 5 before the first of them.
pub open spec fn era_of(y: int, m: int, d: int) -> int {
    if in_era_or_later(y, m, d, 0) { 0 }
    else if in_era_or_later(y, m, d, 1) { 1 }
    else if in_era_or_later(y, m, d, 2) { 2 }
    else if in_era_or_later(y, m, d, 3) { 3 }
    else if in_era_or_later(y, m, d, 4) { 4 }
    else { 5 }
}

/// The Japanese era year of day `(y, m, d)` (令和八年), or the Western year
/// followed by 年 before the eras begin.
pub open spec fn japanese_year_text(y: int, m: int, d: int) -> Seq<char> {
    let i = era_of(y, m, d);
    if i < 5 {
        era_name(i) + era_year_numeral(y - era_start(i).0 + 1) + seq!['年']
    } else {
        signed_decimal(y) + seq!['年']
    }
}

/// The Japanese era year of `date` (明治元年 from 1868-01-25, 令和八年 in
/// 2026; 1868年 before the Meiji era).
pub fn japanese_year(date: CivilDate) -> (r: String)
    requires
        date.valid(),
        date.year <= 12017,
    ensures
        r@ == japanese_year_text(date.year as int, date.month as int, date.day as int),
{
    let y = date.year;
    let m = date.month;
    let d = date.day;
    proof {
        reveal_strlit("年");
    }
    let (name, start): (&str, i32) = if y > 2019 || (y == 2019 && (m > 5 || (m == 5 && d >= 1))) {
        ("令和", 2019)
    } else if y > 1989 || (y == 1989 && (m > 1 || (m == 1 && d >= 8))) {
        ("平成", 1989)
    } else if y > 1926 || (y == 1926 && (m > 12 || (m == 12 && d >= 25))) {
        ("昭和", 1926)
    } else if y > 1912 || (y == 1912 && (m > 7 || (m == 7 && d >= 30))) {
        ("大正", 1912)
    } else if y > 1868 || (y == 1868 && (m > 1 || (m == 1 && d >= 25))) {
        ("明治", 1868)
    } else {
        let mut s = signed_decimal_string(y as i64);
        s.append("年");
        return s;
    };
    let mut s = String::from_str(name);
    let count = to_kanji_number((y - start + 1) as i64);
    s.append(count.as_str());
    s.append("年");
    s
}

// ─── The temporal-hour clock (futeiji-ho) ────────────────────────

/// Milliseconds in a day.
pub const DAY_MS: i64 = 86_400_000;

/// The greatest distance from the Unix epoch, in milliseconds, of an instant
/// that a date-time of the supported years can name.
pub const INSTANT_LIMIT_MS: i64 = 10_000_000_000_000_000;

/// An instant, with the hour and minute that it shows on the local clock.
#[derive(Clone, Copy, Debug, PartialEq, Eq, Structural)]
pub struct LocalTime {
    pub timestamp_ms: i64,
    pub hour: u32,
    pub minute: u32,
}

impl LocalTime {
    pub open spec fn valid(self) -> bool {
        &&& -INSTANT_LIMIT_MS <= self.timestamp_ms <= INSTANT_LIMIT_MS
        &&& self.hour < 24
        &&& self.minute < 60
    }
}

/// The time of day in the temporal-hour clock.
pub struct JapaneseTime {
    /// The hour and its quarter (未三つ), or an error text.
    pub label: String,
    /// Sunrise and sunset on the local clock (日出04:25-日入19:00).
    pub sun_info: String,
    /// Whether the hour is 未, the hour of the snack (oyatsu).
    pub is_hitsuji_time: bool,
}

/// The six daytime hours, 卯 from sunrise .. 申 before sunset.
pub open spec fn day_hour_char(i: int) -> char {
    if i == 0 { '卯' } else if i == 1 { '辰' } else if i == 2 { '巳' } else if i == 3 { '午' }
    else if i == 4 { '未' } else { '申' }
}

/// The six night hours, 酉 from sunset .. 寅 before sunrise.
pub open spec fn night_hour_char(i: int) -> char {
    if i == 0 { '酉' } else if i == 1 { '戌' } else if i == 2 { '亥' } else if i == 3 { '子' }
    else if i == 4 { '丑' } else { '寅' }
}

/// The quarter of an hour: 一つ .. 四つ.
pub open spec fn quarter_text(q: int) -> Seq<char> {
    seq![kanji_digit_char(q + 1), 'つ']
}

/// The span that `now` falls in: `(length, start, is_day)`. Daytime runs from
/// sunrise to sunset; the night after sunset runs to the next sunrise, and
/// before sunrise the night runs from the previous sunset.
pub open spec fn clock_span(now: int, rise: int, set: int) -> (int, int, bool) {
    if now >= rise && now < set {
        (set - rise, rise, true)
    } else if now >= set {
        (rise + DAY_MS - set, set, false)
    } else {
        (rise - (set - DAY_MS), set - DAY_MS, false)
    }
}

/// Which of the six equal hours of a span of length `len` holds an instant
/// `passed` after its start (held to the first and the last hour).
pub open spec fn hour_index(passed: int, len: int) -> int {
    if passed < 0 { 0 } else if (6 * passed) / len > 5 { 5 } else { (6 * passed) / len }
}

/// Which quarter of its hour holds an instant `passed` after the start of a
/// span of length `len`.
pub open spec fn quarter_index(passed: int, len: int) -> int {
    ((24 * passed) / len) % 4
}

/// The label of the time `now`, or the error text where the span has no
/// length.
pub open spec fn clock_label(now: int, rise: int, set: int) -> Seq<char> {
    let (len, start, is_day) = clock_span(now, rise, set);
    if len <= 0 {
        "時間計算エラー"@
    } else {
        let h = hour_index(now - start, len);
        let q = quarter_index(now - start, len);
        seq![if is_day { day_hour_char(h) } else { night_hour_char(h) }] + quarter_text(q)
    }
}

/// Whether `now` falls in the hour 未: the fifth of the six daytime hours.
pub open spec fn is_hitsuji(now: int, rise: int, set: int) -> bool {
    let (len, start, is_day) = clock_span(now, rise, set);
    len > 0 && is_day && hour_index(now - start, len) == 4
}

pub open spec fn sun_info_text(rise: LocalTime, set: LocalTime) -> Seq<char> {
    seq!['日', '出'] + two_digits(rise.hour as nat) + seq![':'] + two_digits(rise.minute as nat)
        + seq!['-', '日', '入'] + two_digits(set.hour as nat) + seq![':'] + two_digits(
        set.minute as nat,
    )
}

/// `x / d` for a positive divisor, rounding down also for negative `x`.
fn floor_div(x: i64, d: i64) -> (r: i64)
    requires
        0 < d < 0x4000_0000_0000_0000,
        -0x4000_0000_0000_0000 < x < 0x4000_0000_0000_0000,
    ensures
        r == x / d,
        x >= 0 ==> 0 <= r <= x,
        x < 0 ==> x <= r < 0,
{
    if x >= 0 {
        proof {
            vstd::arithmetic::div_mod::lemma_div_is_ordered_by_denominator(x as int, 1, d as int);
            vstd::arithmetic::div_mod::lemma_div_pos_is_pos(x as int, d as int);
        }
        x / d
    } else {
        let q: i64 = (-x + d - 1) / d;
        proof {
            let nx: int = -(x as int);
            let dd: int = d as int;
            vstd::arithmetic::div_mod::lemma_fundamental_div_mod(nx + dd - 1, dd);
            let rr: int = (nx + dd - 1) % dd;
            let qq: int = q as int;
            assert(x == (-qq) * dd + (dd - 1 - rr)) by (nonlinear_arith)
                requires
                    nx + dd - 1 == dd * qq + rr,
                    x == -nx,
            ;
            vstd::arithmetic::div_mod::lemma_fundamental_div_mod_converse(x as int, dd, -qq, dd - 1 - rr);
            assert(qq >= 1 && -qq >= x) by (nonlinear_arith)
                requires
                    nx + dd - 1 == dd * qq + rr,
                    0 <= rr < dd,
                    nx >= 1,
                    dd >= 1,
                    x == -nx,
            ;
        }
        -q
    }
}

pub fn hour_str(is_day: bool, i: i64) -> (r: &'static str)
    requires
        0 <= i < 6,
    ensures
        r@ == seq![if is_day { day_hour_char(i as int) } else { night_hour_char(i as int) }],
{
    proof {
        reveal_strlit("卯");
        reveal_strlit("辰");
        reveal_strlit("巳");
        reveal_strlit("午");
        reveal_strlit("未");
        reveal_strlit("申");
        reveal_strlit("酉");
        reveal_strlit("戌");
        reveal_strlit("亥");
        reveal_strlit("子");
        reveal_strlit("丑");
        reveal_strlit("寅");
    }
    if is_day {
        match i {
            0 => "卯",
            1 => "辰",
            2 => "巳",
            3 => "午",
            4 => "未",
            _ => "申",
        }
    } else {
        match i {
            0 => "酉",
            1 => "戌",
            2 => "亥",
            3 => "子",
            4 => "丑",
            _ => "寅",
        }
    }
}

pub fn quarter_str(q: i64) -> (r: &'static str)
    requires
        0 <= q < 4,
    ensures
        r@ == quarter_text(q as int),
{
    proof {
        reveal_strlit("一つ");
        reveal_strlit("二つ");
        reveal_strlit("三つ");
        reveal_strlit("四つ");
    }
    match q {
        0 => "一つ",
        1 => "二つ",
        2 => "三つ",
        _ => "四つ",
    }
}

fn sun_info(sunrise: &LocalTime, sunset: &LocalTime) -> (r: String)
    requires
        sunrise.valid(),
        sunset.valid(),
    ensures
        r@ == sun_info_text(*sunrise, *sunset),
{
    proof {
        reveal_strlit("日出");
        reveal_strlit(":");
        reveal_strlit("-日入");
    }
    let mut s = String::from_str("日出");
    s.append(two_digit_string(sunrise.hour).as_str());
    s.append(":");
    s.append(two_digit_string(sunrise.minute).as_str());
    s.append("-日入");
    s.append(two_digit_string(sunset.hour).as_str());
    s.append(":");
    s.append(two_digit_string(sunset.minute).as_str());
    assert(s@ =~= sun_info_text(*sunrise, *sunset));
    s
}

/// The instant of sunset to reckon with: where the computed sunset falls
/// before the sunrise (a sunset that belongs to the next day on the local
/// clock), the one a day later.
pub fn sunset_after_sunrise(sunrise_ms: i64, sunset_ms: i64) -> (r: i64)
    requires
        -INSTANT_LIMIT_MS <= sunrise_ms <= INSTANT_LIMIT_MS,
        -INSTANT_LIMIT_MS <= sunset_ms <= INSTANT_LIMIT_MS,
    ensures
        r == if sunset_ms < sunrise_ms { sunset_ms + DAY_MS } else { sunset_ms as int },
        r >= sunrise_ms || sunset_ms < sunrise_ms - DAY_MS,
{
    if sunset_ms < sunrise_ms {
        sunset_ms + DAY_MS
    } else {
        sunset_ms
    }
}

/// The temporal hour at `now`: daytime from sunrise to sunset and the night
/// are each divided into six equal hours, and each hour into four quarters.
pub fn calculate_japanese_time(now: LocalTime, sunrise: LocalTime, sunset: LocalTime) -> (r:
    JapaneseTime)
    requires
        now.valid(),
        sunrise.valid(),
        sunset.valid(),
    ensures
        r.label@ == clock_label(now.timestamp_ms as int, sunrise.timestamp_ms as int,
            sunset.timestamp_ms as int),
        r.is_hitsuji_time == is_hitsuji(now.timestamp_ms as int, sunrise.timestamp_ms as int,
            sunset.timestamp_ms as int),
        r.sun_info@ == sun_info_text(sunrise, sunset),
{
    let now_ms = now.timestamp_ms;
    let rise_ms = sunrise.timestamp_ms;
    let set_ms = sunset.timestamp_ms;
    let info = sun_info(&sunrise, &sunset);

    let (len, start, is_day): (i64, i64, bool) = if now_ms >= rise_ms && now_ms < set_ms {
        (set_ms - rise_ms, rise_ms, true)
    } else if now_ms >= set_ms {
        (rise_ms + DAY_MS - set_ms, set_ms, false)
    } else {
        (rise_ms - (set_ms - DAY_MS), set_ms - DAY_MS, false)
    };

    if len <= 0 {
        proof {
            reveal_strlit("時間計算エラー");
        }
        return JapaneseTime {
            label: String::from_str("時間計算エラー"),
            sun_info: info,
            is_hitsuji_time: false,
        };
    }
    let passed = now_ms - start;
    let h: i64 = if passed < 0 {
        0
    } else if 6 * passed / len > 5 {
        5
    } else {
        6 * passed / len
    };
    let quarters = floor_div(24 * passed, len);
    let q: i64 = quarters - 4 * floor_div(quarters, 4);
    proof {
        vstd::arithmetic::div_mod::lemma_fundamental_div_mod(quarters as int, 4);
    }
    let mut label = String::from_str(hour_str(is_day, h));
    label.append(quarter_str(q));
    JapaneseTime { label, sun_info: info, is_hitsuji_time: is_day && h == 4 }
}

// ─── The twenty-four solar terms (nijushi sekki) ─────────────────

/// The names of the solar terms, from 小寒 (solar longitude 285°) in steps
/// of 15° to 冬至 (270°).
pub open spec fn term_name(i: int) -> Seq<char> {
    if i == 0 { "小寒"@ } else if i == 1 { "大寒"@ } else if i == 2 { "立春"@ }
    else if i == 3 { "雨水"@ } else if i == 4 { "啓蟄"@ } else if i == 5 { "春分"@ }
    else if i == 6 { "清明"@ } else if i == 7 { "穀雨"@ } else if i == 8 { "立夏"@ }
    else if i == 9 { "小満"@ } else if i == 10 { "芒種"@ } else if i == 11 { "夏至"@ }
    else if i == 12 { "小暑"@ } else if i == 13 { "大暑"@ } else if i == 14 { "立秋"@ }
    else if i == 15 { "処暑"@ } else if i == 16 { "白露"@ } else if i == 17 { "秋分"@ }
    else if i == 18 { "寒露"@ } else if i == 19 { "霜降"@ } else if i == 20 { "立冬"@ }
    else if i == 21 { "小雪"@ } else if i == 22 { "大雪"@ } else { "冬至"@ }
}

/// The name of solar term `i` (0 for 小寒 .. 23 for 冬至).
pub fn term_name_str(i: usize) -> (r: &'static str)
    requires
        i < 24,
    ensures
        r@ == term_name(i as int),
{
    match i {
        0 => "小寒",
        1 => "大寒",
        2 => "立春",
        3 => "雨水",
        4 => "啓蟄",
        5 => "春分",
        6 => "清明",
        7 => "穀雨",
        8 => "立夏",
        9 => "小満",
        10 => "芒種",
        11 => "夏至",
        12 => "小暑",
        13 => "大暑",
        14 => "立秋",
        15 => "処暑",
        16 => "白露",
        17 => "秋分",
        18 => "寒露",
        19 => "霜降",
        20 => "立冬",
        21 => "小雪",
        22 => "大雪",
        _ => "冬至",
    }
}

/// One computed entry into a solar term: which term, the day (in Japan
/// Standard Time) on which it enters, and the instant (in milliseconds of the
/// Julian date) at which the sun reaches its longitude.
#[derive(Clone, Copy, Debug, PartialEq, Eq, Structural)]
pub struct SolarTermEntry {
    pub term: usize,
    pub entered_on: CivilDate,
    pub instant_ms: i64,
}

/// Whether entry `e` has begun by `date`.
pub open spec fn entered_by(e: SolarTermEntry, date: CivilDate) -> bool {
    e.entered_on.le(date)
}

/// Entry `k` is the one that `date` belongs to: among the entries begun by
/// `date` it has the latest instant, and no earlier entry in the list has the
/// same instant.
pub open spec fn is_current_entry(date: CivilDate, es: Seq<SolarTermEntry>, k: int) -> bool {
    &&& 0 <= k < es.len()
    &&& entered_by(es[k], date)
    &&& forall|j: int| 0 <= j < es.len() && entered_by(es[j], date) ==> es[j].instant_ms <= es[k].instant_ms
    &&& forall|j: int| 0 <= j < k && entered_by(es[j], date) ==> es[j].instant_ms < es[k].instant_ms
}

/// The solar term that `date` belongs to: the one entered most recently on
/// or before `date` among `entries` (the terms of the previous and the
/// current year); 冬至 when none has begun.
pub fn solar_term(date: CivilDate, entries: &Vec<SolarTermEntry>) -> (r: &'static str)
    requires
        forall|j: int| 0 <= j < entries.len() ==> #[trigger] entries[j].term < 24,
    ensures
        (exists|j: int| 0 <= j < entries.len() && entered_by(#[trigger] entries[j], date)) ==> exists|k: int|
            is_current_entry(date, entries@, k) && r@ == term_name(entries[k].term as int),
        !(exists|j: int| 0 <= j < entries.len() && entered_by(#[trigger] entries[j], date)) ==> r@
            == term_name(23),
{
    let mut best: Option<usize> = None;
    let mut i: usize = 0;
    while i < entries.len()
        invariant
            i <= entries.len(),
            best is None ==> forall|j: int| 0 <= j < i ==> !entered_by(#[trigger] entries[j], date),
            best matches Some(k) ==> {
                &&& k < i
                &&& entered_by(entries[k as int], date)
                &&& forall|j: int| 0 <= j < i && entered_by(#[trigger] entries[j], date) ==> entries[j].instant_ms <= entries[k as int].instant_ms
                &&& forall|j: int| 0 <= j < k && entered_by(#[trigger] entries[j], date) ==> entries[j].instant_ms < entries[k as int].instant_ms
            },
        decreases entries.len() - i,
    {
        let e = entries[i];
        if e.entered_on.is_on_or_before(&date) {
            let better = match best {
                None => true,
                Some(k) => e.instant_ms > entries[k].instant_ms,
            };
            if better {
                best = Some(i);
            }
        }
        i = i + 1;
    }
    match best {
        Some(k) => {
            assert(is_current_entry(date, entries@, k as int));
            term_name_str(entries[k].term)
        },
        None => term_name_str(23),
    }
}

// ─── Seasonal days (zassetsu) ────────────────────────────────────

/// The days from which a year's seasonal days are reckoned, all in Japan
/// Standard Time and found from the solar longitude: 立春 (315°), the
/// equinoxes 春分 (0°) and 秋分 (180°) with whether each falls before noon,
/// the four 土用 beginnings (297°, 27°, 117°, 207°), 入梅 (80°) and 半夏生
/// (100°).
#[derive(Clone, Copy, Debug, PartialEq, Eq, Structural)]
pub struct SeasonalDays {
    pub risshun: CivilDate,
    pub shunbun: CivilDate,
    pub shunbun_before_noon: bool,
    pub shubun: CivilDate,
    pub shubun_before_noon: bool,
    pub doyo_winter: CivilDate,
    pub doyo_spring: CivilDate,
    pub doyo_summer: CivilDate,
    pub doyo_autumn: CivilDate,
    pub nyubai: CivilDate,
    pub hangesho: CivilDate,
}

/// The offset in days from an equinox to its shanichi: to the nearest day of
/// the stem 戊 (index 4); when 戊 days lie five days before and after, the one
/// before for an equinox in the morning, the one after otherwise.
pub open spec fn shanichi_offset(stem: int, before_noon: bool) -> int {
    let o = (4 - stem) % 10;
    if o > 5 { o - 10 } else if o == 5 { if before_noon { -5 } else { 5 } } else { o }
}

/// Whether the days from five before to five after `d` are supported.
pub open spec fn has_five_day_margin(d: CivilDate) -> bool {
    day_number_in_range(d.days() - 5) && day_number_in_range(d.days() + 5)
}

/// The shanichi (社日) of an equinox: the 戊 day nearest to it.
pub fn calc_shanichi(equinox: CivilDate, before_noon: bool) -> (r: CivilDate)
    requires
        equinox.valid(),
        has_five_day_margin(equinox),
    ensures
        r.valid(),
        r.days() == equinox.days() + shanichi_offset(
            day_stem(equinox.days() + unix_epoch_jdn()),
            before_noon,
        ),
{
    let jikkan = jikkan_of_date(equinox);
    let mut offset: i64 = (14 - jikkan) % 10;
    proof {
        lemma_mod_shift(4 - jikkan as int, 1int, 10);
    }
    if offset > 5 {
        offset = offset - 10;
    } else if offset == 5 {
        if before_noon {
            offset = -5;
        } else {
            offset = 5;
        }
    }
    shift_days(equinox, offset)
}

/// Whether `date` lies `n` days after `base`.
pub open spec fn days_after(date: CivilDate, base: CivilDate, n: int) -> bool {
    date.days() == base.days() + n
}

/// The seasonal day that `date` is, if any, tried in this order: 節分 (the
/// day before 立春), 八十八夜 (the 88th day counting 立春 as the first),
/// 二百十日 (the 210th), 彼岸入り (three days before an equinox), 土用入り,
/// 入梅, 半夏生, and 社日.
pub open spec fn zassetsu_text(date: CivilDate, s: SeasonalDays) -> Option<Seq<char>> {
    let shunsha = shanichi_offset(day_stem(s.shunbun.days() + unix_epoch_jdn()), s.shunbun_before_noon);
    let shusha = shanichi_offset(day_stem(s.shubun.days() + unix_epoch_jdn()), s.shubun_before_noon);
    if days_after(date, s.risshun, -1) {
        Some("節分"@)
    } else if days_after(date, s.risshun, 87) {
        Some("八十八夜"@)
    } else if days_after(date, s.risshun, 209) {
        Some("二百十日"@)
    } else if days_after(date, s.shunbun, -3) || days_after(date, s.shubun, -3) {
        Some("彼岸入り"@)
    } else if date == s.doyo_winter || date == s.doyo_spring || date == s.doyo_summer || date
        == s.doyo_autumn {
        Some("土用入り"@)
    } else if date == s.nyubai {
        Some("入梅"@)
    } else if date == s.hangesho {
        Some("半夏生"@)
    } else if days_after(date, s.shunbun, shunsha) || days_after(date, s.shubun, shusha) {
        Some("社日"@)
    } else {
        None
    }
}

pub open spec fn seasonal_days_valid(s: SeasonalDays) -> bool {
    &&& s.risshun.valid()
    &&& s.shunbun.valid()
    &&& s.shubun.valid()
    &&& s.doyo_winter.valid()
    &&& s.doyo_spring.valid()
    &&& s.doyo_summer.valid()
    &&& s.doyo_autumn.valid()
    &&& s.nyubai.valid()
    &&& s.hangesho.valid()
    &&& day_number_in_range(s.risshun.days() - 1)
    &&& day_number_in_range(s.risshun.days() + 209)
    &&& has_five_day_margin(s.shunbun)
    &&& has_five_day_margin(s.shubun)
}

impl SeasonalDays {
    /// Whether the days are valid and lie far enough inside the supported
    /// years for the seasonal days reckoned from them.
    pub fn is_valid(&self) -> (r: bool)
        ensures
            r == seasonal_days_valid(*self),
    {
        self.risshun.is_valid() && self.shunbun.is_valid() && self.shubun.is_valid()
            && self.doyo_winter.is_valid() && self.doyo_spring.is_valid()
            && self.doyo_summer.is_valid() && self.doyo_autumn.is_valid() && self.nyubai.is_valid()
            && self.hangesho.is_valid() && offset_in_range(self.risshun, -1) && offset_in_range(
            self.risshun,
            209,
        ) && offset_in_range(self.shunbun, -5) && offset_in_range(self.shunbun, 5)
            && offset_in_range(self.shubun, -5) && offset_in_range(self.shubun, 5)
    }
}

/// The seasonal day (雑節) that `date` is, if any.
pub fn zassetsu(date: CivilDate, s: &SeasonalDays) -> (r: Option<&'static str>)
    requires
        date.valid(),
        seasonal_days_valid(*s),
    ensures
        r matches Some(t) ==> zassetsu_text(date, *s) == Some(t@),
        r is None ==> zassetsu_text(date, *s) is None,
{
    let setsubun = shift_days(s.risshun, -1);
    let hachijuhachiya = shift_days(s.risshun, 87);
    let nihyakutoka = shift_days(s.risshun, 209);
    let higan_spring = shift_days(s.shunbun, -3);
    let higan_autumn = shift_days(s.shubun, -3);
    let shunsha = calc_shanichi(s.shunbun, s.shunbun_before_noon);
    let shusha = calc_shanichi(s.shubun, s.shubun_before_noon);
    proof {
        if date.days() == setsubun.days() { lemma_days_injective(date, setsubun); }
        if date.days() == hachijuhachiya.days() { lemma_days_injective(date, hachijuhachiya); }
        if date.days() == nihyakutoka.days() { lemma_days_injective(date, nihyakutoka); }
        if date.days() == higan_spring.days() { lemma_days_injective(date, higan_spring); }
        if date.days() == higan_autumn.days() { lemma_days_injective(date, higan_autumn); }
        if date.days() == shunsha.days() { lemma_days_injective(date, shunsha); }
        if date.days() == shusha.days() { lemma_days_injective(date, shusha); }
    }
    if date == setsubun {
        Some("節分")
    } else if date == hachijuhachiya {
        Some("八十八夜")
    } else if date == nihyakutoka {
        Some("二百十日")
    } else if date == higan_spring || date == higan_autumn {
        Some("彼岸入り")
    } else if date == s.doyo_winter || date == s.doyo_spring || date == s.doyo_summer || date
        == s.doyo_autumn {
        Some("土用入り")
    } else if date == s.nyubai {
        Some("入梅")
    } else if date == s.hangesho {
        Some("半夏生")
    } else if date == shunsha || date == shusha {
        Some("社日")
    } else {
        None
    }
}


// ─── Laws ────────────────────────────────────────────────────────

/// The stems and branches of years repeat every sixty years (1984 and 2044
/// are both 甲子).
pub proof fn law_year_cycle_repeats(y: int)
    ensures
        year_cycle(y + 60) == year_cycle(y),
{
    lemma_mod_shift(y - 4, 6, 10);
    lemma_mod_shift(y - 4, 5, 12);
    assert(y + 60 - 4 == (y - 4) + 6 * 10);
    assert(y + 60 - 4 == (y - 4) + 5 * 12);
}

/// The stems and branches of days repeat every sixty days, and the stem of
/// the next day is the next stem.
pub proof fn law_day_cycle_repeats(jdn: int)
    ensures
        day_cycle(jdn + 60) == day_cycle(jdn),
        day_stem(jdn + 1) == (day_stem(jdn) + 1) % 10,
{
    lemma_mod_shift(jdn + 9, 6, 10);
    lemma_mod_shift(jdn + 1, 5, 12);
    assert(jdn + 60 + 9 == (jdn + 9) + 6 * 10);
    assert(jdn + 60 + 1 == (jdn + 1) + 5 * 12);
    vstd::arithmetic::div_mod::lemma_add_mod_noop(jdn + 9, 1, 10);
    vstd::arithmetic::div_mod::lemma_mod_twice(1, 10);
}

/// The absolute value of `x`.
pub open spec fn abs(x: int) -> int {
    if x < 0 { -x } else { x }
}

/// The shanichi is the day of the stem 戊 nearest to the equinox: it is a 戊
/// day at most five days away, and no day closer to the equinox is a 戊 day.
pub proof fn law_shanichi_is_nearest_tsuchinoe(equinox_jdn: int, before_noon: bool)
    ensures
        ({
            let off = shanichi_offset(day_stem(equinox_jdn), before_noon);
            &&& -5 <= off <= 5
            &&& day_stem(equinox_jdn + off) == 4
            &&& forall|k: int| abs(k) < abs(off) ==> #[trigger] day_stem(equinox_jdn + k) != 4
        }),
{
    let st = day_stem(equinox_jdn);
    let off = shanichi_offset(st, before_noon);
    let o = (4 - st) % 10;
    assert(0 <= st < 10);
    vstd::arithmetic::div_mod::lemma_fundamental_div_mod(equinox_jdn + 9, 10);
    let base = (equinox_jdn + 9) / 10;
    // (equinox_jdn + k + 9) % 10 == (st + k) % 10
    assert forall|k: int| #[trigger] day_stem(equinox_jdn + k) == (st + k) % 10 by {
        assert(equinox_jdn + k + 9 == (st + k) + base * 10);
        lemma_mod_shift(st + k, base, 10);
    }
    assert(o == (if st <= 4 { 4 - st } else { 14 - st })) by {
        if st <= 4 {
            vstd::arithmetic::div_mod::lemma_fundamental_div_mod_converse(4 - st, 10, 0, 4 - st);
        } else {
            vstd::arithmetic::div_mod::lemma_fundamental_div_mod_converse(4 - st, 10, -1, 14 - st);
        }
    }
    assert forall|k: int| -10 < k < 10 implies #[trigger] ((st + k) % 10) == (if st + k < 0 { st + k + 10 } else if st + k < 10 { st + k } else { st + k - 10 }) by {
        if st + k < 0 {
            vstd::arithmetic::div_mod::lemma_fundamental_div_mod_converse(st + k, 10, -1, st + k + 10);
        } else if st + k < 10 {
            vstd::arithmetic::div_mod::lemma_fundamental_div_mod_converse(st + k, 10, 0, st + k);
        } else {
            vstd::arithmetic::div_mod::lemma_fundamental_div_mod_converse(st + k, 10, 1, st + k - 10);
        }
    }
    assert(day_stem(equinox_jdn + off) == (st + off) % 10);
    assert forall|k: int| abs(k) < abs(off) implies #[trigger] day_stem(equinox_jdn + k) != 4 by {
        assert(day_stem(equinox_jdn + k) == (st + k) % 10);
    }
}

/// The hour of the snack (未) is the fifth of the six daytime hours: its
/// instants lie from four sixths to five sixths of the way from sunrise to
/// sunset.
pub proof fn law_hitsuji_is_fifth_daytime_hour(now: int, rise: int, set: int)
    ensures
        is_hitsuji(now, rise, set) <==> (rise <= now < set && 4 * (set - rise) <= 6 * (now - rise) < 5 * (set - rise)),
{
    let len = set - rise;
    let p = now - rise;
    if rise <= now < set {
        vstd::arithmetic::div_mod::lemma_fundamental_div_mod(6 * p, len);
        let h = (6 * p) / len;
        let rr = (6 * p) % len;
        assert(len * h <= 6 * p < len * h + len);
        if 4 * len <= 6 * p < 5 * len {
            assert(h == 4) by (nonlinear_arith)
                requires
                    len * h <= 6 * p,
                    6 * p < len * h + len,
                    4 * len <= 6 * p,
                    6 * p < 5 * len,
                    len > 0,
            ;
        }
        if h == 4 {
            assert(4 * len <= 6 * p < 5 * len);
        }
    }
}

/// The flag of the snack hour is read off the label: it is set exactly when
/// the label begins with 未.
pub proof fn law_hitsuji_flag_matches_label(now: int, rise: int, set: int)
    ensures
        is_hitsuji(now, rise, set) == (clock_label(now, rise, set)[0] == '未'),
{
    reveal_strlit("時間計算エラー");
}

/// The three spans of the clock join up around the day: the daytime runs
/// from sunrise to sunset, the night after sunset runs from sunset to the
/// next sunrise, and the night before sunrise runs from the previous sunset
/// (a day before this sunset) to this sunrise. The two nights have the same
/// length, and a daytime and a night make up a day.
pub proof fn law_clock_spans_join_up(now: int, rise: int, set: int)
    ensures
        rise <= now < set ==> ({
            let (len, start, is_day) = clock_span(now, rise, set);
            is_day && start == rise && start + len == set
        }),
        now >= set ==> ({
            let (len, start, is_day) = clock_span(now, rise, set);
            !is_day && start == set && start + len == rise + DAY_MS
        }),
        now < rise && now < set ==> ({
            let (len, start, is_day) = clock_span(now, rise, set);
            !is_day && start + DAY_MS == set && start + len == rise
        }),
        forall|before: int, after: int| before < rise && before < set && after >= set
            ==> (#[trigger] clock_span(before, rise, set)).0 == (#[trigger] clock_span(after, rise, set)).0
                && clock_span(before, rise, set).0 + (set - rise) == DAY_MS,
{
}

/// The night before sunrise is the night that followed the previous sunset:
/// an instant before sunrise (and no earlier than the previous sunset) reads
/// the same hour and quarter as the instant one day later, after sunset, on
/// a clock with the same sunrise and sunset.
pub proof fn law_night_before_sunrise_reads_as_night_after_sunset(now: int, rise: int, set: int)
    requires
        now < rise,
        now < set,
        set <= now + DAY_MS,
    ensures
        clock_label(now, rise, set) == clock_label(now + DAY_MS, rise, set),
        is_hitsuji(now, rise, set) == is_hitsuji(now + DAY_MS, rise, set),
{
    assert(now - (set - DAY_MS) == (now + DAY_MS) - set);
}

/// The temporal hours follow the twelve branches in their order: the daytime
/// hours are 卯 (the fourth branch) .. 申, the night hours 酉 .. 寅.
pub proof fn law_hours_follow_the_branches(i: int)
    requires
        0 <= i < 6,
    ensures
        day_hour_char(i) == branch_char(i + 3),
        night_hour_char(i) == branch_char((i + 9) % 12),
{
}

/// The label names the hour and the quarter in which `now` lies: where `k`
/// quarters of an hour (a twenty-fourth of the span) have passed since the
/// span began, and not `k + 1`, the hour is the `k / 4`-th of the span and
/// the quarter the `k % 4`-th of that hour.
pub proof fn law_clock_label_is_position(now: int, rise: int, set: int, h: int, q: int)
    requires
        clock_span(now, rise, set).0 > 0,
        clock_span(now, rise, set).1 <= now,
        0 <= h < 6,
        0 <= q < 4,
        (4 * h + q) * clock_span(now, rise, set).0 <= 24 * (now - clock_span(now, rise, set).1),
        24 * (now - clock_span(now, rise, set).1) < (4 * h + q + 1) * clock_span(now, rise, set).0,
    ensures
        clock_label(now, rise, set) == seq![
            if clock_span(now, rise, set).2 { day_hour_char(h) } else { night_hour_char(h) },
        ] + quarter_text(q),
{
    let (len, start, is_day) = clock_span(now, rise, set);
    let p = now - start;
    let k = 4 * h + q;
    assert((k + 1) * len == k * len + len) by (nonlinear_arith);
    vstd::arithmetic::div_mod::lemma_fundamental_div_mod_converse(24 * p, len, k, 24 * p - k * len);
    assert((24 * p) / len == k);
    assert(h * len <= 6 * p < (h + 1) * len) by (nonlinear_arith)
        requires
            k * len <= 24 * p,
            24 * p < (k + 1) * len,
            k == 4 * h + q,
            0 <= q < 4,
            len > 0,
    ;
    assert((h + 1) * len == h * len + len) by (nonlinear_arith);
    vstd::arithmetic::div_mod::lemma_fundamental_div_mod_converse(6 * p, len, h, 6 * p - h * len);
    assert((6 * p) / len == h);
    vstd::arithmetic::div_mod::lemma_fundamental_div_mod_converse(k, 4, h, q);
    assert(p >= 0);
    assert(hour_index(p, len) == h);
    assert(quarter_index(p, len) == q);
}

/// Every era begins with its first year, written 元年 (令和元年 on
/// 2019-05-01, 明治元年 on 1868-01-25).
pub proof fn law_era_begins_with_first_year(i: int)
    requires
        0 <= i < 5,
    ensures
        japanese_year_text(era_start(i).0, era_start(i).1, era_start(i).2) == era_name(i) + seq!['元', '年'],
{
    let (y, m, d) = era_start(i);
    assert(era_of(y, m, d) == i);
    assert(y - era_start(i).0 + 1 == 1);
    assert(era_year_numeral(1) == seq!['元']);
    assert(era_name(i) + seq!['元'] + seq!['年'] =~= era_name(i) + seq!['元', '年']);
}

/// The first day of era `i` as a date.
pub open spec fn era_first_day(i: int) -> CivilDate {
    CivilDate { year: era_start(i).0 as i32, month: era_start(i).1 as u32, day: era_start(i).2 as u32 }
}

/// A date is in an era or later exactly when it comes on or after the era's
/// first day in date order, and the era of a date is the newest era whose
/// first day has come by then (5 before Meiji).
pub proof fn law_era_is_newest_begun(date: CivilDate)
    ensures
        forall|i: int| 0 <= i < 5 ==> (#[trigger] in_era_or_later(date.year as int, date.month as int, date.day as int, i)
            <==> era_first_day(i).le(date)),
        ({
            let e = era_of(date.year as int, date.month as int, date.day as int);
            &&& 0 <= e <= 5
            &&& e < 5 ==> era_first_day(e).le(date)
            &&& forall|j: int| 0 <= j < e ==> !(#[trigger] era_first_day(j)).le(date)
        }),
        // the eras come one after the other
        forall|i: int| 0 <= i < 4 ==> (#[trigger] era_first_day(i + 1)).le(era_first_day(i)),
{
}

/// The current solar term is unique: two entries that both answer for the
/// same date are the same entry.
pub proof fn law_current_term_unique(date: CivilDate, es: Seq<SolarTermEntry>, k1: int, k2: int)
    requires
        is_current_entry(date, es, k1),
        is_current_entry(date, es, k2),
    ensures
        k1 == k2,
{
}

} // verus!
