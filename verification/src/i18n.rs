//! English renderings of the Japanese calendar texts, and the choice of
//! language.

use vstd::prelude::*;
use crate::date::CivilDate;
use crate::koyomi::{
    era_of, era_start, era_year_numeral, japanese_year, japanese_year_text, kanji_day_text, kanji_digit_char, kanji_numeral,
    kanji_place, year_cycle, branch_char, day_hour_char, era_name, era_name_str, hour_str, month_name, night_hour_char,
    quarter_str, quarter_text, stem_char, term_name,
};
use crate::text::{
    ascii_digits, ascii_lower, ascii_lowercase, chars_of, decimal, digit_char, decimal_string, has_prefix,
    is_ascii_digit, push_char, signed_decimal, str_eq, string_from_chars, strip_prefix, trim_end_char,
};

verus! {

// ─── Language ────────────────────────────────────────────────────

/// The language of the output.
#[derive(Debug, Clone, Copy, PartialEq, Eq, Structural)]
pub enum Lang {
    Ja,
    En,
}

/// The language that a name selects, after ASCII capitals are lowered.
pub open spec fn lang_of(lowered: Seq<char>) -> Option<Lang> {
    if lowered == "ja"@ || lowered == "japanese"@ {
        Some(Lang::Ja)
    } else if lowered == "en"@ || lowered == "english"@ {
        Some(Lang::En)
    } else {
        None
    }
}

/// The message for a language name that selects none.
pub open spec fn unsupported_language_message(lowered: Seq<char>) -> Seq<char> {
    "unsupported language: '"@ + lowered + "'  (supported: ja, en)"@
}

/// `s` with its ASCII capitals in lower case.
fn to_ascii_lower(s: &str) -> (r: String)
    ensures
        r@ == ascii_lowercase(s@),
{
    let cs = chars_of(s);
    let mut out = String::new();
    let mut i: usize = 0;
    while i < cs.len()
        invariant
            cs@ == s@,
            i <= cs.len(),
            out@ == ascii_lowercase(s@.subrange(0, i as int)),
        decreases cs.len() - i,
    {
        let c = cs[i];
        let l = if 'A' <= c && c <= 'Z' {
            ((c as u8) + 32) as char
        } else {
            c
        };
        proof {
            if 'A' <= c && c <= 'Z' {
                assert(((c as u8) + 32) as char == ((c as u32) + 32) as char);
            }
        }
        push_char(&mut out, l);
        proof {
            assert(ascii_lowercase(s@.subrange(0, i + 1)) =~= ascii_lowercase(s@.subrange(0, i as int)).push(ascii_lower(c)));
        }
        i = i + 1;
    }
    assert(s@.subrange(0, cs.len() as int) =~= s@);
    out
}

impl Lang {
    /// Parses a language name (ja, japanese, en, english; ASCII letters in
    /// any case).
    pub fn from_str(s: &str) -> (r: Result<Lang, String>)
        ensures
            match lang_of(ascii_lowercase(s@)) {
                Some(l) => r == Ok::<Lang, String>(l),
                None => r matches Err(m) && m@ == unsupported_language_message(ascii_lowercase(s@)),
            },
    {
        let lowered = to_ascii_lower(s);
        let l = lowered.as_str();
        if str_eq(l, "ja") || str_eq(l, "japanese") {
            Ok(Lang::Ja)
        } else if str_eq(l, "en") || str_eq(l, "english") {
            Ok(Lang::En)
        } else {
            let mut m = String::from_str("unsupported language: '");
            m.append(l);
            m.append("'  (supported: ja, en)");
            Err(m)
        }
    }
}

// ─── Kanji numerals to numbers ───────────────────────────────────

/// The value of a kanji digit (一 .. 九), or 0 for another character.
pub open spec fn kanji_digit_value(c: char) -> int {
    if c == '一' { 1 } else if c == '二' { 2 } else if c == '三' { 3 } else if c == '四' { 4 }
    else if c == '五' { 5 } else if c == '六' { 6 } else if c == '七' { 7 } else if c == '八' { 8 }
    else if c == '九' { 9 } else { 0 }
}

/// The value of a kanji unit (千, 百, 十), or 0 for another character.
pub open spec fn kanji_unit_value(c: char) -> int {
    if c == '千' { 1000 } else if c == '百' { 100 } else if c == '十' { 10 } else { 0 }
}

/// One step of reading a kanji numeral: a unit adds the pending digit times
/// the unit (the unit alone when no digit is pending) to the total; a digit
/// becomes the pending digit; any other character is passed over.
pub open spec fn kanji_step(state: (int, int), c: char) -> (int, int) {
    let (total, pending) = state;
    if kanji_unit_value(c) > 0 {
        (total + if pending == 0 { kanji_unit_value(c) } else { pending * kanji_unit_value(c) }, 0)
    } else if kanji_digit_value(c) > 0 {
        (total, kanji_digit_value(c))
    } else {
        (total, pending)
    }
}

/// The state after reading `s` from the left: the total and the pending
/// digit.
pub open spec fn kanji_scan(s: Seq<char>) -> (int, int)
    decreases s.len(),
{
    if s.len() == 0 {
        (0, 0)
    } else {
        kanji_step(kanji_scan(s.drop_last()), s.last())
    }
}

/// The number that a kanji numeral reads as (元 reads as one).
pub open spec fn kanji_value(s: Seq<char>) -> int {
    if s == seq!['元'] {
        1
    } else {
        kanji_scan(s).0 + kanji_scan(s).1
    }
}

proof fn lemma_kanji_scan_bounds(s: Seq<char>)
    ensures
        0 <= kanji_scan(s).0 <= 9000 * s.len(),
        0 <= kanji_scan(s).1 <= 9,
    decreases s.len(),
{
    if s.len() > 0 {
        lemma_kanji_scan_bounds(s.drop_last());
        let (t, p) = kanji_scan(s.drop_last());
        assert(p * kanji_unit_value(s.last()) <= 9000) by (nonlinear_arith)
            requires
                0 <= p <= 9,
                0 <= kanji_unit_value(s.last()) <= 1000,
        ;
    }
}

/// Reading on never lowers the total: the total after a prefix is at most
/// the total after the whole numeral.
proof fn lemma_kanji_total_grows(s: Seq<char>, i: int)
    requires
        0 <= i <= s.len(),
    ensures
        kanji_scan(s.subrange(0, i)).0 <= kanji_scan(s).0,
    decreases s.len() - i,
{
    if i < s.len() {
        lemma_kanji_total_grows(s, i + 1);
        let t = s.subrange(0, i + 1);
        assert(t.drop_last() =~= s.subrange(0, i));
        lemma_kanji_scan_bounds(s.subrange(0, i));
    } else {
        assert(s.subrange(0, i) =~= s);
    }
}

fn kanji_digit_of(c: char) -> (r: u32)
    ensures
        r == kanji_digit_value(c),
{
    if c == '一' { 1 } else if c == '二' { 2 } else if c == '三' { 3 } else if c == '四' { 4 }
    else if c == '五' { 5 } else if c == '六' { 6 } else if c == '七' { 7 } else if c == '八' { 8 }
    else if c == '九' { 9 } else { 0 }
}

fn kanji_unit_of(c: char) -> (r: u32)
    ensures
        r == kanji_unit_value(c),
{
    if c == '千' { 1000 } else if c == '百' { 100 } else if c == '十' { 10 } else { 0 }
}

/// The number that the kanji numeral `cs` reads as.
fn kanji_chars_to_u32(cs: &Vec<char>) -> (r: u32)
    requires
        kanji_value(cs@) <= u32::MAX,
    ensures
        r == kanji_value(cs@),
{
    if cs.len() == 1 && cs[0] == '元' {
        assert(cs@ =~= seq!['元']);
        return 1;
    }
    proof {
        if cs@ == seq!['元'] {
            assert(cs@[0] == '元');
        }
    }
    let mut total: u32 = 0;
    let mut pending: u32 = 0;
    let mut i: usize = 0;
    while i < cs.len()
        invariant
            cs@ != seq!['元'],
            kanji_scan(cs@).0 + kanji_scan(cs@).1 <= u32::MAX,
            i <= cs.len(),
            (total as int, pending as int) == kanji_scan(cs@.subrange(0, i as int)),
        decreases cs.len() - i,
    {
        proof {
            lemma_kanji_scan_bounds(cs@.subrange(0, i as int));
            lemma_kanji_scan_bounds(cs@);
            lemma_kanji_total_grows(cs@, i + 1);
            assert(cs@.subrange(0, i + 1).drop_last() =~= cs@.subrange(0, i as int));
        }
        let c = cs[i];
        let unit = kanji_unit_of(c);
        if unit > 0 {
            proof {
                assert(pending * unit <= 9000) by (nonlinear_arith)
                    requires
                        pending <= 9,
                        unit <= 1000,
                ;
            }
            total = total + if pending == 0 { unit } else { pending * unit };
            pending = 0;
        } else {
            let d = kanji_digit_of(c);
            if d > 0 {
                pending = d;
            }
        }
        i = i + 1;
    }
    proof {
        lemma_kanji_scan_bounds(cs@);
        assert(cs@.subrange(0, cs.len() as int) =~= cs@);
    }
    total + pending
}

/// The number that a kanji numeral reads as (元 for one; 三十一 for 31;
/// 二百 for 200). The number must fit in 32 bits.
pub fn kanji_num_to_u32(s: &str) -> (r: u32)
    requires
        kanji_value(s@) <= u32::MAX,
    ensures
        r == kanji_value(s@),
{
    let cs = chars_of(s);
    kanji_chars_to_u32(&cs)
}

// ─── Era years ───────────────────────────────────────────────────

/// The romanized name of era `i` (0 for Reiwa .. 4 for Meiji).
pub open spec fn era_name_en(i: int) -> Seq<char> {
    if i == 0 { "Reiwa"@ } else if i == 1 { "Heisei"@ } else if i == 2 { "Showa"@ }
    else if i == 3 { "Taisho"@ } else { "Meiji"@ }
}

fn era_name_en_str(i: usize) -> (r: &'static str)
    requires
        i < 5,
    ensures
        r@ == era_name_en(i as int),
{
    match i {
        0 => "Reiwa",
        1 => "Heisei",
        2 => "Showa",
        3 => "Taisho",
        _ => "Meiji",
    }
}

/// The first era (from the newest) whose name begins `s`, or 5 for none.
pub open spec fn era_prefix_of(s: Seq<char>) -> int {
    if has_prefix(s, era_name(0)) { 0 }
    else if has_prefix(s, era_name(1)) { 1 }
    else if has_prefix(s, era_name(2)) { 2 }
    else if has_prefix(s, era_name(3)) { 3 }
    else if has_prefix(s, era_name(4)) { 4 }
    else { 5 }
}

/// The year count of a Japanese era year: what follows the era's name,
/// without the 年 at its end.
pub open spec fn era_count_text(s: Seq<char>) -> Seq<char> {
    trim_end_char(s.skip(era_name(era_prefix_of(s)).len() as int), '年')
}

/// The English form of a Japanese era year: the era's romanized name and the
/// year as a number (令和八年 → Reiwa 8); without an era name, the ASCII
/// digits of the text, or the text itself when it has none.
pub open spec fn era_en_text(s: Seq<char>) -> Seq<char> {
    let i = era_prefix_of(s);
    if i < 5 {
        era_name_en(i) + seq![' '] + decimal(kanji_value(era_count_text(s)) as nat)
    } else if ascii_digits(s).len() > 0 {
        ascii_digits(s)
    } else {
        s
    }
}

/// The ASCII digits of `s`, in order.
fn digits_of(s: &str) -> (r: Vec<char>)
    ensures
        r@ == ascii_digits(s@),
{
    let cs = chars_of(s);
    let mut out: Vec<char> = Vec::new();
    let mut i: usize = 0;
    while i < cs.len()
        invariant
            cs@ == s@,
            i <= cs.len(),
            out@ == ascii_digits(s@.subrange(0, i as int)),
        decreases cs.len() - i,
    {
        proof {
            assert(s@.subrange(0, i + 1).drop_last() =~= s@.subrange(0, i as int));
        }
        let c = cs[i];
        if '0' <= c && c <= '9' {
            out.push(c);
        }
        proof {
            assert(out@ =~= ascii_digits(s@.subrange(0, i + 1)));
        }
        i = i + 1;
    }
    assert(s@.subrange(0, cs.len() as int) =~= s@);
    out
}

/// English form of a Japanese era year (令和八年 → "Reiwa 8", 平成三十一年 →
/// "Heisei 31"); for a Western year (1868年) its digits.
pub fn era_en(ja_year: &str) -> (r: String)
    requires
        era_prefix_of(ja_year@) < 5 ==> kanji_value(era_count_text(ja_year@)) <= u32::MAX,
    ensures
        r@ == era_en_text(ja_year@),
{
    let mut i: usize = 0;
    while i < 5
        invariant
            i <= 5,
            era_prefix_of(ja_year@) < 5 ==> kanji_value(era_count_text(ja_year@)) <= u32::MAX,
            forall|j: int| 0 <= j < i ==> !has_prefix(ja_year@, #[trigger] era_name(j)),
        decreases 5 - i,
    {
        let ja = era_name_str(i);
        match strip_prefix(ja_year, ja) {
            Some(rest) => {
                let mut cs = chars_of(rest);
                let ghost full = cs@;
                proof {
                    assert(rest@ =~= ja_year@.skip(era_name(i as int).len() as int));
                    assert(era_prefix_of(ja_year@) == i);
                }
                while cs.len() > 0 && cs[cs.len() - 1] == '年'
                    invariant
                        trim_end_char(cs@, '年') == trim_end_char(full, '年'),
                    decreases cs.len(),
                {
                    proof {
                        assert(cs@.drop_last() =~= cs@.subrange(0, cs.len() - 1));
                    }
                    cs.pop();
                }
                assert(cs@ == trim_end_char(full, '年'));
                let n = kanji_chars_to_u32(&cs);
                let mut out = String::from_str(era_name_en_str(i));
                proof {
                    reveal_strlit(" ");
                    assert(era_prefix_of(ja_year@) == i);
                }
                out.append(" ");
                out.append(decimal_string(n as u64).as_str());
                return out;
            },
            None => {},
        }
        i = i + 1;
    }
    let digits = digits_of(ja_year);
    if digits.len() > 0 {
        string_from_chars(&digits)
    } else {
        String::from_str(ja_year)
    }
}


// ─── Month names ─────────────────────────────────────────────────

/// The romanized traditional name of month `i + 1`, with the month.
pub open spec fn month_name_en_of(i: int) -> Seq<char> {
    if i == 0 {
        "Mutsuki (Jan)"@
    } else if i == 1 {
        "Kisaragi (Feb)"@
    } else if i == 2 {
        "Yayoi (Mar)"@
    } else if i == 3 {
        "Uzuki (Apr)"@
    } else if i == 4 {
        "Satsuki (May)"@
    } else if i == 5 {
        "Minazuki (Jun)"@
    } else if i == 6 {
        "Fumizuki (Jul)"@
    } else if i == 7 {
        "Hazuki (Aug)"@
    } else if i == 8 {
        "Nagatsuki (Sep)"@
    } else if i == 9 {
        "Kannazuki (Oct)"@
    } else if i == 10 {
        "Shimotsuki (Nov)"@
    } else {
        "Shiwasu (Dec)"@
    }
}

/// The first month (0-based) whose traditional name is `s`, or 12.
pub open spec fn month_index_of(s: Seq<char>) -> int {
    month_index_from(s, 0)
}

pub open spec fn month_index_from(s: Seq<char>, i: int) -> int
    decreases 12 - i,
{
    if i >= 12 || i < 0 {
        12
    } else if s == month_name(i + 1) {
        i
    } else {
        month_index_from(s, i + 1)
    }
}

/// The English form of a traditional month name (睦月 → "Mutsuki (Jan)").
pub open spec fn month_name_en_text(s: Seq<char>) -> Seq<char> {
    let i = month_index_of(s);
    if i < 12 { month_name_en_of(i) } else { "(unknown month)"@ }
}

/// English form of a traditional month name (睦月 → "Mutsuki (Jan)");
/// "(unknown month)" for any other text.
pub fn month_name_en(ja: &str) -> (r: &'static str)
    ensures
        r@ == month_name_en_text(ja@),
{
    proof {
        reveal_with_fuel(month_index_from, 13);
    }
    if str_eq(ja, "睦月") {
        "Mutsuki (Jan)"
    } else if str_eq(ja, "如月") {
        "Kisaragi (Feb)"
    } else if str_eq(ja, "弥生") {
        "Yayoi (Mar)"
    } else if str_eq(ja, "卯月") {
        "Uzuki (Apr)"
    } else if str_eq(ja, "皐月") {
        "Satsuki (May)"
    } else if str_eq(ja, "水無月") {
        "Minazuki (Jun)"
    } else if str_eq(ja, "文月") {
        "Fumizuki (Jul)"
    } else if str_eq(ja, "葉月") {
        "Hazuki (Aug)"
    } else if str_eq(ja, "長月") {
        "Nagatsuki (Sep)"
    } else if str_eq(ja, "神無月") {
        "Kannazuki (Oct)"
    } else if str_eq(ja, "霜月") {
        "Shimotsuki (Nov)"
    } else if str_eq(ja, "師走") {
        "Shiwasu (Dec)"
    } else {
        "(unknown month)"
    }
}

// ─── Solar terms ─────────────────────────────────────────────────

/// The English name of solar term `i` (0 for Minor Cold .. 23 for Winter
/// Solstice).
pub open spec fn term_name_en_of(i: int) -> Seq<char> {
    if i == 0 {
        "Minor Cold"@
    } else if i == 1 {
        "Major Cold"@
    } else if i == 2 {
        "Start of Spring"@
    } else if i == 3 {
        "Rain Water"@
    } else if i == 4 {
        "Awakening of Insects"@
    } else if i == 5 {
        "Vernal Equinox"@
    } else if i == 6 {
        "Clear and Bright"@
    } else if i == 7 {
        "Grain Rain"@
    } else if i == 8 {
        "Start of Summer"@
    } else if i == 9 {
        "Grain Buds"@
    } else if i == 10 {
        "Grain in Ear"@
    } else if i == 11 {
        "Summer Solstice"@
    } else if i == 12 {
        "Minor Heat"@
    } else if i == 13 {
        "Major Heat"@
    } else if i == 14 {
        "Start of Autumn"@
    } else if i == 15 {
        "End of Heat"@
    } else if i == 16 {
        "White Dew"@
    } else if i == 17 {
        "Autumnal Equinox"@
    } else if i == 18 {
        "Cold Dew"@
    } else if i == 19 {
        "Frost's Descent"@
    } else if i == 20 {
        "Start of Winter"@
    } else if i == 21 {
        "Minor Snow"@
    } else if i == 22 {
        "Major Snow"@
    } else {
        "Winter Solstice"@
    }
}

/// The first solar term whose name is `s`, or 24.
pub open spec fn term_index_from(s: Seq<char>, i: int) -> int
    decreases 24 - i,
{
    if i >= 24 || i < 0 {
        24
    } else if s == term_name(i) {
        i
    } else {
        term_index_from(s, i + 1)
    }
}

/// The English name of a solar term (夏至 → "Summer Solstice").
pub open spec fn solar_term_en_text(s: Seq<char>) -> Seq<char> {
    let i = term_index_from(s, 0);
    if i < 24 { term_name_en_of(i) } else { "(unknown term)"@ }
}

/// English name of a solar term (夏至 → "Summer Solstice"); "(unknown
/// term)" for any other text.
pub fn solar_term_en(ja: &str) -> (r: &'static str)
    ensures
        r@ == solar_term_en_text(ja@),
{
    proof {
        reveal_with_fuel(term_index_from, 25);
    }
    if str_eq(ja, "小寒") {
        "Minor Cold"
    } else if str_eq(ja, "大寒") {
        "Major Cold"
    } else if str_eq(ja, "立春") {
        "Start of Spring"
    } else if str_eq(ja, "雨水") {
        "Rain Water"
    } else if str_eq(ja, "啓蟄") {
        "Awakening of Insects"
    } else if str_eq(ja, "春分") {
        "Vernal Equinox"
    } else if str_eq(ja, "清明") {
        "Clear and Bright"
    } else if str_eq(ja, "穀雨") {
        "Grain Rain"
    } else if str_eq(ja, "立夏") {
        "Start of Summer"
    } else if str_eq(ja, "小満") {
        "Grain Buds"
    } else if str_eq(ja, "芒種") {
        "Grain in Ear"
    } else if str_eq(ja, "夏至") {
        "Summer Solstice"
    } else if str_eq(ja, "小暑") {
        "Minor Heat"
    } else if str_eq(ja, "大暑") {
        "Major Heat"
    } else if str_eq(ja, "立秋") {
        "Start of Autumn"
    } else if str_eq(ja, "処暑") {
        "End of Heat"
    } else if str_eq(ja, "白露") {
        "White Dew"
    } else if str_eq(ja, "秋分") {
        "Autumnal Equinox"
    } else if str_eq(ja, "寒露") {
        "Cold Dew"
    } else if str_eq(ja, "霜降") {
        "Frost's Descent"
    } else if str_eq(ja, "立冬") {
        "Start of Winter"
    } else if str_eq(ja, "小雪") {
        "Minor Snow"
    } else if str_eq(ja, "大雪") {
        "Major Snow"
    } else if str_eq(ja, "冬至") {
        "Winter Solstice"
    } else {
        "(unknown term)"
    }
}


// ─── Law: the English names of the solar terms tell them apart ───

/// A key that tells the English term names apart: the length, the second
/// character and the third character from the end.
pub open spec fn term_en_key(s: Seq<char>) -> (int, char, char) {
    (s.len() as int, s[1], s[s.len() - 3])
}

/// The solar term whose English name has the key of `s`, or 24.
pub open spec fn term_en_index(s: Seq<char>) -> int {
    let k = term_en_key(s);
    if k == (10int, 'i', 'o') { 0 }
    else if k == (10int, 'a', 'o') { 1 }
    else if k == (15int, 't', 'i') { 2 }
    else if k == (10int, 'a', 't') { 3 }
    else if k == (20int, 'w', 'c') { 4 }
    else if k == (14int, 'e', 'n') { 5 }
    else if k == (16int, 'l', 'g') { 6 }
    else if k == (10int, 'r', 'a') { 7 }
    else if k == (15int, 't', 'm') { 8 }
    else if k == (10int, 'r', 'u') { 9 }
    else if k == (12int, 'r', 'E') { 10 }
    else if k == (15int, 'u', 'i') { 11 }
    else if k == (10int, 'i', 'e') { 12 }
    else if k == (10int, 'a', 'e') { 13 }
    else if k == (15int, 't', 'u') { 14 }
    else if k == (11int, 'n', 'e') { 15 }
    else if k == (9int, 'h', 'D') { 16 }
    else if k == (16int, 'u', 'n') { 17 }
    else if k == (8int, 'o', 'D') { 18 }
    else if k == (15int, 'r', 'e') { 19 }
    else if k == (15int, 't', 't') { 20 }
    else if k == (10int, 'i', 'n') { 21 }
    else if k == (10int, 'a', 'n') { 22 }
    else if k == (15int, 'i', 'i') { 23 }
    else { 24 }
}

proof fn lemma_term_en_index(i: int)
    requires
        0 <= i < 24,
    ensures
        term_en_index(term_name_en_of(i)) == i,
        term_en_index("(unknown term)"@) == 24,
{
    reveal_strlit("Minor Cold");
    reveal_strlit("Major Cold");
    reveal_strlit("Start of Spring");
    reveal_strlit("Rain Water");
    reveal_strlit("Awakening of Insects");
    reveal_strlit("Vernal Equinox");
    reveal_strlit("Clear and Bright");
    reveal_strlit("Grain Rain");
    reveal_strlit("Start of Summer");
    reveal_strlit("Grain Buds");
    reveal_strlit("Grain in Ear");
    reveal_strlit("Summer Solstice");
    reveal_strlit("Minor Heat");
    reveal_strlit("Major Heat");
    reveal_strlit("Start of Autumn");
    reveal_strlit("End of Heat");
    reveal_strlit("White Dew");
    reveal_strlit("Autumnal Equinox");
    reveal_strlit("Cold Dew");
    reveal_strlit("Frost's Descent");
    reveal_strlit("Start of Winter");
    reveal_strlit("Minor Snow");
    reveal_strlit("Major Snow");
    reveal_strlit("Winter Solstice");
    reveal_strlit("(unknown term)");
}

/// The twenty-four English names of the solar terms are distinct, and none
/// of them is the text for an unknown term: the English name of a day's
/// solar term always tells which term it is.
pub proof fn law_solar_term_en_names_distinct(i: int, j: int)
    requires
        0 <= i < 24,
        0 <= j < 24,
    ensures
        term_name_en_of(i) == term_name_en_of(j) ==> i == j,
        term_name_en_of(i) != "(unknown term)"@,
        solar_term_en_text(term_name(i)) == term_name_en_of(i),
{
    lemma_term_en_index(i);
    lemma_term_en_index(j);
    law_solar_term_en_reads_term_name(i);
}


// ─── Temporal hours ──────────────────────────────────────────────

/// The twelve temporal hours in clock order, 卯 (from sunrise) .. 寅.
pub open spec fn jikoku_char(i: int) -> char {
    if i < 6 { day_hour_char(i) } else { night_hour_char(i - 6) }
}

/// The romanized name of temporal hour `i`.
pub open spec fn jikoku_name_en(i: int) -> Seq<char> {
    if i == 0 {
        "U"@
    } else if i == 1 {
        "Tatsu"@
    } else if i == 2 {
        "Mi"@
    } else if i == 3 {
        "Uma"@
    } else if i == 4 {
        "Hitsuji"@
    } else if i == 5 {
        "Saru"@
    } else if i == 6 {
        "Tori"@
    } else if i == 7 {
        "Inu"@
    } else if i == 8 {
        "I"@
    } else if i == 9 {
        "Ne"@
    } else if i == 10 {
        "Ushi"@
    } else {
        "Tora"@
    }
}

/// The romanized count of quarter `q` of an hour.
pub open spec fn quarter_name_en(i: int) -> Seq<char> {
    if i == 0 {
        "Hitotsu"@
    } else if i == 1 {
        "Futatsu"@
    } else if i == 2 {
        "Mitsu"@
    } else {
        "Yotsu"@
    }
}

/// The first temporal hour whose character begins `s`, or 12.
pub open spec fn jikoku_index_from(s: Seq<char>, i: int) -> int
    decreases 12 - i,
{
    if i >= 12 || i < 0 {
        12
    } else if has_prefix(s, seq![jikoku_char(i)]) {
        i
    } else {
        jikoku_index_from(s, i + 1)
    }
}

/// The first quarter whose text is `s`, or 4.
pub open spec fn quarter_index_from(s: Seq<char>, q: int) -> int
    decreases 4 - q,
{
    if q >= 4 || q < 0 {
        4
    } else if s == quarter_text(q) {
        q
    } else {
        quarter_index_from(s, q + 1)
    }
}

/// The English form of a temporal-hour label (未三つ → "Hitsuji Mitsu"): the
/// hour's name, followed by the quarter's where the rest is a quarter; the
/// text itself where it does not begin with an hour.
pub open spec fn jikoku_en_text(s: Seq<char>) -> Seq<char> {
    let i = jikoku_index_from(s, 0);
    if i < 12 {
        let q = quarter_index_from(s.skip(1), 0);
        if q < 4 {
            jikoku_name_en(i) + seq![' '] + quarter_name_en(q)
        } else {
            jikoku_name_en(i)
        }
    } else {
        s
    }
}

fn jikoku_name_en_str(i: usize) -> (r: &'static str)
    requires
        i < 12,
    ensures
        r@ == jikoku_name_en(i as int),
{
    match i {
        0 => "U",
        1 => "Tatsu",
        2 => "Mi",
        3 => "Uma",
        4 => "Hitsuji",
        5 => "Saru",
        6 => "Tori",
        7 => "Inu",
        8 => "I",
        9 => "Ne",
        10 => "Ushi",
        _ => "Tora",
    }
}

fn quarter_name_en_str(i: usize) -> (r: &'static str)
    requires
        i < 4,
    ensures
        r@ == quarter_name_en(i as int),
{
    match i {
        0 => "Hitotsu",
        1 => "Futatsu",
        2 => "Mitsu",
        _ => "Yotsu",
    }
}

/// English form of a temporal-hour label (未三つ → "Hitsuji Mitsu",
/// 子四つ → "Ne Yotsu").
pub fn jikoku_en(ja: &str) -> (r: String)
    ensures
        r@ == jikoku_en_text(ja@),
{
    proof {
        reveal_with_fuel(jikoku_index_from, 13);
        reveal_with_fuel(quarter_index_from, 5);
    }
    let mut i: usize = 0;
    while i < 12
        invariant
            i <= 12,
            jikoku_index_from(ja@, 0) == jikoku_index_from(ja@, i as int),
        decreases 12 - i,
    {
        let hour = hour_str(i < 6, if i < 6 { i as i64 } else { (i - 6) as i64 });
        proof {
            assert(seq![jikoku_char(i as int)] == hour@);
        }
        match strip_prefix(ja, hour) {
            Some(rest) => {
                proof {
                    assert(rest@ =~= ja@.skip(1));
                }
                let mut out = String::from_str(jikoku_name_en_str(i));
                assert(jikoku_index_from(ja@, i as int) == i);
                let mut q: usize = 0;
                while q < 4
                    invariant
                        q <= 4,
                        i < 12,
                        jikoku_index_from(ja@, 0) == i,
                        rest@ == ja@.skip(1),
                        out@ == jikoku_name_en(i as int),
                        quarter_index_from(rest@, 0) == quarter_index_from(rest@, q as int),
                    decreases 4 - q,
                {
                    if str_eq(rest, quarter_str(q as i64)) {
                        proof {
                            reveal_strlit(" ");
                        }
                        out.append(" ");
                        out.append(quarter_name_en_str(q));
                        return out;
                    }
                    q = q + 1;
                }
                return out;
            },
            None => {},
        }
        i = i + 1;
    }
    String::from_str(ja)
}

// ─── The sexagenary cycle ────────────────────────────────────────

/// The romanized names of the ten stems.
pub open spec fn stem_name_en(i: int) -> Seq<char> {
    if i == 0 {
        "Kinoe"@
    } else if i == 1 {
        "Kinoto"@
    } else if i == 2 {
        "Hinoe"@
    } else if i == 3 {
        "Hinoto"@
    } else if i == 4 {
        "Tsuchinoe"@
    } else if i == 5 {
        "Tsuchinoto"@
    } else if i == 6 {
        "Kanoe"@
    } else if i == 7 {
        "Kanoto"@
    } else if i == 8 {
        "Mizunoe"@
    } else {
        "Mizunoto"@
    }
}

/// The romanized names of the twelve branches.
pub open spec fn branch_name_en(i: int) -> Seq<char> {
    if i == 0 {
        "Ne"@
    } else if i == 1 {
        "Ushi"@
    } else if i == 2 {
        "Tora"@
    } else if i == 3 {
        "U"@
    } else if i == 4 {
        "Tatsu"@
    } else if i == 5 {
        "Mi"@
    } else if i == 6 {
        "Uma"@
    } else if i == 7 {
        "Hitsuji"@
    } else if i == 8 {
        "Saru"@
    } else if i == 9 {
        "Tori"@
    } else if i == 10 {
        "Inu"@
    } else {
        "I"@
    }
}

/// The index of the stem `c`, or 10 for another character.
pub open spec fn stem_index_from(c: char, i: int) -> int
    decreases 10 - i,
{
    if i >= 10 || i < 0 {
        10
    } else if stem_char(i) == c {
        i
    } else {
        stem_index_from(c, i + 1)
    }
}

/// The index of the branch `c`, or 12 for another character.
pub open spec fn branch_index_from(c: char, i: int) -> int
    decreases 12 - i,
{
    if i >= 12 || i < 0 {
        12
    } else if branch_char(i) == c {
        i
    } else {
        branch_index_from(c, i + 1)
    }
}

/// The English form of a two-character stem and branch (丙午 →
/// "Hinoe-Uma"), a character that is neither kept as it is; any other text
/// unchanged.
pub open spec fn eto_en_text(s: Seq<char>) -> Seq<char> {
    if s.len() == 2 {
        let si = stem_index_from(s[0], 0);
        let bi = branch_index_from(s[1], 0);
        (if si < 10 { stem_name_en(si) } else { seq![s[0]] }) + seq!['-'] + (if bi < 12 {
            branch_name_en(bi)
        } else {
            seq![s[1]]
        })
    } else {
        s
    }
}

fn stem_char_of(i: usize) -> (r: char)
    requires
        i < 10,
    ensures
        r == stem_char(i as int),
{
    match i {
        0 => '甲',
        1 => '乙',
        2 => '丙',
        3 => '丁',
        4 => '戊',
        5 => '己',
        6 => '庚',
        7 => '辛',
        8 => '壬',
        _ => '癸',
    }
}

fn branch_char_of(i: usize) -> (r: char)
    requires
        i < 12,
    ensures
        r == branch_char(i as int),
{
    match i {
        0 => '子',
        1 => '丑',
        2 => '寅',
        3 => '卯',
        4 => '辰',
        5 => '巳',
        6 => '午',
        7 => '未',
        8 => '申',
        9 => '酉',
        10 => '戌',
        _ => '亥',
    }
}

fn stem_name_en_str(i: usize) -> (r: &'static str)
    requires
        i < 10,
    ensures
        r@ == stem_name_en(i as int),
{
    match i {
        0 => "Kinoe",
        1 => "Kinoto",
        2 => "Hinoe",
        3 => "Hinoto",
        4 => "Tsuchinoe",
        5 => "Tsuchinoto",
        6 => "Kanoe",
        7 => "Kanoto",
        8 => "Mizunoe",
        _ => "Mizunoto",
    }
}

fn branch_name_en_str(i: usize) -> (r: &'static str)
    requires
        i < 12,
    ensures
        r@ == branch_name_en(i as int),
{
    match i {
        0 => "Ne",
        1 => "Ushi",
        2 => "Tora",
        3 => "U",
        4 => "Tatsu",
        5 => "Mi",
        6 => "Uma",
        7 => "Hitsuji",
        8 => "Saru",
        9 => "Tori",
        10 => "Inu",
        _ => "I",
    }
}

/// Appends the English name of stem `c` (the character itself if `c` is no
/// stem).
fn push_stem_en(out: &mut String, c: char)
    ensures
        final(out)@ == old(out)@ + (if stem_index_from(c, 0) < 10 {
            stem_name_en(stem_index_from(c, 0))
        } else {
            seq![c]
        }),
{
    proof {
        reveal_with_fuel(stem_index_from, 11);
    }
    let mut i: usize = 0;
    while i < 10
        invariant
            i <= 10,
            out@ == old(out)@,
            stem_index_from(c, 0) == stem_index_from(c, i as int),
        decreases 10 - i,
    {
        if stem_char_of(i) == c {
            out.append(stem_name_en_str(i));
            return;
        }
        i = i + 1;
    }
    push_char(out, c);
}

/// Appends the English name of branch `c` (the character itself if `c` is no
/// branch).
fn push_branch_en(out: &mut String, c: char)
    ensures
        final(out)@ == old(out)@ + (if branch_index_from(c, 0) < 12 {
            branch_name_en(branch_index_from(c, 0))
        } else {
            seq![c]
        }),
{
    proof {
        reveal_with_fuel(branch_index_from, 13);
    }
    let mut i: usize = 0;
    while i < 12
        invariant
            i <= 12,
            out@ == old(out)@,
            branch_index_from(c, 0) == branch_index_from(c, i as int),
        decreases 12 - i,
    {
        if branch_char_of(i) == c {
            out.append(branch_name_en_str(i));
            return;
        }
        i = i + 1;
    }
    push_char(out, c);
}

/// English form of a stem and branch (丙午 → "Hinoe-Uma", 癸亥 →
/// "Mizunoto-I").
pub fn eto_en(ja: &str) -> (r: String)
    ensures
        r@ == eto_en_text(ja@),
{
    let cs = chars_of(ja);
    if cs.len() == 2 {
        let mut out = String::new();
        push_stem_en(&mut out, cs[0]);
        proof {
            reveal_strlit("-");
        }
        out.append("-");
        push_branch_en(&mut out, cs[1]);
        proof {
            assert(out@ =~= eto_en_text(ja@));
        }
        out
    } else {
        String::from_str(ja)
    }
}


// ─── Fixed texts ─────────────────────────────────────────────────

/// The fixed texts of the output in one language.
pub struct Texts {
    pub oyatsu: &'static str,
    pub sun_info_fmt: &'static str,
    pub sunrise_label: &'static str,
    pub sunset_label: &'static str,
    pub holiday: &'static str,
    pub error_no_sun: &'static str,
    pub error_invalid_loc: &'static str,
    pub error_unknown_arg: &'static str,
    pub error_missing_lat: &'static str,
    pub error_missing_lon: &'static str,
    pub error_bad_lat: &'static str,
    pub error_bad_lon: &'static str,
    pub error_prefix: &'static str,
}

/// The Japanese texts.
pub open spec fn texts_ja() -> Texts {
    Texts {
        oyatsu: "おやつ",
        sun_info_fmt: "",
        sunrise_label: "日出",
        sunset_label: "日入",
        holiday: "休日",
        error_no_sun: "エラー: 指定された緯度経度では日の出・日の入りを計算できませんでした(極夜・白夜の可能性があります)。",
        error_invalid_loc: "エラー: 無効な緯度または経度です",
        error_unknown_arg: "不明な引数です",
        error_missing_lat: "-lat には数値を指定してください",
        error_missing_lon: "-lon には数値を指定してください",
        error_bad_lat: "緯度として解釈できません",
        error_bad_lon: "経度として解釈できません",
        error_prefix: "エラー",
    }
}

/// The English texts.
pub open spec fn texts_en() -> Texts {
    Texts {
        oyatsu: "Oyatsu (snack time!)",
        sun_info_fmt: "",
        sunrise_label: "Sunrise",
        sunset_label: "Sunset",
        holiday: "Holiday",
        error_no_sun: "Error: could not compute sunrise/sunset (polar night or midnight sun?).",
        error_invalid_loc: "Error: invalid latitude or longitude",
        error_unknown_arg: "unknown argument",
        error_missing_lat: "--lat requires a numeric value",
        error_missing_lon: "--lon requires a numeric value",
        error_bad_lat: "cannot parse latitude",
        error_bad_lon: "cannot parse longitude",
        error_prefix: "Error",
    }
}

/// The fixed texts of `lang`.
pub fn texts(lang: Lang) -> (r: &'static Texts)
    ensures
        *r == (match lang {
            Lang::Ja => texts_ja(),
            Lang::En => texts_en(),
        }),
{
    match lang {
        Lang::Ja => &Texts {
            oyatsu: "おやつ",
            sun_info_fmt: "",
            sunrise_label: "日出",
            sunset_label: "日入",
            holiday: "休日",
            error_no_sun: "エラー: 指定された緯度経度では日の出・日の入りを計算できませんでした(極夜・白夜の可能性があります)。",
            error_invalid_loc: "エラー: 無効な緯度または経度です",
            error_unknown_arg: "不明な引数です",
            error_missing_lat: "-lat には数値を指定してください",
            error_missing_lon: "-lon には数値を指定してください",
            error_bad_lat: "緯度として解釈できません",
            error_bad_lon: "経度として解釈できません",
            error_prefix: "エラー",
        },
        Lang::En => &Texts {
            oyatsu: "Oyatsu (snack time!)",
            sun_info_fmt: "",
            sunrise_label: "Sunrise",
            sunset_label: "Sunset",
            holiday: "Holiday",
            error_no_sun: "Error: could not compute sunrise/sunset (polar night or midnight sun?).",
            error_invalid_loc: "Error: invalid latitude or longitude",
            error_unknown_arg: "unknown argument",
            error_missing_lat: "--lat requires a numeric value",
            error_missing_lon: "--lon requires a numeric value",
            error_bad_lat: "cannot parse latitude",
            error_bad_lon: "cannot parse longitude",
            error_prefix: "Error",
        },
    }
}


// ─── Day ordinals ────────────────────────────────────────────────

/// The English ordinal suffix of `n`: th for 11, 12, 13 (and their
/// hundreds), otherwise st, nd, rd after 1, 2, 3 and th after other digits.
pub open spec fn ordinal_suffix(n: int) -> Seq<char> {
    if 11 <= n % 100 <= 13 {
        seq!['t', 'h']
    } else if n % 10 == 1 {
        seq!['s', 't']
    } else if n % 10 == 2 {
        seq!['n', 'd']
    } else if n % 10 == 3 {
        seq!['r', 'd']
    } else {
        seq!['t', 'h']
    }
}

/// A day of the month as an English ordinal (1st, 2nd, 11th, 22nd, 31st).
pub fn ordinal_day_en(day: u32) -> (r: String)
    ensures
        r@ == decimal(day as nat) + ordinal_suffix(day as int),
{
    proof {
        reveal_strlit("th");
        reveal_strlit("st");
        reveal_strlit("nd");
        reveal_strlit("rd");
    }
    let mut s = decimal_string(day as u64);
    let suffix = if 11 <= day % 100 && day % 100 <= 13 {
        "th"
    } else if day % 10 == 1 {
        "st"
    } else if day % 10 == 2 {
        "nd"
    } else if day % 10 == 3 {
        "rd"
    } else {
        "th"
    };
    s.append(suffix);
    s
}


// ─── Choosing the language ───────────────────────────────────────

/// Whether `c` is Unicode white space (the White_Space property).
pub open spec fn is_white_space(c: char) -> bool {
    ||| '\t' <= c <= '\r'
    ||| c == ' '
    ||| c == '\u{85}'
    ||| c == '\u{A0}'
    ||| c == '\u{1680}'
    ||| '\u{2000}' <= c <= '\u{200A}'
    ||| c == '\u{2028}'
    ||| c == '\u{2029}'
    ||| c == '\u{202F}'
    ||| c == '\u{205F}'
    ||| c == '\u{3000}'
}

fn is_white_space_char(c: char) -> (r: bool)
    ensures
        r == is_white_space(c),
{
    ('\t' <= c && c <= '\r') || c == ' ' || c == '\u{85}' || c == '\u{A0}' || c == '\u{1680}'
        || ('\u{2000}' <= c && c <= '\u{200A}') || c == '\u{2028}' || c == '\u{2029}' || c
        == '\u{202F}' || c == '\u{205F}' || c == '\u{3000}'
}

/// `s` without white space at its start.
pub open spec fn trim_start(s: Seq<char>) -> Seq<char>
    decreases s.len(),
{
    if s.len() > 0 && is_white_space(s[0]) {
        trim_start(s.drop_first())
    } else {
        s
    }
}

/// `s` without white space at its end.
pub open spec fn trim_end(s: Seq<char>) -> Seq<char>
    decreases s.len(),
{
    if s.len() > 0 && is_white_space(s.last()) {
        trim_end(s.drop_last())
    } else {
        s
    }
}

/// `s` without white space at either end.
pub open spec fn trim(s: Seq<char>) -> Seq<char> {
    trim_end(trim_start(s))
}

/// `s` without white space at either end.
pub(crate) fn trimmed(s: &str) -> (r: String)
    ensures
        r@ == trim(s@),
{
    let cs = chars_of(s);
    let n = cs.len();
    let mut start: usize = 0;
    assert(s@.skip(0) =~= s@);
    while start < n && is_white_space_char(cs[start])
        invariant
            cs@ == s@,
            n == cs.len(),
            start <= n,
            trim_start(s@) == trim_start(s@.skip(start as int)),
        decreases n - start,
    {
        proof {
            assert(s@.skip(start as int).drop_first() =~= s@.skip(start + 1));
        }
        start = start + 1;
    }
    proof {
        if start < n {
            assert(s@.skip(start as int)[0] == s@[start as int]);
        } else {
            assert(s@.skip(start as int) =~= Seq::<char>::empty());
        }
        assert(trim_start(s@) == s@.skip(start as int));
        assert(s@.skip(start as int) =~= s@.subrange(start as int, n as int));
    }
    let mut end: usize = n;
    while end > start && is_white_space_char(cs[end - 1])
        invariant
            cs@ == s@,
            n == cs.len(),
            start <= end <= n,
            trim(s@) == trim_end(s@.subrange(start as int, end as int)),
            trim_start(s@) == s@.skip(start as int),
        decreases end,
    {
        proof {
            assert(s@.subrange(start as int, end as int).drop_last() =~= s@.subrange(start as int, end - 1));
        }
        end = end - 1;
    }
    proof {
        if start < n {
            assert(s@.skip(start as int) =~= s@.subrange(start as int, n as int));
        } else {
            assert(s@.skip(start as int) =~= Seq::<char>::empty());
        }
        if end == n {
            assert(s@.skip(start as int) =~= s@.subrange(start as int, n as int));
        }
    }
    let mut out: Vec<char> = Vec::new();
    let mut i: usize = start;
    while i < end
        invariant
            cs@ == s@,
            start <= i <= end <= cs.len(),
            out@ == s@.subrange(start as int, i as int),
        decreases end - i,
    {
        out.push(cs[i]);
        i = i + 1;
        assert(out@ =~= s@.subrange(start as int, i as int));
    }
    string_from_chars(&out)
}

/// The language chosen by an option, else by the value of the environment
/// setting (white space at its ends ignored), else Japanese.
pub open spec fn chosen_lang(arg: Option<Lang>, env_value: Option<Seq<char>>) -> Lang {
    match arg {
        Some(l) => l,
        None => match env_value {
            Some(v) => match lang_of(ascii_lowercase(trim(v))) {
                Some(l) => l,
                None => Lang::Ja,
            },
            None => Lang::Ja,
        },
    }
}

/// The language of the output: the one given as an option, else the one that
/// the environment setting names, else Japanese.
pub fn resolve_lang(arg: Option<Lang>, env_value: Option<&str>) -> (r: Lang)
    ensures
        r == chosen_lang(arg, match env_value {
            Some(v) => Some(v@),
            None => None,
        }),
{
    if let Some(l) = arg {
        return l;
    }
    if let Some(v) = env_value {
        let t = trimmed(v);
        if let Ok(l) = Lang::from_str(t.as_str()) {
            return l;
        }
    }
    Lang::Ja
}


// ─── Laws: reading back the Japanese era year ────────────────────

/// Reading one more character continues the reading of what came before.
proof fn lemma_kanji_scan_push(s: Seq<char>, c: char)
    ensures
        kanji_scan(s.push(c)) == kanji_step(kanji_scan(s), c),
{
    assert(s.push(c).drop_last() =~= s);
}

proof fn lemma_kanji_digit_chars(d: int)
    requires
        1 <= d <= 9,
    ensures
        kanji_digit_value(kanji_digit_char(d)) == d,
        kanji_unit_value(kanji_digit_char(d)) == 0,
{
}

/// Reading one place of a numeral, after whole places, adds its digit times
/// its unit.
proof fn lemma_kanji_scan_place(s: Seq<char>, total: int, d: int, unit: char, omit_one: bool)
    requires
        kanji_scan(s) == (total, 0int),
        0 <= d <= 9,
        kanji_unit_value(unit) > 0,
    ensures
        kanji_scan(s + kanji_place(d, unit, omit_one)) == (total + d * kanji_unit_value(unit), 0int),
{
    if d == 0 {
        assert(s + kanji_place(d, unit, omit_one) =~= s);
    } else if d == 1 && omit_one {
        assert(s + kanji_place(d, unit, omit_one) =~= s.push(unit));
        lemma_kanji_scan_push(s, unit);
    } else {
        lemma_kanji_digit_chars(d);
        assert(s + kanji_place(d, unit, omit_one) =~= s.push(kanji_digit_char(d)).push(unit));
        lemma_kanji_scan_push(s, kanji_digit_char(d));
        lemma_kanji_scan_push(s.push(kanji_digit_char(d)), unit);
    }
}

/// A kanji numeral reads back as the number it was written from.
pub proof fn law_kanji_numeral_reads_back(n: int)
    requires
        1 <= n <= 9999,
    ensures
        kanji_value(kanji_numeral(n)) == n,
{
    let a = n / 1000;
    let b = (n / 100) % 10;
    let c = (n / 10) % 10;
    let e = n % 10;
    let p1 = kanji_place(a, '千', false);
    let p2 = kanji_place(b, '百', false);
    let p3 = kanji_place(c, '十', true);
    let p4 = if e == 0 { Seq::<char>::empty() } else { seq![kanji_digit_char(e)] };
    let empty = Seq::<char>::empty();
    assert(kanji_scan(empty) == (0int, 0int));
    lemma_kanji_scan_place(empty, 0, a, '千', false);
    assert(empty + p1 =~= p1);
    lemma_kanji_scan_place(p1, 1000 * a, b, '百', false);
    lemma_kanji_scan_place(p1 + p2, 1000 * a + 100 * b, c, '十', true);
    let s3 = p1 + p2 + p3;
    assert(kanji_scan(s3) == (1000 * a + 100 * b + 10 * c, 0int));
    if e == 0 {
        assert(s3 + p4 =~= s3);
    } else {
        lemma_kanji_digit_chars(e);
        assert(s3 + p4 =~= s3.push(kanji_digit_char(e)));
        lemma_kanji_scan_push(s3, kanji_digit_char(e));
    }
    assert(kanji_numeral(n) =~= s3 + p4);
    assert(n == 1000 * a + 100 * b + 10 * c + e) by {
        vstd::arithmetic::div_mod::lemma_fundamental_div_mod(n, 10);
        vstd::arithmetic::div_mod::lemma_fundamental_div_mod(n / 10, 10);
        vstd::arithmetic::div_mod::lemma_fundamental_div_mod(n / 100, 10);
        vstd::arithmetic::div_mod::lemma_div_denominator(n, 10, 10);
        vstd::arithmetic::div_mod::lemma_div_denominator(n, 100, 10);
    }
    if kanji_numeral(n) == seq!['元'] {
        assert(kanji_numeral(n)[0] == '元');
    }
}

/// An era's year count reads back as the count.
pub proof fn law_era_year_numeral_reads_back(n: int)
    requires
        1 <= n <= 9999,
    ensures
        kanji_value(era_year_numeral(n)) == n,
{
    if n > 1 {
        law_kanji_numeral_reads_back(n);
    }
}

proof fn lemma_trim_year_mark(x: Seq<char>)
    requires
        x.len() > 0,
        x.last() != '年',
    ensures
        trim_end_char(x.push('年'), '年') == x,
{
    assert(trim_end_char(x, '年') == x);
    assert(x.push('年').drop_last() =~= x);
}

proof fn lemma_numeral_last_char(n: int)
    requires
        1 <= n <= 9999,
    ensures
        era_year_numeral(n).len() > 0,
        era_year_numeral(n).last() != '年',
{
    if n > 1 {
        let a = n / 1000;
        let b = (n / 100) % 10;
        let c = (n / 10) % 10;
        let e = n % 10;
        if e == 0 && c == 0 && b == 0 {
            assert(a >= 1) by {
                vstd::arithmetic::div_mod::lemma_fundamental_div_mod(n, 10);
                vstd::arithmetic::div_mod::lemma_fundamental_div_mod(n / 10, 10);
                vstd::arithmetic::div_mod::lemma_fundamental_div_mod(n / 100, 10);
                vstd::arithmetic::div_mod::lemma_div_denominator(n, 10, 10);
                vstd::arithmetic::div_mod::lemma_div_denominator(n, 100, 10);
            }
        }
    }
}

/// The English form of a Japanese era year names the same era and the same
/// year count: for a day of an era, `era_en` of its Japanese era year is the
/// era's romanized name and the year count in digits.
pub proof fn law_era_en_reads_japanese_year(y: int, m: int, d: int)
    requires
        era_of(y, m, d) < 5,
        y - era_start(era_of(y, m, d)).0 + 1 <= 9999,
    ensures
        era_prefix_of(japanese_year_text(y, m, d)) == era_of(y, m, d),
        kanji_value(era_count_text(japanese_year_text(y, m, d))) == y - era_start(era_of(y, m, d)).0 + 1,
        era_en_text(japanese_year_text(y, m, d)) == era_name_en(era_of(y, m, d)) + seq![' ']
            + decimal((y - era_start(era_of(y, m, d)).0 + 1) as nat),
{
    let i = era_of(y, m, d);
    let count = y - era_start(i).0 + 1;
    let numeral = era_year_numeral(count);
    let text = japanese_year_text(y, m, d);
    reveal_strlit("令和");
    reveal_strlit("平成");
    reveal_strlit("昭和");
    reveal_strlit("大正");
    reveal_strlit("明治");
    assert(count >= 1);
    assert(era_name(i).len() == 2);
    assert(text == era_name(i) + numeral.push('年'));
    assert(text.subrange(0, 2) =~= era_name(i));
    assert forall|j: int| 0 <= j < i implies !has_prefix(text, #[trigger] era_name(j)) by {
        assert(era_name(j).len() == 2);
        if has_prefix(text, era_name(j)) {
            assert(era_name(j)[0] == text[0]);
            assert(era_name(j)[1] == text[1]);
        }
    }
    assert(has_prefix(text, era_name(i)));
    assert(era_prefix_of(text) == i);
    assert(text.skip(2) =~= numeral.push('年'));
    lemma_numeral_last_char(count);
    lemma_trim_year_mark(numeral);
    law_era_year_numeral_reads_back(count);
}


/// A decimal numeral is made of ASCII digits only, and is not empty.
proof fn lemma_decimal_digits(n: nat)
    ensures
        decimal(n).len() > 0,
        is_ascii_digit(decimal(n)[0]),
        ascii_digits(decimal(n)) == decimal(n),
    decreases n,
{
    assert(ascii_digits(Seq::<char>::empty()) == Seq::<char>::empty());
    if n < 10 {
        let c = digit_char(n as int);
        assert(is_ascii_digit(c));
        assert(seq![c].drop_last() =~= Seq::<char>::empty());
        assert(seq![c].last() == c);
        assert(ascii_digits(seq![c]) == ascii_digits(Seq::<char>::empty()) + seq![c]);
        assert(ascii_digits(seq![c]) =~= seq![c]);
    } else {
        lemma_decimal_digits(n / 10);
        let c = digit_char((n % 10) as int);
        assert((decimal(n / 10) + seq![c]).drop_last() =~= decimal(n / 10));
        assert(decimal(n / 10) + seq![c] == decimal(n));
        assert(decimal(n)[0] == decimal(n / 10)[0]);
        assert(ascii_digits(decimal(n / 10)) + seq![c] =~= decimal(n));
    }
}

/// The ASCII digits of two texts one after the other.
proof fn lemma_ascii_digits_concat(a: Seq<char>, b: Seq<char>)
    ensures
        ascii_digits(a + b) == ascii_digits(a) + ascii_digits(b),
    decreases b.len(),
{
    if b.len() == 0 {
        assert(a + b =~= a);
        assert(ascii_digits(a) + ascii_digits(b) =~= ascii_digits(a));
    } else {
        lemma_ascii_digits_concat(a, b.drop_last());
        assert((a + b).drop_last() =~= a + b.drop_last());
        assert((a + b).last() == b.last());
        let tail = if is_ascii_digit(b.last()) { seq![b.last()] } else { Seq::<char>::empty() };
        assert(ascii_digits(a) + ascii_digits(b.drop_last()) + tail =~= ascii_digits(a) + (ascii_digits(b.drop_last()) + tail));
    }
}

/// Before the eras begin, the English form of the Japanese year is the
/// Western year in digits (1867年 → "1867"; a year before year 0 loses its
/// sign, which is not a digit).
pub proof fn law_era_en_reads_western_year(y: int, m: int, d: int)
    requires
        era_of(y, m, d) == 5,
    ensures
        era_prefix_of(japanese_year_text(y, m, d)) == 5,
        era_en_text(japanese_year_text(y, m, d)) == decimal((if y < 0 { -y } else { y }) as nat),
{
    let n: nat = (if y < 0 { -y } else { y }) as nat;
    let text = japanese_year_text(y, m, d);
    lemma_decimal_digits(n);
    reveal_strlit("令和");
    reveal_strlit("平成");
    reveal_strlit("昭和");
    reveal_strlit("大正");
    reveal_strlit("明治");
    assert(text == signed_decimal(y) + seq!['年']);
    assert(text[0] == '-' || is_ascii_digit(text[0])) by {
        if y < 0 {
            assert(signed_decimal(y)[0] == '-');
        } else {
            assert(signed_decimal(y)[0] == decimal(n)[0]);
        }
    }
    assert forall|j: int| 0 <= j < 5 implies !has_prefix(text, #[trigger] era_name(j)) by {
        if has_prefix(text, era_name(j)) {
            assert(text.subrange(0, era_name(j).len() as int)[0] == era_name(j)[0]);
        }
    }
    assert(era_prefix_of(text) == 5);
    lemma_ascii_digits_concat(signed_decimal(y), seq!['年']);
    assert(ascii_digits(Seq::<char>::empty()) == Seq::<char>::empty());
    assert(seq!['年'].drop_last() =~= Seq::<char>::empty());
    assert(!is_ascii_digit('年'));
    assert(ascii_digits(seq!['年']) == ascii_digits(Seq::<char>::empty()));
    if y < 0 {
        lemma_ascii_digits_concat(seq!['-'], decimal(n));
        assert(seq!['-'].drop_last() =~= Seq::<char>::empty());
        assert(!is_ascii_digit('-'));
        assert(ascii_digits(seq!['-']) == ascii_digits(Seq::<char>::empty()));
    }
    assert(ascii_digits(text) =~= decimal(n));
}

/// The English form of the Japanese year of any day up to the year count
/// 9999 of Reiwa: the era's romanized name and its year count from 1868-01-25
/// on, the Western year in digits before.
pub proof fn law_era_en_of_any_japanese_year(y: int, m: int, d: int)
    requires
        y <= 12017,
    ensures
        era_prefix_of(japanese_year_text(y, m, d)) == era_of(y, m, d),
        era_prefix_of(japanese_year_text(y, m, d)) < 5 ==> kanji_value(
            era_count_text(japanese_year_text(y, m, d)),
        ) <= u32::MAX,
        era_en_text(japanese_year_text(y, m, d)) == if era_of(y, m, d) < 5 {
            era_name_en(era_of(y, m, d)) + seq![' '] + decimal((y - era_start(era_of(y, m, d)).0 + 1) as nat)
        } else {
            decimal((if y < 0 { -y } else { y }) as nat)
        },
{
    if era_of(y, m, d) < 5 {
        law_era_en_reads_japanese_year(y, m, d);
    } else {
        law_era_en_reads_western_year(y, m, d);
    }
}

/// The English form of the Japanese year of `date` (Reiwa 8 in 2026; the
/// Western year in digits before 1868-01-25).
pub fn era_en_of_date(date: CivilDate) -> (r: String)
    requires
        date.valid(),
        date.year <= 12017,
    ensures
        r@ == era_en_text(japanese_year_text(date.year as int, date.month as int, date.day as int)),
{
    let ja = japanese_year(date);
    proof {
        law_era_en_of_any_japanese_year(date.year as int, date.month as int, date.day as int);
    }
    era_en(ja.as_str())
}

// ─── Law: the day of the month in kanji ──────────────────────────

/// The number that a day numeral reads as: a leading 廿 stands for twenty,
/// the rest reads as a kanji numeral.
pub open spec fn day_numeral_value(s: Seq<char>) -> int {
    if s.len() > 0 && s[0] == '廿' { 20 + kanji_value(s.drop_first()) } else { kanji_value(s) }
}

/// Reading a digit alone, and a digit after a whole numeral.
proof fn lemma_scan_digit_after(s: Seq<char>, total: int, d: int)
    requires
        kanji_scan(s) == (total, 0int),
        1 <= d <= 9,
    ensures
        kanji_scan(s.push(kanji_digit_char(d))) == (total, d),
{
    lemma_kanji_digit_chars(d);
    lemma_kanji_scan_push(s, kanji_digit_char(d));
}

/// Every day of a month is written in kanji alone, ends in 日, and reads
/// back as the day (十一日 is 11, 廿五日 is 25, 三十一日 is 31).
pub proof fn law_kanji_day_reads_back(d: int)
    requires
        1 <= d <= 31,
    ensures
        kanji_day_text(d).len() >= 2,
        kanji_day_text(d).last() == '日',
        forall|k: int| 0 <= k < kanji_day_text(d).len() ==> !is_ascii_digit(#[trigger] kanji_day_text(d)[k]),
        day_numeral_value(kanji_day_text(d).drop_last()) == d,
        // the general kanji numeral, with 廿 in place of 二十
        (d < 20 || d > 29) ==> kanji_day_text(d).drop_last() == kanji_numeral(d),
        20 <= d <= 29 ==> kanji_day_text(d).drop_last() == seq!['廿'] + (if d == 20 {
            Seq::<char>::empty()
        } else {
            kanji_numeral(d - 20)
        }),
{
    assert(d / 1000 == 0 && (d / 100) % 10 == 0);
    assert(kanji_place(0, '千', false) =~= Seq::<char>::empty());
    assert(kanji_place(0, '百', false) =~= Seq::<char>::empty());
    let text = kanji_day_text(d);
    let e: Seq<char> = Seq::empty();
    assert(kanji_scan(e) == (0int, 0int));
    let ten = e.push('十');
    lemma_kanji_scan_push(e, '十');
    assert(kanji_scan(ten) == (10int, 0int));
    let body = text.drop_last();
    if 1 <= d <= 9 {
        assert(body =~= e.push(kanji_digit_char(d)));
        lemma_scan_digit_after(e, 0, d);
        assert(body[0] != '元');
    } else if d == 10 {
        assert(body =~= ten);
        assert(body[0] != '元');
    } else if 11 <= d <= 19 {
        assert(body =~= ten.push(kanji_digit_char(d - 10)));
        lemma_scan_digit_after(ten, 10, d - 10);
        assert(body.len() == 2);
    } else if d == 20 {
        assert(body =~= seq!['廿']);
        assert(body.drop_first() =~= e);
    } else if 21 <= d <= 29 {
        assert(body =~= seq!['廿', kanji_digit_char(d - 20)]);
        assert(body.drop_first() =~= e.push(kanji_digit_char(d - 20)));
        lemma_scan_digit_after(e, 0, d - 20);
        assert(body.drop_first()[0] != '元');
    } else {
        let three = e.push('三');
        lemma_scan_digit_after(e, 0, 3);
        let thirty = three.push('十');
        lemma_kanji_scan_push(three, '十');
        assert(kanji_scan(thirty) == (30int, 0int));
        if d == 30 {
            assert(body =~= thirty);
        } else {
            assert(body =~= thirty.push('一'));
            lemma_scan_digit_after(thirty, 30, 1);
        }
        assert(body.len() >= 2);
    }
    assert(text =~= body.push('日'));
}

// ─── Law: the traditional month names ────────────────────────────

/// The traditional month names (和風月名), January to December.
pub open spec fn traditional_month_names() -> Seq<Seq<char>> {
    seq!["睦月"@, "如月"@, "弥生"@, "卯月"@, "皐月"@, "水無月"@, "文月"@, "葉月"@, "長月"@, "神無月"@, "霜月"@, "師走"@]
}

/// Their romanized readings, with the English month.
pub open spec fn month_readings_en() -> Seq<Seq<char>> {
    seq![
        "Mutsuki (Jan)"@, "Kisaragi (Feb)"@, "Yayoi (Mar)"@, "Uzuki (Apr)"@, "Satsuki (May)"@,
        "Minazuki (Jun)"@, "Fumizuki (Jul)"@, "Hazuki (Aug)"@, "Nagatsuki (Sep)"@,
        "Kannazuki (Oct)"@, "Shimotsuki (Nov)"@, "Shiwasu (Dec)"@,
    ]
}

/// Month `m` has its traditional name (卯月 for April, 皐月 for May), and
/// that name reads in English as its romanized reading with the English
/// month (Uzuki (Apr), Satsuki (May)).
pub proof fn law_traditional_month_names(m: int)
    requires
        1 <= m <= 12,
    ensures
        month_name(m) == traditional_month_names()[m - 1],
        month_name_en_text(month_name(m)) == month_readings_en()[m - 1],
{
    law_month_name_en_reads_month_name(m);
}

// ─── Law: the temporal hours read as their branches ──────────────

/// Each temporal hour is named for a branch of the twelve, in their order
/// from 卯, and its English name is that branch's romanized name, the one the
/// stem-and-branch signs use (辰 reads Tatsu, 巳 reads Mi).
pub proof fn law_hour_names_are_branch_names(i: int)
    requires
        0 <= i < 12,
    ensures
        jikoku_char(i) == branch_char((i + 3) % 12),
        jikoku_name_en(i) == branch_name_en((i + 3) % 12),
        forall|j: int| 0 <= j < 12 && #[trigger] branch_char(j) == jikoku_char(i) ==> jikoku_name_en(i)
            == branch_name_en(j),
{
}

// ─── Laws: English forms of the Japanese texts ───────────────────

/// Every traditional month name has its own English form: the English form
/// of the name of month `m` is the one listed for `m`.
pub proof fn law_month_name_en_reads_month_name(m: int)
    requires
        1 <= m <= 12,
    ensures
        month_name_en_text(month_name(m)) == month_name_en_of(m - 1),
{
    reveal_strlit("睦月");
    reveal_strlit("如月");
    reveal_strlit("弥生");
    reveal_strlit("卯月");
    reveal_strlit("皐月");
    reveal_strlit("水無月");
    reveal_strlit("文月");
    reveal_strlit("葉月");
    reveal_strlit("長月");
    reveal_strlit("神無月");
    reveal_strlit("霜月");
    reveal_strlit("師走");
    reveal_with_fuel(month_index_from, 13);
    if m == 1 {
        assert(month_index_from(month_name(1), 0) == 0);
    } else if m == 2 {
        assert(month_name(1)[0] != month_name(2)[0]);
        assert(month_index_from(month_name(2), 0) == 1);
    } else if m == 3 {
        assert(month_name(1)[0] != month_name(3)[0]);
        assert(month_name(2)[0] != month_name(3)[0]);
        assert(month_index_from(month_name(3), 0) == 2);
    } else if m == 4 {
        assert(month_name(1)[0] != month_name(4)[0]);
        assert(month_name(2)[0] != month_name(4)[0]);
        assert(month_name(3)[0] != month_name(4)[0]);
        assert(month_index_from(month_name(4), 0) == 3);
    } else if m == 5 {
        assert(month_name(1)[0] != month_name(5)[0]);
        assert(month_name(2)[0] != month_name(5)[0]);
        assert(month_name(3)[0] != month_name(5)[0]);
        assert(month_name(4)[0] != month_name(5)[0]);
        assert(month_index_from(month_name(5), 0) == 4);
    } else if m == 6 {
        assert(month_name(1)[0] != month_name(6)[0]);
        assert(month_name(2)[0] != month_name(6)[0]);
        assert(month_name(3)[0] != month_name(6)[0]);
        assert(month_name(4)[0] != month_name(6)[0]);
        assert(month_name(5)[0] != month_name(6)[0]);
        assert(month_index_from(month_name(6), 0) == 5);
    } else if m == 7 {
        assert(month_name(1)[0] != month_name(7)[0]);
        assert(month_name(2)[0] != month_name(7)[0]);
        assert(month_name(3)[0] != month_name(7)[0]);
        assert(month_name(4)[0] != month_name(7)[0]);
        assert(month_name(5)[0] != month_name(7)[0]);
        assert(month_name(6)[0] != month_name(7)[0]);
        assert(month_index_from(month_name(7), 0) == 6);
    } else if m == 8 {
        assert(month_name(1)[0] != month_name(8)[0]);
        assert(month_name(2)[0] != month_name(8)[0]);
        assert(month_name(3)[0] != month_name(8)[0]);
        assert(month_name(4)[0] != month_name(8)[0]);
        assert(month_name(5)[0] != month_name(8)[0]);
        assert(month_name(6)[0] != month_name(8)[0]);
        assert(month_name(7)[0] != month_name(8)[0]);
        assert(month_index_from(month_name(8), 0) == 7);
    } else if m == 9 {
        assert(month_name(1)[0] != month_name(9)[0]);
        assert(month_name(2)[0] != month_name(9)[0]);
        assert(month_name(3)[0] != month_name(9)[0]);
        assert(month_name(4)[0] != month_name(9)[0]);
        assert(month_name(5)[0] != month_name(9)[0]);
        assert(month_name(6)[0] != month_name(9)[0]);
        assert(month_name(7)[0] != month_name(9)[0]);
        assert(month_name(8)[0] != month_name(9)[0]);
        assert(month_index_from(month_name(9), 0) == 8);
    } else if m == 10 {
        assert(month_name(1)[0] != month_name(10)[0]);
        assert(month_name(2)[0] != month_name(10)[0]);
        assert(month_name(3)[0] != month_name(10)[0]);
        assert(month_name(4)[0] != month_name(10)[0]);
        assert(month_name(5)[0] != month_name(10)[0]);
        assert(month_name(6)[0] != month_name(10)[0]);
        assert(month_name(7)[0] != month_name(10)[0]);
        assert(month_name(8)[0] != month_name(10)[0]);
        assert(month_name(9)[0] != month_name(10)[0]);
        assert(month_index_from(month_name(10), 0) == 9);
    } else if m == 11 {
        assert(month_name(1)[0] != month_name(11)[0]);
        assert(month_name(2)[0] != month_name(11)[0]);
        assert(month_name(3)[0] != month_name(11)[0]);
        assert(month_name(4)[0] != month_name(11)[0]);
        assert(month_name(5)[0] != month_name(11)[0]);
        assert(month_name(6)[0] != month_name(11)[0]);
        assert(month_name(7)[0] != month_name(11)[0]);
        assert(month_name(8)[0] != month_name(11)[0]);
        assert(month_name(9)[0] != month_name(11)[0]);
        assert(month_name(10)[0] != month_name(11)[0]);
        assert(month_index_from(month_name(11), 0) == 10);
    } else if m == 12 {
        assert(month_name(1)[0] != month_name(12)[0]);
        assert(month_name(2)[0] != month_name(12)[0]);
        assert(month_name(3)[0] != month_name(12)[0]);
        assert(month_name(4)[0] != month_name(12)[0]);
        assert(month_name(5)[0] != month_name(12)[0]);
        assert(month_name(6)[0] != month_name(12)[0]);
        assert(month_name(7)[0] != month_name(12)[0]);
        assert(month_name(8)[0] != month_name(12)[0]);
        assert(month_name(9)[0] != month_name(12)[0]);
        assert(month_name(10)[0] != month_name(12)[0]);
        assert(month_name(11)[0] != month_name(12)[0]);
        assert(month_index_from(month_name(12), 0) == 11);
    }
}

/// Every solar term name has its own English form: the English form of the
/// name of term `i` is the one listed for `i`.
pub proof fn law_solar_term_en_reads_term_name(i: int)
    requires
        0 <= i < 24,
    ensures
        solar_term_en_text(term_name(i)) == term_name_en_of(i),
{
    reveal_strlit("小寒");
    reveal_strlit("大寒");
    reveal_strlit("立春");
    reveal_strlit("雨水");
    reveal_strlit("啓蟄");
    reveal_strlit("春分");
    reveal_strlit("清明");
    reveal_strlit("穀雨");
    reveal_strlit("立夏");
    reveal_strlit("小満");
    reveal_strlit("芒種");
    reveal_strlit("夏至");
    reveal_strlit("小暑");
    reveal_strlit("大暑");
    reveal_strlit("立秋");
    reveal_strlit("処暑");
    reveal_strlit("白露");
    reveal_strlit("秋分");
    reveal_strlit("寒露");
    reveal_strlit("霜降");
    reveal_strlit("立冬");
    reveal_strlit("小雪");
    reveal_strlit("大雪");
    reveal_strlit("冬至");
    reveal_with_fuel(term_index_from, 25);
    if i == 0 {
        assert(term_index_from(term_name(0), 0) == 0);
    } else if i == 1 {
        assert(term_name(0)[0] != term_name(1)[0]);
        assert(term_index_from(term_name(1), 0) == 1);
    } else if i == 2 {
        assert(term_name(0)[0] != term_name(2)[0]);
        assert(term_name(1)[0] != term_name(2)[0]);
        assert(term_index_from(term_name(2), 0) == 2);
    } else if i == 3 {
        assert(term_name(0)[0] != term_name(3)[0]);
        assert(term_name(1)[0] != term_name(3)[0]);
        assert(term_name(2)[0] != term_name(3)[0]);
        assert(term_index_from(term_name(3), 0) == 3);
    } else if i == 4 {
        assert(term_name(0)[0] != term_name(4)[0]);
        assert(term_name(1)[0] != term_name(4)[0]);
        assert(term_name(2)[0] != term_name(4)[0]);
        assert(term_name(3)[0] != term_name(4)[0]);
        assert(term_index_from(term_name(4), 0) == 4);
    } else if i == 5 {
        assert(term_name(0)[0] != term_name(5)[0]);
        assert(term_name(1)[0] != term_name(5)[0]);
        assert(term_name(2)[0] != term_name(5)[0]);
        assert(term_name(3)[0] != term_name(5)[0]);
        assert(term_name(4)[0] != term_name(5)[0]);
        assert(term_index_from(term_name(5), 0) == 5);
    } else if i == 6 {
        assert(term_name(0)[0] != term_name(6)[0]);
        assert(term_name(1)[0] != term_name(6)[0]);
        assert(term_name(2)[0] != term_name(6)[0]);
        assert(term_name(3)[0] != term_name(6)[0]);
        assert(term_name(4)[0] != term_name(6)[0]);
        assert(term_name(5)[0] != term_name(6)[0]);
        assert(term_index_from(term_name(6), 0) == 6);
    } else if i == 7 {
        assert(term_name(0)[0] != term_name(7)[0]);
        assert(term_name(1)[0] != term_name(7)[0]);
        assert(term_name(2)[0] != term_name(7)[0]);
        assert(term_name(3)[0] != term_name(7)[0]);
        assert(term_name(4)[0] != term_name(7)[0]);
        assert(term_name(5)[0] != term_name(7)[0]);
        assert(term_name(6)[0] != term_name(7)[0]);
        assert(term_index_from(term_name(7), 0) == 7);
    } else if i == 8 {
        assert(term_name(0)[0] != term_name(8)[0]);
        assert(term_name(1)[0] != term_name(8)[0]);
        assert(term_name(2)[1] != term_name(8)[1]);
        assert(term_name(3)[0] != term_name(8)[0]);
        assert(term_name(4)[0] != term_name(8)[0]);
        assert(term_name(5)[0] != term_name(8)[0]);
        assert(term_name(6)[0] != term_name(8)[0]);
        assert(term_name(7)[0] != term_name(8)[0]);
        assert(term_index_from(term_name(8), 0) == 8);
    } else if i == 9 {
        assert(term_name(0)[1] != term_name(9)[1]);
        assert(term_name(1)[0] != term_name(9)[0]);
        assert(term_name(2)[0] != term_name(9)[0]);
        assert(term_name(3)[0] != term_name(9)[0]);
        assert(term_name(4)[0] != term_name(9)[0]);
        assert(term_name(5)[0] != term_name(9)[0]);
        assert(term_name(6)[0] != term_name(9)[0]);
        assert(term_name(7)[0] != term_name(9)[0]);
        assert(term_name(8)[0] != term_name(9)[0]);
        assert(term_index_from(term_name(9), 0) == 9);
    } else if i == 10 {
        assert(term_name(0)[0] != term_name(10)[0]);
        assert(term_name(1)[0] != term_name(10)[0]);
        assert(term_name(2)[0] != term_name(10)[0]);
        assert(term_name(3)[0] != term_name(10)[0]);
        assert(term_name(4)[0] != term_name(10)[0]);
        assert(term_name(5)[0] != term_name(10)[0]);
        assert(term_name(6)[0] != term_name(10)[0]);
        assert(term_name(7)[0] != term_name(10)[0]);
        assert(term_name(8)[0] != term_name(10)[0]);
        assert(term_name(9)[0] != term_name(10)[0]);
        assert(term_index_from(term_name(10), 0) == 10);
    } else if i == 11 {
        assert(term_name(0)[0] != term_name(11)[0]);
        assert(term_name(1)[0] != term_name(11)[0]);
        assert(term_name(2)[0] != term_name(11)[0]);
        assert(term_name(3)[0] != term_name(11)[0]);
        assert(term_name(4)[0] != term_name(11)[0]);
        assert(term_name(5)[0] != term_name(11)[0]);
        assert(term_name(6)[0] != term_name(11)[0]);
        assert(term_name(7)[0] != term_name(11)[0]);
        assert(term_name(8)[0] != term_name(11)[0]);
        assert(term_name(9)[0] != term_name(11)[0]);
        assert(term_name(10)[0] != term_name(11)[0]);
        assert(term_index_from(term_name(11), 0) == 11);
    } else if i == 12 {
        assert(term_name(0)[1] != term_name(12)[1]);
        assert(term_name(1)[0] != term_name(12)[0]);
        assert(term_name(2)[0] != term_name(12)[0]);
        assert(term_name(3)[0] != term_name(12)[0]);
        assert(term_name(4)[0] != term_name(12)[0]);
        assert(term_name(5)[0] != term_name(12)[0]);
        assert(term_name(6)[0] != term_name(12)[0]);
        assert(term_name(7)[0] != term_name(12)[0]);
        assert(term_name(8)[0] != term_name(12)[0]);
        assert(term_name(9)[1] != term_name(12)[1]);
        assert(term_name(10)[0] != term_name(12)[0]);
        assert(term_name(11)[0] != term_name(12)[0]);
        assert(term_index_from(term_name(12), 0) == 12);
    } else if i == 13 {
        assert(term_name(0)[0] != term_name(13)[0]);
        assert(term_name(1)[1] != term_name(13)[1]);
        assert(term_name(2)[0] != term_name(13)[0]);
        assert(term_name(3)[0] != term_name(13)[0]);
        assert(term_name(4)[0] != term_name(13)[0]);
        assert(term_name(5)[0] != term_name(13)[0]);
        assert(term_name(6)[0] != term_name(13)[0]);
        assert(term_name(7)[0] != term_name(13)[0]);
        assert(term_name(8)[0] != term_name(13)[0]);
        assert(term_name(9)[0] != term_name(13)[0]);
        assert(term_name(10)[0] != term_name(13)[0]);
        assert(term_name(11)[0] != term_name(13)[0]);
        assert(term_name(12)[0] != term_name(13)[0]);
        assert(term_index_from(term_name(13), 0) == 13);
    } else if i == 14 {
        assert(term_name(0)[0] != term_name(14)[0]);
        assert(term_name(1)[0] != term_name(14)[0]);
        assert(term_name(2)[1] != term_name(14)[1]);
        assert(term_name(3)[0] != term_name(14)[0]);
        assert(term_name(4)[0] != term_name(14)[0]);
        assert(term_name(5)[0] != term_name(14)[0]);
        assert(term_name(6)[0] != term_name(14)[0]);
        assert(term_name(7)[0] != term_name(14)[0]);
        assert(term_name(8)[1] != term_name(14)[1]);
        assert(term_name(9)[0] != term_name(14)[0]);
        assert(term_name(10)[0] != term_name(14)[0]);
        assert(term_name(11)[0] != term_name(14)[0]);
        assert(term_name(12)[0] != term_name(14)[0]);
        assert(term_name(13)[0] != term_name(14)[0]);
        assert(term_index_from(term_name(14), 0) == 14);
    } else if i == 15 {
        assert(term_name(0)[0] != term_name(15)[0]);
        assert(term_name(1)[0] != term_name(15)[0]);
        assert(term_name(2)[0] != term_name(15)[0]);
        assert(term_name(3)[0] != term_name(15)[0]);
        assert(term_name(4)[0] != term_name(15)[0]);
        assert(term_name(5)[0] != term_name(15)[0]);
        assert(term_name(6)[0] != term_name(15)[0]);
        assert(term_name(7)[0] != term_name(15)[0]);
        assert(term_name(8)[0] != term_name(15)[0]);
        assert(term_name(9)[0] != term_name(15)[0]);
        assert(term_name(10)[0] != term_name(15)[0]);
        assert(term_name(11)[0] != term_name(15)[0]);
        assert(term_name(12)[0] != term_name(15)[0]);
        assert(term_name(13)[0] != term_name(15)[0]);
        assert(term_name(14)[0] != term_name(15)[0]);
        assert(term_index_from(term_name(15), 0) == 15);
    } else if i == 16 {
        assert(term_name(0)[0] != term_name(16)[0]);
        assert(term_name(1)[0] != term_name(16)[0]);
        assert(term_name(2)[0] != term_name(16)[0]);
        assert(term_name(3)[0] != term_name(16)[0]);
        assert(term_name(4)[0] != term_name(16)[0]);
        assert(term_name(5)[0] != term_name(16)[0]);
        assert(term_name(6)[0] != term_name(16)[0]);
        assert(term_name(7)[0] != term_name(16)[0]);
        assert(term_name(8)[0] != term_name(16)[0]);
        assert(term_name(9)[0] != term_name(16)[0]);
        assert(term_name(10)[0] != term_name(16)[0]);
        assert(term_name(11)[0] != term_name(16)[0]);
        assert(term_name(12)[0] != term_name(16)[0]);
        assert(term_name(13)[0] != term_name(16)[0]);
        assert(term_name(14)[0] != term_name(16)[0]);
        assert(term_name(15)[0] != term_name(16)[0]);
        assert(term_index_from(term_name(16), 0) == 16);
    } else if i == 17 {
        assert(term_name(0)[0] != term_name(17)[0]);
        assert(term_name(1)[0] != term_name(17)[0]);
        assert(term_name(2)[0] != term_name(17)[0]);
        assert(term_name(3)[0] != term_name(17)[0]);
        assert(term_name(4)[0] != term_name(17)[0]);
        assert(term_name(5)[0] != term_name(17)[0]);
        assert(term_name(6)[0] != term_name(17)[0]);
        assert(term_name(7)[0] != term_name(17)[0]);
        assert(term_name(8)[0] != term_name(17)[0]);
        assert(term_name(9)[0] != term_name(17)[0]);
        assert(term_name(10)[0] != term_name(17)[0]);
        assert(term_name(11)[0] != term_name(17)[0]);
        assert(term_name(12)[0] != term_name(17)[0]);
        assert(term_name(13)[0] != term_name(17)[0]);
        assert(term_name(14)[0] != term_name(17)[0]);
        assert(term_name(15)[0] != term_name(17)[0]);
        assert(term_name(16)[0] != term_name(17)[0]);
        assert(term_index_from(term_name(17), 0) == 17);
    } else if i == 18 {
        assert(term_name(0)[0] != term_name(18)[0]);
        assert(term_name(1)[0] != term_name(18)[0]);
        assert(term_name(2)[0] != term_name(18)[0]);
        assert(term_name(3)[0] != term_name(18)[0]);
        assert(term_name(4)[0] != term_name(18)[0]);
        assert(term_name(5)[0] != term_name(18)[0]);
        assert(term_name(6)[0] != term_name(18)[0]);
        assert(term_name(7)[0] != term_name(18)[0]);
        assert(term_name(8)[0] != term_name(18)[0]);
        assert(term_name(9)[0] != term_name(18)[0]);
        assert(term_name(10)[0] != term_name(18)[0]);
        assert(term_name(11)[0] != term_name(18)[0]);
        assert(term_name(12)[0] != term_name(18)[0]);
        assert(term_name(13)[0] != term_name(18)[0]);
        assert(term_name(14)[0] != term_name(18)[0]);
        assert(term_name(15)[0] != term_name(18)[0]);
        assert(term_name(16)[0] != term_name(18)[0]);
        assert(term_name(17)[0] != term_name(18)[0]);
        assert(term_index_from(term_name(18), 0) == 18);
    } else if i == 19 {
        assert(term_name(0)[0] != term_name(19)[0]);
        assert(term_name(1)[0] != term_name(19)[0]);
        assert(term_name(2)[0] != term_name(19)[0]);
        assert(term_name(3)[0] != term_name(19)[0]);
        assert(term_name(4)[0] != term_name(19)[0]);
        assert(term_name(5)[0] != term_name(19)[0]);
        assert(term_name(6)[0] != term_name(19)[0]);
        assert(term_name(7)[0] != term_name(19)[0]);
        assert(term_name(8)[0] != term_name(19)[0]);
        assert(term_name(9)[0] != term_name(19)[0]);
        assert(term_name(10)[0] != term_name(19)[0]);
        assert(term_name(11)[0] != term_name(19)[0]);
        assert(term_name(12)[0] != term_name(19)[0]);
        assert(term_name(13)[0] != term_name(19)[0]);
        assert(term_name(14)[0] != term_name(19)[0]);
        assert(term_name(15)[0] != term_name(19)[0]);
        assert(term_name(16)[0] != term_name(19)[0]);
        assert(term_name(17)[0] != term_name(19)[0]);
        assert(term_name(18)[0] != term_name(19)[0]);
        assert(term_index_from(term_name(19), 0) == 19);
    } else if i == 20 {
        assert(term_name(0)[0] != term_name(20)[0]);
        assert(term_name(1)[0] != term_name(20)[0]);
        assert(term_name(2)[1] != term_name(20)[1]);
        assert(term_name(3)[0] != term_name(20)[0]);
        assert(term_name(4)[0] != term_name(20)[0]);
        assert(term_name(5)[0] != term_name(20)[0]);
        assert(term_name(6)[0] != term_name(20)[0]);
        assert(term_name(7)[0] != term_name(20)[0]);
        assert(term_name(8)[1] != term_name(20)[1]);
        assert(term_name(9)[0] != term_name(20)[0]);
        assert(term_name(10)[0] != term_name(20)[0]);
        assert(term_name(11)[0] != term_name(20)[0]);
        assert(term_name(12)[0] != term_name(20)[0]);
        assert(term_name(13)[0] != term_name(20)[0]);
        assert(term_name(14)[1] != term_name(20)[1]);
        assert(term_name(15)[0] != term_name(20)[0]);
        assert(term_name(16)[0] != term_name(20)[0]);
        assert(term_name(17)[0] != term_name(20)[0]);
        assert(term_name(18)[0] != term_name(20)[0]);
        assert(term_name(19)[0] != term_name(20)[0]);
        assert(term_index_from(term_name(20), 0) == 20);
    } else if i == 21 {
        assert(term_name(0)[1] != term_name(21)[1]);
        assert(term_name(1)[0] != term_name(21)[0]);
        assert(term_name(2)[0] != term_name(21)[0]);
        assert(term_name(3)[0] != term_name(21)[0]);
        assert(term_name(4)[0] != term_name(21)[0]);
        assert(term_name(5)[0] != term_name(21)[0]);
        assert(term_name(6)[0] != term_name(21)[0]);
        assert(term_name(7)[0] != term_name(21)[0]);
        assert(term_name(8)[0] != term_name(21)[0]);
        assert(term_name(9)[1] != term_name(21)[1]);
        assert(term_name(10)[0] != term_name(21)[0]);
        assert(term_name(11)[0] != term_name(21)[0]);
        assert(term_name(12)[1] != term_name(21)[1]);
        assert(term_name(13)[0] != term_name(21)[0]);
        assert(term_name(14)[0] != term_name(21)[0]);
        assert(term_name(15)[0] != term_name(21)[0]);
        assert(term_name(16)[0] != term_name(21)[0]);
        assert(term_name(17)[0] != term_name(21)[0]);
        assert(term_name(18)[0] != term_name(21)[0]);
        assert(term_name(19)[0] != term_name(21)[0]);
        assert(term_name(20)[0] != term_name(21)[0]);
        assert(term_index_from(term_name(21), 0) == 21);
    } else if i == 22 {
        assert(term_name(0)[0] != term_name(22)[0]);
        assert(term_name(1)[1] != term_name(22)[1]);
        assert(term_name(2)[0] != term_name(22)[0]);
        assert(term_name(3)[0] != term_name(22)[0]);
        assert(term_name(4)[0] != term_name(22)[0]);
        assert(term_name(5)[0] != term_name(22)[0]);
        assert(term_name(6)[0] != term_name(22)[0]);
        assert(term_name(7)[0] != term_name(22)[0]);
        assert(term_name(8)[0] != term_name(22)[0]);
        assert(term_name(9)[0] != term_name(22)[0]);
        assert(term_name(10)[0] != term_name(22)[0]);
        assert(term_name(11)[0] != term_name(22)[0]);
        assert(term_name(12)[0] != term_name(22)[0]);
        assert(term_name(13)[1] != term_name(22)[1]);
        assert(term_name(14)[0] != term_name(22)[0]);
        assert(term_name(15)[0] != term_name(22)[0]);
        assert(term_name(16)[0] != term_name(22)[0]);
        assert(term_name(17)[0] != term_name(22)[0]);
        assert(term_name(18)[0] != term_name(22)[0]);
        assert(term_name(19)[0] != term_name(22)[0]);
        assert(term_name(20)[0] != term_name(22)[0]);
        assert(term_name(21)[0] != term_name(22)[0]);
        assert(term_index_from(term_name(22), 0) == 22);
    } else if i == 23 {
        assert(term_name(0)[0] != term_name(23)[0]);
        assert(term_name(1)[0] != term_name(23)[0]);
        assert(term_name(2)[0] != term_name(23)[0]);
        assert(term_name(3)[0] != term_name(23)[0]);
        assert(term_name(4)[0] != term_name(23)[0]);
        assert(term_name(5)[0] != term_name(23)[0]);
        assert(term_name(6)[0] != term_name(23)[0]);
        assert(term_name(7)[0] != term_name(23)[0]);
        assert(term_name(8)[0] != term_name(23)[0]);
        assert(term_name(9)[0] != term_name(23)[0]);
        assert(term_name(10)[0] != term_name(23)[0]);
        assert(term_name(11)[0] != term_name(23)[0]);
        assert(term_name(12)[0] != term_name(23)[0]);
        assert(term_name(13)[0] != term_name(23)[0]);
        assert(term_name(14)[0] != term_name(23)[0]);
        assert(term_name(15)[0] != term_name(23)[0]);
        assert(term_name(16)[0] != term_name(23)[0]);
        assert(term_name(17)[0] != term_name(23)[0]);
        assert(term_name(18)[0] != term_name(23)[0]);
        assert(term_name(19)[0] != term_name(23)[0]);
        assert(term_name(20)[0] != term_name(23)[0]);
        assert(term_name(21)[0] != term_name(23)[0]);
        assert(term_name(22)[0] != term_name(23)[0]);
        assert(term_index_from(term_name(23), 0) == 23);
    }
}

/// The English form of a temporal-hour label names its hour and quarter: the
/// label of hour `h` (of daytime or of the night) and quarter `q` reads as
/// that hour's name and that quarter's count.
pub proof fn law_jikoku_en_reads_hour_label(is_day: bool, h: int, q: int)
    requires
        0 <= h < 6,
        0 <= q < 4,
    ensures
        jikoku_en_text(seq![if is_day { day_hour_char(h) } else { night_hour_char(h) }] + quarter_text(q))
            == jikoku_name_en(if is_day { h } else { h + 6 }) + seq![' '] + quarter_name_en(q),
{
    let c = if is_day { day_hour_char(h) } else { night_hour_char(h) };
    let label = seq![c] + quarter_text(q);
    let i = if is_day { h } else { h + 6 };
    reveal_with_fuel(jikoku_index_from, 13);
    reveal_with_fuel(quarter_index_from, 5);
    assert(jikoku_char(i) == c);
    assert(label.subrange(0, 1) =~= seq![c]);
    assert forall|j: int| 0 <= j < i implies !has_prefix(label, seq![#[trigger] jikoku_char(j)]) by {
        if has_prefix(label, seq![jikoku_char(j)]) {
            assert(label.subrange(0, 1)[0] == jikoku_char(j));
        }
    }
    assert(jikoku_index_from(label, 0) == i);
    assert(label.skip(1) =~= quarter_text(q));
    assert forall|j: int| 0 <= j < q implies label.skip(1) != #[trigger] quarter_text(j) by {
        assert(quarter_text(j)[0] != quarter_text(q)[0]);
    }
    assert(quarter_index_from(label.skip(1), 0) == q);
}

/// The English form of a year's stem and branch names that stem and branch.
pub proof fn law_eto_en_reads_year_cycle(y: int)
    ensures
        eto_en_text(year_cycle(y)) == stem_name_en((y - 4) % 10) + seq!['-'] + branch_name_en((y - 4) % 12),
{
    reveal_with_fuel(stem_index_from, 11);
    reveal_with_fuel(branch_index_from, 13);
    assert(stem_index_from(stem_char((y - 4) % 10), 0) == (y - 4) % 10);
    assert(branch_index_from(branch_char((y - 4) % 12), 0) == (y - 4) % 12);
}

/// Language names ignore ASCII case: lowering the case of a name first
/// changes nothing in what it is read as.
pub proof fn law_lang_ignores_ascii_case(s: Seq<char>)
    ensures
        ascii_lowercase(ascii_lowercase(s)) == ascii_lowercase(s),
        lang_of(ascii_lowercase(ascii_lowercase(s))) == lang_of(ascii_lowercase(s)),
{
    assert forall|i: int| 0 <= i < s.len() implies #[trigger] ascii_lower(ascii_lower(s[i])) == ascii_lower(s[i]) by {
        let c = s[i];
        if 'A' <= c <= 'Z' {
            assert(((c as u32) + 32) as char >= 'a');
        }
    }
    assert(ascii_lowercase(ascii_lowercase(s)) =~= ascii_lowercase(s));
}

} // verus!
