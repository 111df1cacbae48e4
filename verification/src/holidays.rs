//! Public holidays of Japan.
//!
//! The table lists, for each covered year, the holidays by name and month
//! and day; an empty name stands for a holiday without a name of its own (a
//! substitute holiday, or a citizens' holiday between two holidays).

use vstd::prelude::*;
use crate::date::{valid_ymd, CivilDate};

verus! {

/// The kind of a holiday.
#[derive(Debug, Clone, PartialEq, Eq)]
pub enum Holiday {
    /// A holiday with a name (海の日).
    Named(String),
    /// A holiday without a name of its own (a substitute holiday).
    Unnamed,
}

/// The number of entries in the holiday table.
pub const HOLIDAY_COUNT: usize = 35;

/// Entry `i` of the holiday table: year, name (empty for an unnamed
/// holiday), month, day.
pub open spec fn holiday_entry(i: int) -> (int, Seq<char>, int, int) {
    if i == 0 {
        (2026, "元日"@, 1, 1)
    } else if i == 1 {
        (2026, "成人の日"@, 1, 12)
    } else if i == 2 {
        (2026, "建国記念の日"@, 2, 11)
    } else if i == 3 {
        (2026, "天皇誕生日"@, 2, 23)
    } else if i == 4 {
        (2026, "春分の日"@, 3, 20)
    } else if i == 5 {
        (2026, "昭和の日"@, 4, 29)
    } else if i == 6 {
        (2026, "憲法記念日"@, 5, 3)
    } else if i == 7 {
        (2026, "みどりの日"@, 5, 4)
    } else if i == 8 {
        (2026, "こどもの日"@, 5, 5)
    } else if i == 9 {
        (2026, ""@, 5, 6)
    } else if i == 10 {
        (2026, "海の日"@, 7, 20)
    } else if i == 11 {
        (2026, "山の日"@, 8, 11)
    } else if i == 12 {
        (2026, "敬老の日"@, 9, 21)
    } else if i == 13 {
        (2026, ""@, 9, 22)
    } else if i == 14 {
        (2026, "秋分の日"@, 9, 23)
    } else if i == 15 {
        (2026, "スポーツの日"@, 10, 12)
    } else if i == 16 {
        (2026, "文化の日"@, 11, 3)
    } else if i == 17 {
        (2026, "勤労感謝の日"@, 11, 23)
    } else if i == 18 {
        (2027, "元日"@, 1, 1)
    } else if i == 19 {
        (2027, "成人の日"@, 1, 11)
    } else if i == 20 {
        (2027, "建国記念の日"@, 2, 11)
    } else if i == 21 {
        (2027, "天皇誕生日"@, 2, 23)
    } else if i == 22 {
        (2027, "春分の日"@, 3, 21)
    } else if i == 23 {
        (2027, ""@, 3, 22)
    } else if i == 24 {
        (2027, "昭和の日"@, 4, 29)
    } else if i == 25 {
        (2027, "憲法記念日"@, 5, 3)
    } else if i == 26 {
        (2027, "みどりの日"@, 5, 4)
    } else if i == 27 {
        (2027, "こどもの日"@, 5, 5)
    } else if i == 28 {
        (2027, "海の日"@, 7, 19)
    } else if i == 29 {
        (2027, "山の日"@, 8, 11)
    } else if i == 30 {
        (2027, "敬老の日"@, 9, 20)
    } else if i == 31 {
        (2027, "秋分の日"@, 9, 23)
    } else if i == 32 {
        (2027, "スポーツの日"@, 10, 11)
    } else if i == 33 {
        (2027, "文化の日"@, 11, 3)
    } else {
        (2027, "勤労感謝の日"@, 11, 23)
    }
}

/// Whether entry `i` of the table is the day `(y, m, d)`.
pub open spec fn entry_is(i: int, y: int, m: int, d: int) -> bool {
    holiday_entry(i).0 == y && holiday_entry(i).2 == m && holiday_entry(i).3 == d
}

/// The first entry at or after `i` that is the day `(y, m, d)`.
pub open spec fn find_entry(i: int, y: int, m: int, d: int) -> Option<int>
    decreases HOLIDAY_COUNT - i,
{
    if i >= HOLIDAY_COUNT || i < 0 {
        None
    } else if entry_is(i, y, m, d) {
        Some(i)
    } else {
        find_entry(i + 1, y, m, d)
    }
}

fn table_entry(i: usize) -> (r: (i32, &'static str, u32, u32))
    requires
        i < HOLIDAY_COUNT,
    ensures
        (r.0 as int, r.1@, r.2 as int, r.3 as int) == holiday_entry(i as int),
{
    match i {
        0 => (2026, "元日", 1, 1),
        1 => (2026, "成人の日", 1, 12),
        2 => (2026, "建国記念の日", 2, 11),
        3 => (2026, "天皇誕生日", 2, 23),
        4 => (2026, "春分の日", 3, 20),
        5 => (2026, "昭和の日", 4, 29),
        6 => (2026, "憲法記念日", 5, 3),
        7 => (2026, "みどりの日", 5, 4),
        8 => (2026, "こどもの日", 5, 5),
        9 => (2026, "", 5, 6),
        10 => (2026, "海の日", 7, 20),
        11 => (2026, "山の日", 8, 11),
        12 => (2026, "敬老の日", 9, 21),
        13 => (2026, "", 9, 22),
        14 => (2026, "秋分の日", 9, 23),
        15 => (2026, "スポーツの日", 10, 12),
        16 => (2026, "文化の日", 11, 3),
        17 => (2026, "勤労感謝の日", 11, 23),
        18 => (2027, "元日", 1, 1),
        19 => (2027, "成人の日", 1, 11),
        20 => (2027, "建国記念の日", 2, 11),
        21 => (2027, "天皇誕生日", 2, 23),
        22 => (2027, "春分の日", 3, 21),
        23 => (2027, "", 3, 22),
        24 => (2027, "昭和の日", 4, 29),
        25 => (2027, "憲法記念日", 5, 3),
        26 => (2027, "みどりの日", 5, 4),
        27 => (2027, "こどもの日", 5, 5),
        28 => (2027, "海の日", 7, 19),
        29 => (2027, "山の日", 8, 11),
        30 => (2027, "敬老の日", 9, 20),
        31 => (2027, "秋分の日", 9, 23),
        32 => (2027, "スポーツの日", 10, 11),
        33 => (2027, "文化の日", 11, 3),
        _ => (2027, "勤労感謝の日", 11, 23),
    }
}

/// The holiday that `date` is, if it is one: `Named` with the name, or
/// `Unnamed` for an entry without a name.
pub fn lookup(date: CivilDate) -> (r: Option<Holiday>)
    ensures
        match find_entry(0, date.year as int, date.month as int, date.day as int) {
            None => r is None,
            Some(i) => if holiday_entry(i).1.len() == 0 {
                r == Some(Holiday::Unnamed)
            } else {
                r matches Some(Holiday::Named(s)) && s@ == holiday_entry(i).1
            },
        },
{
    let mut i: usize = 0;
    while i < HOLIDAY_COUNT
        invariant
            i <= HOLIDAY_COUNT,
            find_entry(0, date.year as int, date.month as int, date.day as int)
                == find_entry(i as int, date.year as int, date.month as int, date.day as int),
        decreases HOLIDAY_COUNT - i,
    {
        let (y, name, m, d) = table_entry(i);
        if y == date.year && m == date.month && d == date.day {
            if name.unicode_len() == 0 {
                return Some(Holiday::Unnamed);
            } else {
                return Some(Holiday::Named(String::from_str(name)));
            }
        }
        i = i + 1;
    }
    None
}

// ─── Law: the table names each day at most once ──────────────────

/// A number that orders the entries by their day.
pub open spec fn entry_key(i: int) -> int {
    holiday_entry(i).0 * 10000 + holiday_entry(i).2 * 100 + holiday_entry(i).3
}

/// Each entry is a day that exists, and the entries come in the order of
/// their days.
proof fn lemma_entry_step(i: int)
    requires
        0 <= i < HOLIDAY_COUNT,
    ensures
        valid_ymd(holiday_entry(i).0, holiday_entry(i).2, holiday_entry(i).3),
        i + 1 < HOLIDAY_COUNT ==> entry_key(i) < entry_key(i + 1),
{
}

proof fn lemma_entries_ascend(i: int, j: int)
    requires
        0 <= i < j < HOLIDAY_COUNT,
    ensures
        entry_key(i) < entry_key(j),
    decreases j - i,
{
    lemma_entry_step(j - 1);
    if i < j - 1 {
        lemma_entries_ascend(i, j - 1);
    }
}

/// The holiday table is sound: every entry is a day that exists, and no day
/// appears in two entries, so the holiday that a day is comes from one entry.
pub proof fn law_holiday_table_sound(i: int, j: int)
    requires
        0 <= i < HOLIDAY_COUNT,
        0 <= j < HOLIDAY_COUNT,
        i != j,
    ensures
        valid_ymd(holiday_entry(i).0, holiday_entry(i).2, holiday_entry(i).3),
        !entry_is(j, holiday_entry(i).0, holiday_entry(i).2, holiday_entry(i).3),
{
    lemma_entry_step(i);
    lemma_entry_step(j);
    if i < j {
        lemma_entries_ascend(i, j);
    } else {
        lemma_entries_ascend(j, i);
    }
}

} // verus!
