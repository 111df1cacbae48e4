//! The lines that the program prints, assembled from the calendar texts.

use vstd::prelude::*;
use crate::holidays::Holiday;
use crate::koyomi::LocalTime;
use crate::text::{two_digit_string, two_digits};

verus! {

/// `s` followed by `t`.
fn concat(s: &mut String, t: &str)
    ensures
        final(s)@ == old(s)@ + t@,
{
    s.append(t);
}

/// The day as shown in Japanese: the holiday's name (休日 for a holiday
/// without one) and a space before the day, then the day's stem and branch.
pub open spec fn date_display_ja_text(holiday: Option<Holiday>, day: Seq<char>, day_eto: Seq<char>) -> Seq<char> {
    let base = match holiday {
        Some(Holiday::Named(name)) => name@ + seq![' '] + day,
        Some(Holiday::Unnamed) => "休日"@ + seq![' '] + day,
        None => day,
    };
    base + day_eto
}

/// The day as shown in Japanese (海の日 廿日丙午).
pub fn date_display_ja(holiday: &Option<Holiday>, day: &str, day_eto: &str) -> (r: String)
    ensures
        r@ == date_display_ja_text(*holiday, day@, day_eto@),
{
    proof {
        reveal_strlit(" ");
    }
    let mut s = match holiday {
        Some(Holiday::Named(name)) => {
            let mut s = String::from_str(name.as_str());
            concat(&mut s, " ");
            concat(&mut s, day);
            s
        },
        Some(Holiday::Unnamed) => {
            let mut s = String::from_str("休日");
            concat(&mut s, " ");
            concat(&mut s, day);
            s
        },
        None => String::from_str(day),
    };
    concat(&mut s, day_eto);
    s
}

/// The day as shown in English: the holiday's name (Holiday for a holiday
/// without one) and a space before the day, then a space and the day's stem
/// and branch. There is no English table of holiday names: a named holiday
/// keeps its Japanese name (海の日).
pub open spec fn date_display_en_text(holiday: Option<Holiday>, day: Seq<char>, day_eto: Seq<char>) -> Seq<char> {
    let base = match holiday {
        Some(Holiday::Named(name)) => name@ + seq![' '] + day,
        Some(Holiday::Unnamed) => "Holiday"@ + seq![' '] + day,
        None => day,
    };
    base + seq![' '] + day_eto
}

/// The day as shown in English (Holiday 6th Kinoe-Ne).
pub fn date_display_en(holiday: &Option<Holiday>, day: &str, day_eto: &str) -> (r: String)
    ensures
        r@ == date_display_en_text(*holiday, day@, day_eto@),
{
    proof {
        reveal_strlit(" ");
    }
    let mut s = match holiday {
        Some(Holiday::Named(name)) => {
            let mut s = String::from_str(name.as_str());
            concat(&mut s, " ");
            concat(&mut s, day);
            s
        },
        Some(Holiday::Unnamed) => {
            let mut s = String::from_str("Holiday");
            concat(&mut s, " ");
            concat(&mut s, day);
            s
        },
        None => String::from_str(day),
    };
    concat(&mut s, " ");
    concat(&mut s, day_eto);
    s
}

/// The seasonal day in brackets after a space, or nothing.
pub open spec fn bracketed(z: Option<&str>) -> Seq<char> {
    match z {
        Some(t) => seq![' ', '['] + t@ + seq![']'],
        None => Seq::empty(),
    }
}

fn push_bracketed(s: &mut String, z: Option<&str>)
    ensures
        final(s)@ == old(s)@ + bracketed(z),
{
    proof {
        reveal_strlit(" [");
        reveal_strlit("]");
    }
    match z {
        Some(t) => {
            concat(s, " [");
            concat(s, t);
            concat(s, "]");
            assert(final(s)@ =~= old(s)@ + bracketed(z));
        },
        None => {
            assert(s@ =~= old(s)@ + bracketed(z));
        },
    }
}

/// The Japanese line: おやつ and a space in the snack hour, the era year, the
/// year's stem and branch with 歳, the month, the day, the temporal hour, the
/// solar term and the seasonal day.
pub open spec fn line_ja_text(
    snack: bool,
    year: Seq<char>,
    eto: Seq<char>,
    month: Seq<char>,
    date: Seq<char>,
    hour: Seq<char>,
    term: Seq<char>,
    zassetsu: Option<&str>,
) -> Seq<char> {
    (if snack { "おやつ"@ + seq![' '] } else { Seq::empty() }) + year + eto + "歳 "@ + month + seq![' ']
        + date + seq![' '] + hour + seq![' '] + term + bracketed(zassetsu)
}

/// The Japanese line (おやつ 令和八年丙午歳 水無月 廿二日丁亥 未三つ 夏至).
pub fn line_ja(
    snack: bool,
    year: &str,
    eto: &str,
    month: &str,
    date: &str,
    hour: &str,
    term: &str,
    zassetsu: Option<&str>,
) -> (r: String)
    ensures
        r@ == line_ja_text(snack, year@, eto@, month@, date@, hour@, term@, zassetsu),
{
    proof {
        reveal_strlit(" ");
    }
    let mut s = String::new();
    if snack {
        concat(&mut s, "おやつ");
        concat(&mut s, " ");
    }
    concat(&mut s, year);
    concat(&mut s, eto);
    concat(&mut s, "歳 ");
    concat(&mut s, month);
    concat(&mut s, " ");
    concat(&mut s, date);
    concat(&mut s, " ");
    concat(&mut s, hour);
    concat(&mut s, " ");
    concat(&mut s, term);
    push_bracketed(&mut s, zassetsu);
    assert(s@ =~= line_ja_text(snack, year@, eto@, month@, date@, hour@, term@, zassetsu));
    s
}

/// The English line: the snack notice and a space in the snack hour, the era
/// year, the stem and branch in brackets, the month, the day, the temporal
/// hour, the solar term and the seasonal day.
pub open spec fn line_en_text(
    snack: bool,
    era: Seq<char>,
    eto: Seq<char>,
    month: Seq<char>,
    date: Seq<char>,
    hour: Seq<char>,
    term: Seq<char>,
    zassetsu: Option<&str>,
) -> Seq<char> {
    (if snack { "Oyatsu (snack time!)"@ + seq![' '] } else { Seq::empty() }) + era + seq![' ', '(']
        + eto + seq![')', ' '] + month + seq![' '] + date + seq![' '] + hour + seq![' '] + term
        + bracketed(zassetsu)
}

/// The English line (Reiwa 8 (Hinoe-Uma) Minazuki (Jun) 22nd Hinoto-I
/// Hitsuji Mitsu Summer Solstice). There is no English table of seasonal
/// days: the seasonal day keeps its Japanese name (半夏生).
pub fn line_en(
    snack: bool,
    era: &str,
    eto: &str,
    month: &str,
    date: &str,
    hour: &str,
    term: &str,
    zassetsu: Option<&str>,
) -> (r: String)
    ensures
        r@ == line_en_text(snack, era@, eto@, month@, date@, hour@, term@, zassetsu),
{
    proof {
        reveal_strlit(" ");
        reveal_strlit(" (");
        reveal_strlit(") ");
    }
    let mut s = String::new();
    if snack {
        concat(&mut s, "Oyatsu (snack time!)");
        concat(&mut s, " ");
    }
    concat(&mut s, era);
    concat(&mut s, " (");
    concat(&mut s, eto);
    concat(&mut s, ") ");
    concat(&mut s, month);
    concat(&mut s, " ");
    concat(&mut s, date);
    concat(&mut s, " ");
    concat(&mut s, hour);
    concat(&mut s, " ");
    concat(&mut s, term);
    push_bracketed(&mut s, zassetsu);
    assert(s@ =~= line_en_text(snack, era@, eto@, month@, date@, hour@, term@, zassetsu));
    s
}

/// The Japanese line where the sun neither rises nor sets: without the
/// temporal hour and the seasonal day.
pub open spec fn line_ja_without_sun_text(year: Seq<char>, eto: Seq<char>, month: Seq<char>, date: Seq<char>, term: Seq<char>) -> Seq<char> {
    year + eto + "歳 "@ + month + seq![' '] + date + seq![' '] + term
}

/// The Japanese line where the sun neither rises nor sets.
pub fn line_ja_without_sun(year: &str, eto: &str, month: &str, date: &str, term: &str) -> (r: String)
    ensures
        r@ == line_ja_without_sun_text(year@, eto@, month@, date@, term@),
{
    proof {
        reveal_strlit(" ");
    }
    let mut s = String::from_str(year);
    concat(&mut s, eto);
    concat(&mut s, "歳 ");
    concat(&mut s, month);
    concat(&mut s, " ");
    concat(&mut s, date);
    concat(&mut s, " ");
    concat(&mut s, term);
    assert(s@ =~= line_ja_without_sun_text(year@, eto@, month@, date@, term@));
    s
}

/// The English line where the sun neither rises nor sets, its parts two
/// spaces apart.
pub open spec fn line_en_without_sun_text(era: Seq<char>, eto: Seq<char>, month: Seq<char>, date: Seq<char>, term: Seq<char>) -> Seq<char> {
    era + seq![' ', '('] + eto + seq![')', ' ', ' '] + month + seq![' ', ' '] + date + seq![' ', ' '] + term
}

/// The English line where the sun neither rises nor sets.
pub fn line_en_without_sun(era: &str, eto: &str, month: &str, date: &str, term: &str) -> (r: String)
    ensures
        r@ == line_en_without_sun_text(era@, eto@, month@, date@, term@),
{
    proof {
        reveal_strlit(" (");
        reveal_strlit(")  ");
        reveal_strlit("  ");
    }
    let mut s = String::from_str(era);
    concat(&mut s, " (");
    concat(&mut s, eto);
    concat(&mut s, ")  ");
    concat(&mut s, month);
    concat(&mut s, "  ");
    concat(&mut s, date);
    concat(&mut s, "  ");
    concat(&mut s, term);
    assert(s@ =~= line_en_without_sun_text(era@, eto@, month@, date@, term@));
    s
}

/// A local time as HH:MM.
pub open spec fn clock_text(t: LocalTime) -> Seq<char> {
    two_digits(t.hour as nat) + seq![':'] + two_digits(t.minute as nat)
}

fn push_clock(s: &mut String, t: &LocalTime)
    requires
        t.valid(),
    ensures
        final(s)@ == old(s)@ + clock_text(*t),
{
    proof {
        reveal_strlit(":");
    }
    concat(s, two_digit_string(t.hour).as_str());
    concat(s, ":");
    concat(s, two_digit_string(t.minute).as_str());
    assert(final(s)@ =~= old(s)@ + clock_text(*t));
}

/// The Japanese line of sunrise, sunset and the moon, in brackets.
pub open spec fn sun_line_ja_text(rise: LocalTime, set: LocalTime, moon: Seq<char>) -> Seq<char> {
    seq!['('] + "日出"@ + clock_text(rise) + seq!['-'] + "日入"@ + clock_text(set) + seq![' '] + moon
        + seq![')']
}

/// The Japanese line of sunrise, sunset and the moon ((日出04:25-日入19:00
/// 三日後に朔)).
pub fn sun_line_ja(rise: &LocalTime, set: &LocalTime, moon: &str) -> (r: String)
    requires
        rise.valid(),
        set.valid(),
    ensures
        r@ == sun_line_ja_text(*rise, *set, moon@),
{
    proof {
        reveal_strlit("(");
        reveal_strlit("-");
        reveal_strlit(" ");
        reveal_strlit(")");
    }
    let mut s = String::from_str("(");
    concat(&mut s, "日出");
    push_clock(&mut s, rise);
    concat(&mut s, "-");
    concat(&mut s, "日入");
    push_clock(&mut s, set);
    concat(&mut s, " ");
    concat(&mut s, moon);
    concat(&mut s, ")");
    assert(s@ =~= sun_line_ja_text(*rise, *set, moon@));
    s
}

/// The English line of sunrise, sunset and the moon, in brackets.
pub open spec fn sun_line_en_text(rise: LocalTime, set: LocalTime, moon: Seq<char>) -> Seq<char> {
    "(Sunrise "@ + clock_text(rise) + ", Sunset "@ + clock_text(set) + seq![',', ' '] + moon + seq![')']
}

/// The English line of sunrise, sunset and the moon ((Sunrise 04:25, Sunset
/// 19:00, New Moon in 3 days)).
pub fn sun_line_en(rise: &LocalTime, set: &LocalTime, moon: &str) -> (r: String)
    requires
        rise.valid(),
        set.valid(),
    ensures
        r@ == sun_line_en_text(*rise, *set, moon@),
{
    proof {
        reveal_strlit(", ");
        reveal_strlit(")");
    }
    let mut s = String::from_str("(Sunrise ");
    push_clock(&mut s, rise);
    concat(&mut s, ", Sunset ");
    push_clock(&mut s, set);
    concat(&mut s, ", ");
    concat(&mut s, moon);
    concat(&mut s, ")");
    assert(s@ =~= sun_line_en_text(*rise, *set, moon@));
    s
}

} // verus!
