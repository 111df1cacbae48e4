//! The principal phases of the moon (new moon, first quarter, full moon,
//! last quarter) and the messages that announce the next one.
//!
//! The instants of the phases are computed with floating point outside this
//! library (Meeus, ch. 49) and handed in as candidates; the choice of the
//! next phase and the wording of the messages are here.

use vstd::prelude::*;
use crate::date::{days_between, CivilDate};
use crate::koyomi::{kanji_number, kanji_numeral};
use crate::text::{decimal, decimal_string, has_prefix};

verus! {

/// A principal phase of the moon.
#[derive(Debug, Clone, Copy, PartialEq, Eq, Structural)]
pub enum MoonPhase {
    /// 朔 (new moon)
    New,
    /// 上弦 (first quarter)
    FirstQuarter,
    /// 望 (full moon)
    Full,
    /// 下弦 (last quarter)
    LastQuarter,
}

pub open spec fn phase_name_ja(p: MoonPhase) -> Seq<char> {
    match p {
        MoonPhase::New => "朔"@,
        MoonPhase::FirstQuarter => "上弦"@,
        MoonPhase::Full => "望"@,
        MoonPhase::LastQuarter => "下弦"@,
    }
}

pub open spec fn phase_name_en(p: MoonPhase) -> Seq<char> {
    match p {
        MoonPhase::New => "New Moon"@,
        MoonPhase::FirstQuarter => "First Quarter"@,
        MoonPhase::Full => "Full Moon"@,
        MoonPhase::LastQuarter => "Last Quarter"@,
    }
}

/// The phase a quarter-lunation `offset` past a new moon: 0 朔, 1 上弦, 2 望,
/// 3 下弦.
pub open spec fn phase_of_offset(offset: int) -> MoonPhase {
    if offset == 0 {
        MoonPhase::New
    } else if offset == 1 {
        MoonPhase::FirstQuarter
    } else if offset == 2 {
        MoonPhase::Full
    } else {
        MoonPhase::LastQuarter
    }
}

impl MoonPhase {
    /// The Japanese name (朔, 上弦, 望, 下弦).
    pub fn name_ja(self) -> (r: &'static str)
        ensures
            r@ == phase_name_ja(self),
    {
        match self {
            MoonPhase::New => "朔",
            MoonPhase::FirstQuarter => "上弦",
            MoonPhase::Full => "望",
            MoonPhase::LastQuarter => "下弦",
        }
    }

    /// The English name (New Moon, First Quarter, Full Moon, Last Quarter).
    pub fn name_en(self) -> (r: &'static str)
        ensures
            r@ == phase_name_en(self),
    {
        match self {
            MoonPhase::New => "New Moon",
            MoonPhase::FirstQuarter => "First Quarter",
            MoonPhase::Full => "Full Moon",
            MoonPhase::LastQuarter => "Last Quarter",
        }
    }

    /// The phase for an offset in quarter lunations (0 朔, 1 上弦, 2 望, 3
    /// 下弦).
    pub fn from_offset(offset: u8) -> (r: MoonPhase)
        requires
            offset <= 3,
        ensures
            r == phase_of_offset(offset as int),
    {
        match offset {
            0 => MoonPhase::New,
            1 => MoonPhase::FirstQuarter,
            2 => MoonPhase::Full,
            _ => MoonPhase::LastQuarter,
        }
    }
}

// ─── The next phase ──────────────────────────────────────────────

/// A computed phase: its offset in quarter lunations past a new moon (0..=3),
/// its instant in milliseconds since the Unix epoch, and its local date.
#[derive(Clone, Copy, Debug, PartialEq, Eq, Structural)]
pub struct PhaseCandidate {
    pub phase_offset: u8,
    pub timestamp_ms: i64,
    pub local_date: CivilDate,
}

/// The next phase of the moon: which phase, its instant in milliseconds
/// since the Unix epoch, and its local date.
#[derive(Clone, Copy, Debug, PartialEq, Eq, Structural)]
pub struct NextMoonEvent {
    pub phase: MoonPhase,
    pub timestamp_ms: i64,
    pub local_date: CivilDate,
}

/// Candidate `k` is the next phase at or after `after`: the earliest such
/// candidate, and the first of the list among equally early ones.
pub open spec fn is_next_candidate(after: int, cs: Seq<PhaseCandidate>, k: int) -> bool {
    &&& 0 <= k < cs.len()
    &&& cs[k].timestamp_ms >= after
    &&& forall|j: int| 0 <= j < cs.len() && cs[j].timestamp_ms >= after ==> cs[k].timestamp_ms <= cs[j].timestamp_ms
    &&& forall|j: int| 0 <= j < k && cs[j].timestamp_ms >= after ==> cs[k].timestamp_ms < cs[j].timestamp_ms
}

/// The event of candidate `c`.
pub open spec fn event_of(c: PhaseCandidate) -> NextMoonEvent {
    NextMoonEvent {
        phase: phase_of_offset(c.phase_offset as int),
        timestamp_ms: c.timestamp_ms,
        local_date: c.local_date,
    }
}

pub open spec fn candidates_valid(cs: Seq<PhaseCandidate>) -> bool {
    forall|j: int| 0 <= j < cs.len() ==> #[trigger] cs[j].phase_offset <= 3
}

/// The first phase of the moon at or after the instant `after_ms`, among
/// `candidates` (the phases of the lunations around it); `None` when every
/// candidate lies before it.
pub fn next_phase(after_ms: i64, candidates: &Vec<PhaseCandidate>) -> (r: Option<NextMoonEvent>)
    requires
        candidates_valid(candidates@),
    ensures
        r is None <==> forall|j: int| 0 <= j < candidates.len() ==> #[trigger] candidates[j].timestamp_ms < after_ms,
        r matches Some(ev) ==> exists|k: int|
            is_next_candidate(after_ms as int, candidates@, k) && ev == event_of(#[trigger] candidates[k]),
{
    let mut best: Option<usize> = None;
    let mut i: usize = 0;
    while i < candidates.len()
        invariant
            i <= candidates.len(),
            best is None ==> forall|j: int| 0 <= j < i ==> #[trigger] candidates[j].timestamp_ms < after_ms,
            best matches Some(k) ==> {
                &&& k < i
                &&& candidates[k as int].timestamp_ms >= after_ms
                &&& forall|j: int| 0 <= j < i && #[trigger] candidates[j].timestamp_ms >= after_ms ==> candidates[k as int].timestamp_ms <= candidates[j].timestamp_ms
                &&& forall|j: int| 0 <= j < k && #[trigger] candidates[j].timestamp_ms >= after_ms ==> candidates[k as int].timestamp_ms < candidates[j].timestamp_ms
            },
        decreases candidates.len() - i,
    {
        let c = candidates[i];
        if c.timestamp_ms >= after_ms {
            let better = match best {
                None => true,
                Some(k) => c.timestamp_ms < candidates[k].timestamp_ms,
            };
            if better {
                best = Some(i);
            }
        }
        i = i + 1;
    }
    match best {
        Some(k) => {
            let c = candidates[k];
            assert(is_next_candidate(after_ms as int, candidates@, k as int));
            Some(NextMoonEvent {
                phase: MoonPhase::from_offset(c.phase_offset),
                timestamp_ms: c.timestamp_ms,
                local_date: c.local_date,
            })
        },
        None => None,
    }
}

// ─── Messages ────────────────────────────────────────────────────

/// The Japanese message for a phase `days` days ahead: 今夜は望 for today or
/// a day passed, 三日後に朔 otherwise.
pub open spec fn message_ja(phase: MoonPhase, days: int) -> Seq<char> {
    if days <= 0 {
        "今夜は"@ + phase_name_ja(phase)
    } else {
        kanji_numeral(days) + "日後に"@ + phase_name_ja(phase)
    }
}

/// The English message for a phase `days` days ahead: "Tonight: Full Moon"
/// for today or a day passed, "New Moon tomorrow", "New Moon in 3 days".
pub open spec fn message_en(phase: MoonPhase, days: int) -> Seq<char> {
    if days <= 0 {
        "Tonight: "@ + phase_name_en(phase)
    } else if days == 1 {
        phase_name_en(phase) + " tomorrow"@
    } else {
        phase_name_en(phase) + " in "@ + decimal(days as nat) + " days"@
    }
}

/// The Japanese message for `phase`, `days_until` days ahead (三日後に朔,
/// 今夜は望).
pub fn format_ja(phase: MoonPhase, days_until: i64) -> (r: String)
    requires
        days_until <= 9999,
    ensures
        r@ == message_ja(phase, days_until as int),
{
    let name = phase.name_ja();
    if days_until <= 0 {
        let mut s = String::from_str("今夜は");
        s.append(name);
        s
    } else {
        let mut s = kanji_number(days_until as u32);
        s.append("日後に");
        s.append(name);
        s
    }
}

/// The English message for `phase`, `days_until` days ahead ("New Moon in 3
/// days", "Tonight: Full Moon", "New Moon tomorrow").
pub fn format_en(phase: MoonPhase, days_until: i64) -> (r: String)
    ensures
        r@ == message_en(phase, days_until as int),
{
    let name = phase.name_en();
    if days_until <= 0 {
        let mut s = String::from_str("Tonight: ");
        s.append(name);
        s
    } else if days_until == 1 {
        let mut s = String::from_str(name);
        s.append(" tomorrow");
        s
    } else {
        let mut s = String::from_str(name);
        s.append(" in ");
        s.append(decimal_string(days_until as u64).as_str());
        s.append(" days");
        s
    }
}

/// The Japanese message for the next phase `ev`, counted in days from
/// `today`.
pub fn describe_ja(ev: &NextMoonEvent, today: CivilDate) -> (r: String)
    requires
        ev.local_date.valid(),
        today.valid(),
        ev.local_date.days() - today.days() <= 9999,
    ensures
        r@ == message_ja(ev.phase, ev.local_date.days() - today.days()),
{
    let days = days_between(ev.local_date, today);
    format_ja(ev.phase, days)
}

/// The English message for the next phase `ev`, counted in days from
/// `today`.
pub fn describe_en(ev: &NextMoonEvent, today: CivilDate) -> (r: String)
    requires
        ev.local_date.valid(),
        today.valid(),
    ensures
        r@ == message_en(ev.phase, ev.local_date.days() - today.days()),
{
    let days = days_between(ev.local_date, today);
    format_en(ev.phase, days)
}


// ─── Laws ────────────────────────────────────────────────────────

/// The next phase after the instant of a phase is that phase itself: a
/// phase at the very instant the search starts from counts as next, so
/// searching again from the instant of the answer, over the same candidates,
/// gives back the same candidate, and `next_phase` the same event.
pub proof fn law_next_phase_from_its_own_instant(after: int, cs: Seq<PhaseCandidate>, k: int)
    requires
        is_next_candidate(after, cs, k),
    ensures
        is_next_candidate(cs[k].timestamp_ms as int, cs, k),
        forall|k2: int| #[trigger] is_next_candidate(cs[k].timestamp_ms as int, cs, k2) ==> k2 == k
            && event_of(cs[k2]) == event_of(cs[k]),
{
    assert forall|k2: int| #[trigger] is_next_candidate(cs[k].timestamp_ms as int, cs, k2) implies k2 == k by {
        law_next_phase_unique(cs[k].timestamp_ms as int, cs, k, k2);
    }
}

/// The next phase is unique: two candidates that both answer for the same
/// instant are the same candidate.
pub proof fn law_next_phase_unique(after: int, cs: Seq<PhaseCandidate>, k1: int, k2: int)
    requires
        is_next_candidate(after, cs, k1),
        is_next_candidate(after, cs, k2),
    ensures
        k1 == k2,
{
}

/// Each instant has one phase in `cs`: candidates at the same instant are
/// the same phase.
pub open spec fn one_phase_per_instant(cs: Seq<PhaseCandidate>) -> bool {
    forall|a: int, b: int|
        0 <= a < cs.len() && 0 <= b < cs.len() && #[trigger] cs[a].timestamp_ms == #[trigger] cs[b].timestamp_ms
            ==> cs[a].phase_offset == cs[b].phase_offset && cs[a].local_date == cs[b].local_date
}

/// Asking again from the instant of the answer gives the same phase, also
/// when the candidates are computed anew for the second search: the answer
/// `c` of a first search, looked for again from its own instant among any
/// candidates that hold it and give each instant one phase, is found again.
pub proof fn law_next_phase_found_again(after: int, cs: Seq<PhaseCandidate>, k: int, cs2: Seq<PhaseCandidate>, m: int, k2: int)
    requires
        is_next_candidate(after, cs, k),
        0 <= m < cs2.len(),
        cs2[m] == cs[k],
        one_phase_per_instant(cs2),
        is_next_candidate(cs[k].timestamp_ms as int, cs2, k2),
    ensures
        event_of(cs2[k2]) == event_of(cs[k]),
{
    assert(cs2[k2].timestamp_ms <= cs2[m].timestamp_ms);
}

/// On the day of the phase itself the message says "tonight" (今夜は,
/// Tonight:), and on any later day it counts the days.
pub proof fn law_tonight_on_the_day_of_the_phase(phase: MoonPhase, phase_day: CivilDate, today: CivilDate)
    ensures
        phase_day == today ==> has_prefix(message_ja(phase, phase_day.days() - today.days()), "今夜は"@),
        phase_day == today ==> has_prefix(message_en(phase, phase_day.days() - today.days()), "Tonight: "@),
        phase_day.days() - today.days() > 0 ==> !has_prefix(message_en(phase, phase_day.days() - today.days()), "Tonight: "@),
{
    reveal_strlit("今夜は");
    reveal_strlit("Tonight: ");
    let days = phase_day.days() - today.days();
    let ja = "今夜は"@ + phase_name_ja(phase);
    let en = "Tonight: "@ + phase_name_en(phase);
    assert(ja.subrange(0, 3) =~= "今夜は"@);
    assert(en.subrange(0, 9) =~= "Tonight: "@);
    if days > 0 {
        let m = message_en(phase, days);
        if has_prefix(m, "Tonight: "@) {
            assert(m.subrange(0, 9)[0] == 'T');
            reveal_strlit("New Moon");
            reveal_strlit("First Quarter");
            reveal_strlit("Full Moon");
            reveal_strlit("Last Quarter");
            assert(m[0] == phase_name_en(phase)[0]);
        }
    }
}

} // verus!
