use oyatsu::date::CivilDate;
use oyatsu::moonface::{
    describe_en, describe_ja, format_en, format_ja, next_phase, MoonPhase, NextMoonEvent,
    PhaseCandidate,
};

fn d(y: i32, m: u32, day: u32) -> CivilDate {
    CivilDate::from_ymd_opt(y, m, day).unwrap()
}

#[test]
fn test_format_ja() {
    assert_eq!(format_ja(MoonPhase::New, 3), "三日後に朔");
    assert_eq!(format_ja(MoonPhase::FirstQuarter, 12), "十二日後に上弦");
    assert_eq!(format_ja(MoonPhase::Full, 0), "今夜は望");
    assert_eq!(format_ja(MoonPhase::LastQuarter, 0), "今夜は下弦");
    assert_eq!(format_ja(MoonPhase::New, -1), "今夜は朔");
}

#[test]
fn test_format_en() {
    assert_eq!(format_en(MoonPhase::New, 3), "New Moon in 3 days");
    assert_eq!(format_en(MoonPhase::FirstQuarter, 12), "First Quarter in 12 days");
    assert_eq!(format_en(MoonPhase::Full, 0), "Tonight: Full Moon");
    assert_eq!(format_en(MoonPhase::LastQuarter, 0), "Tonight: Last Quarter");
    assert_eq!(format_en(MoonPhase::New, 1), "New Moon tomorrow");
}

#[test]
fn phase_names() {
    assert_eq!(MoonPhase::from_offset(0), MoonPhase::New);
    assert_eq!(MoonPhase::from_offset(1), MoonPhase::FirstQuarter);
    assert_eq!(MoonPhase::from_offset(2), MoonPhase::Full);
    assert_eq!(MoonPhase::from_offset(3), MoonPhase::LastQuarter);
    assert_eq!(MoonPhase::Full.name_ja(), "望");
    assert_eq!(MoonPhase::FirstQuarter.name_en(), "First Quarter");
    assert_eq!(format_ja(MoonPhase::Full, 1), "一日後に望");
    assert_eq!(format_ja(MoonPhase::New, 21), "二十一日後に朔");
}

fn cand(offset: u8, ms: i64, date: CivilDate) -> PhaseCandidate {
    PhaseCandidate { phase_offset: offset, timestamp_ms: ms, local_date: date }
}

#[test]
fn next_phase_picks_the_earliest_not_before() {
    let cands = vec![
        cand(0, 100, d(2026, 1, 1)),
        cand(1, 300, d(2026, 1, 3)),
        cand(2, 200, d(2026, 1, 2)),
        cand(3, 200, d(2026, 1, 4)),
    ];
    let ev = next_phase(150, &cands).unwrap();
    assert_eq!(ev.phase, MoonPhase::Full);
    assert_eq!(ev.timestamp_ms, 200);
    assert_eq!(ev.local_date, d(2026, 1, 2));
    // an instant that is itself a phase is its own next phase
    let ev = next_phase(100, &cands).unwrap();
    assert_eq!(ev.phase, MoonPhase::New);
    let again = next_phase(ev.timestamp_ms, &cands).unwrap();
    assert_eq!(again, ev);
    assert!(next_phase(301, &cands).is_none());
}

#[test]
fn describe_counts_days_from_today() {
    let ev = NextMoonEvent { phase: MoonPhase::New, timestamp_ms: 0, local_date: d(2026, 1, 19) };
    assert_eq!(describe_ja(&ev, d(2026, 1, 16)), "三日後に朔");
    assert_eq!(describe_ja(&ev, d(2026, 1, 19)), "今夜は朔");
    assert_eq!(describe_en(&ev, d(2026, 1, 18)), "New Moon tomorrow");
    assert_eq!(describe_en(&ev, d(2025, 12, 31)), "New Moon in 19 days");
}
