use oyatsu::date::{offset_in_range, CivilDate};
use oyatsu::i18n::{era_en, solar_term_en};
use oyatsu::koyomi::{
    japanese_year, sunset_after_sunrise, term_name_str, SeasonalDays, DAY_MS,
};
use oyatsu::moonface::{describe_en, describe_ja, next_phase, MoonPhase, NextMoonEvent, PhaseCandidate};

fn d(y: i32, m: u32, day: u32) -> CivilDate {
    CivilDate::from_ymd_opt(y, m, day).unwrap()
}

#[test]
fn western_years_read_as_digits() {
    assert_eq!(era_en(&japanese_year(d(1868, 1, 24))), "1868");
    assert_eq!(era_en(&japanese_year(d(1867, 12, 31))), "1867");
    assert_eq!(era_en(&japanese_year(d(5, 6, 7))), "5");
    assert_eq!(era_en(&japanese_year(d(0, 1, 1))), "0");
    assert_eq!(era_en(&japanese_year(d(-660, 2, 11))), "660");
    assert_eq!(era_en(&japanese_year(d(1868, 1, 25))), "Meiji 1");
}

#[test]
fn english_term_names_are_distinct_and_known() {
    let names: Vec<&str> = (0..24).map(|i| solar_term_en(term_name_str(i))).collect();
    for i in 0..24 {
        assert_ne!(names[i], "(unknown term)");
        for j in 0..i {
            assert_ne!(names[i], names[j]);
        }
    }
    assert_eq!(solar_term_en("正月"), "(unknown term)");
}

fn cand(offset: u8, ms: i64, date: CivilDate) -> PhaseCandidate {
    PhaseCandidate { phase_offset: offset, timestamp_ms: ms, local_date: date }
}

#[test]
fn a_phase_is_found_again_from_its_own_instant() {
    let first = vec![cand(0, 1_000, d(2026, 6, 15)), cand(1, 700_000, d(2026, 6, 22))];
    let ev = next_phase(500, &first).unwrap();
    assert_eq!(ev.phase, MoonPhase::New);
    // the candidates computed anew around the answer's instant
    let again = vec![cand(3, -600_000, d(2026, 6, 7)), cand(1, 700_000, d(2026, 6, 22)), cand(0, 1_000, d(2026, 6, 15))];
    let ev2 = next_phase(ev.timestamp_ms, &again).unwrap();
    assert_eq!(ev2, ev);
}

#[test]
fn tonight_on_the_day_of_the_phase() {
    let day = d(2026, 6, 25);
    let ev = NextMoonEvent { phase: MoonPhase::Full, timestamp_ms: 0, local_date: day };
    assert!(describe_ja(&ev, day).starts_with("今夜は"));
    assert!(describe_en(&ev, day).starts_with("Tonight: "));
    assert!(!describe_en(&ev, d(2026, 6, 24)).starts_with("Tonight: "));
    assert_eq!(describe_ja(&ev, d(2026, 6, 24)), "一日後に望");
}

#[test]
fn sunset_before_sunrise_moves_a_day_on() {
    assert_eq!(sunset_after_sunrise(1_000, 500), 500 + DAY_MS);
    assert_eq!(sunset_after_sunrise(1_000, 1_000), 1_000);
    assert_eq!(sunset_after_sunrise(1_000, 50_000), 50_000);
}

fn seasonal(year: i32) -> SeasonalDays {
    SeasonalDays {
        risshun: d(year, 2, 4),
        shunbun: d(year, 3, 20),
        shunbun_before_noon: false,
        shubun: d(year, 9, 23),
        shubun_before_noon: true,
        doyo_winter: d(year, 1, 17),
        doyo_spring: d(year, 4, 17),
        doyo_summer: d(year, 7, 20),
        doyo_autumn: d(year, 10, 20),
        nyubai: d(year, 6, 11),
        hangesho: d(year, 7, 2),
    }
}

#[test]
fn seasonal_days_are_checked() {
    assert!(seasonal(2026).is_valid());
    let mut bad = seasonal(2026);
    bad.nyubai = CivilDate { year: 2026, month: 6, day: 31 };
    assert!(!bad.is_valid());
    assert!(CivilDate { year: 2026, month: 6, day: 30 }.is_valid());
    assert!(!CivilDate { year: 2026, month: 2, day: 29 }.is_valid());
    assert!(offset_in_range(d(262142, 12, 31), 0));
    assert!(!offset_in_range(d(262142, 12, 31), 1));
    assert!(!offset_in_range(d(-262143, 1, 1), -1));
    assert!(offset_in_range(d(2026, 1, 1), 209));
}

#[test]
fn english_era_of_any_date() {
    use_era(d(2026, 6, 22), "Reiwa 8");
    use_era(d(2019, 4, 30), "Heisei 31");
    use_era(d(1868, 1, 25), "Meiji 1");
    use_era(d(1868, 1, 24), "1868");
    use_era(d(12017, 12, 31), "Reiwa 9999");
    use_era(d(-5, 3, 1), "5");
}

fn use_era(date: CivilDate, want: &str) {
    assert_eq!(oyatsu::i18n::era_en_of_date(date), want);
    assert_eq!(era_en(&japanese_year(date)), want);
}

#[test]
fn the_next_phase_from_its_own_instant_over_the_same_candidates() {
    let cs = vec![cand(2, 5_000, d(2026, 6, 29)), cand(1, 2_000, d(2026, 6, 22)), cand(0, 9_000, d(2026, 7, 6))];
    let ev = next_phase(1_500, &cs).unwrap();
    assert_eq!(ev.timestamp_ms, 2_000);
    assert_eq!(next_phase(ev.timestamp_ms, &cs), Some(ev));
}
