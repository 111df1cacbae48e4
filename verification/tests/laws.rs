use oyatsu::holidays::{lookup, Holiday};
use oyatsu::date::{days_between, julian_day_number, shift_days, CivilDate};
use oyatsu::i18n::{
    era_en, eto_en, jikoku_en, kanji_num_to_u32, month_name_en, solar_term_en, Lang,
};
use oyatsu::koyomi::{
    calc_shanichi, calculate_japanese_time, day_kanji_cycle, japanese_month_name, japanese_year,
    jikkan_of_date, kanji_number, sixty_kanji_cycle, term_name_str, LocalTime,
};

fn d(y: i32, m: u32, day: u32) -> CivilDate {
    CivilDate::from_ymd_opt(y, m, day).unwrap()
}

#[test]
fn kanji_numerals_read_back() {
    for n in [1u32, 2, 9, 10, 11, 19, 20, 99, 100, 101, 110, 999, 1000, 1001, 2026, 9999] {
        assert_eq!(kanji_num_to_u32(&kanji_number(n)), n);
    }
}

#[test]
fn era_years_read_back_in_english() {
    assert_eq!(era_en(&japanese_year(d(2026, 6, 22))), "Reiwa 8");
    assert_eq!(era_en(&japanese_year(d(2019, 5, 1))), "Reiwa 1");
    assert_eq!(era_en(&japanese_year(d(1989, 1, 7))), "Showa 64");
    assert_eq!(era_en(&japanese_year(d(1912, 7, 29))), "Meiji 45");
    assert_eq!(era_en(&japanese_year(d(2118, 1, 1))), "Reiwa 100");
    assert_eq!(era_en(&japanese_year(d(12017, 12, 31))), "Reiwa 9999");
}

#[test]
fn later_dates_count_more_days() {
    let a = d(2025, 12, 31);
    let b = d(2026, 1, 1);
    assert!(a.is_on_or_before(&b));
    assert!(days_between(b, a) > 0);
    assert_eq!(days_between(d(2024, 3, 1), d(2024, 2, 28)), 2);
    assert_eq!(days_between(d(2026, 3, 1), d(2026, 2, 28)), 1);
}

#[test]
fn sixty_day_and_year_cycles() {
    assert_eq!(sixty_kanji_cycle(d(1966, 5, 5)), sixty_kanji_cycle(d(2026, 5, 5)));
    let day = d(2026, 6, 22);
    assert_eq!(day_kanji_cycle(day), day_kanji_cycle(shift_days(day, 60)));
    assert_ne!(day_kanji_cycle(day), day_kanji_cycle(shift_days(day, 1)));
    assert_eq!((jikkan_of_date(day) + 1) % 10, jikkan_of_date(shift_days(day, 1)));
}

#[test]
fn shanichi_is_the_nearest_tsuchinoe_day() {
    for (equinox, morning) in [
        (d(2024, 3, 20), false),
        (d(2024, 9, 22), false),
        (d(2025, 3, 20), false),
        (d(2025, 9, 23), true),
        (d(2026, 3, 20), false),
        (d(2026, 9, 23), true),
    ] {
        let s = calc_shanichi(equinox, morning);
        assert_eq!(jikkan_of_date(s), 4);
        let off = days_between(s, equinox);
        assert!(off.abs() <= 5);
        for k in -off.abs() + 1..off.abs() {
            assert_ne!(jikkan_of_date(shift_days(equinox, k)), 4);
        }
    }
    // from a 癸 day, 戊 days lie five days on either side
    let e = d(2026, 9, 26);
    assert_eq!(jikkan_of_date(e), 9);
    assert_eq!(calc_shanichi(e, true), d(2026, 9, 21));
    assert_eq!(calc_shanichi(e, false), d(2026, 10, 1));
    assert_eq!(julian_day_number(d(2026, 10, 1)) - julian_day_number(e), 5);
}

fn at(ms: i64, h: u32, m: u32) -> LocalTime {
    LocalTime { timestamp_ms: ms, hour: h, minute: m }
}

#[test]
fn the_snack_hour_is_the_fifth_daytime_hour() {
    let minute = 60_000i64;
    let rise = at(300 * minute, 5, 0);
    let set = at(1140 * minute, 19, 0);
    // daytime 14 hours: 未 runs from 5 + 14*4/6 h to 5 + 14*5/6 h
    let start = 300 * minute + 840 * minute * 4 / 6;
    let end = 300 * minute + 840 * minute * 5 / 6;
    for (t, expected) in [(start - 1, false), (start, true), (end - 1, true), (end, false)] {
        let jt = calculate_japanese_time(at(t, 0, 0), rise, set);
        assert_eq!(jt.is_hitsuji_time, expected);
        assert_eq!(jt.label.starts_with('未'), expected);
    }
}

#[test]
fn clock_labels_read_in_english() {
    let hour = 3_600_000i64;
    let rise = at(6 * hour, 6, 0);
    let set = at(18 * hour, 18, 0);
    let jt = calculate_japanese_time(at(14 * hour + hour / 2, 14, 30), rise, set);
    assert_eq!(jikoku_en(&jt.label), "Hitsuji Futatsu");
    let jt = calculate_japanese_time(at(23 * hour, 23, 0), rise, set);
    assert_eq!(jt.label, "亥三つ");
    assert_eq!(jikoku_en(&jt.label), "I Mitsu");
}

#[test]
fn names_read_in_english() {
    let en = [
        "Mutsuki (Jan)", "Kisaragi (Feb)", "Yayoi (Mar)", "Uzuki (Apr)", "Satsuki (May)",
        "Minazuki (Jun)", "Fumizuki (Jul)", "Hazuki (Aug)", "Nagatsuki (Sep)",
        "Kannazuki (Oct)", "Shimotsuki (Nov)", "Shiwasu (Dec)",
    ];
    for m in 1..=12u32 {
        assert_eq!(month_name_en(japanese_month_name(d(2026, m, 1))), en[(m - 1) as usize]);
    }
    for i in 0..24 {
        assert_ne!(solar_term_en(term_name_str(i)), "(unknown term)");
    }
    assert_eq!(solar_term_en(term_name_str(0)), "Minor Cold");
    assert_eq!(solar_term_en(term_name_str(23)), "Winter Solstice");
    assert_eq!(eto_en(&sixty_kanji_cycle(d(2026, 1, 1))), "Hinoe-Uma");
    assert_eq!(eto_en(&sixty_kanji_cycle(d(1983, 1, 1))), "Mizunoto-I");
}

#[test]
fn language_names_ignore_case() {
    for s in ["ja", "JA", "Ja", "jApAnEsE"] {
        assert_eq!(Lang::from_str(s).unwrap(), Lang::Ja);
    }
    for s in ["en", "EN", "English", "eNgLiSh"] {
        assert_eq!(Lang::from_str(s).unwrap(), Lang::En);
    }
    assert_eq!(Lang::from_str("Fr"), Lang::from_str("fR"));
}

#[test]
fn each_day_of_the_table_is_one_holiday() {
    // neighbouring entries keep their own answers
    assert_eq!(lookup(d(2026, 9, 21)), Some(Holiday::Named("敬老の日".to_string())));
    assert_eq!(lookup(d(2026, 9, 22)), Some(Holiday::Unnamed));
    assert_eq!(lookup(d(2026, 9, 23)), Some(Holiday::Named("秋分の日".to_string())));
    // the same month and day in another year is another entry
    assert_eq!(lookup(d(2026, 3, 20)), Some(Holiday::Named("春分の日".to_string())));
    assert_eq!(lookup(d(2027, 3, 20)), None);
}
