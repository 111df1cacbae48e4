use oyatsu::date::CivilDate;
use oyatsu::koyomi::{
    calculate_japanese_time, day_kanji_cycle, jikkan_of_date, japanese_month_name,
    japanese_year, kanji_day, kanji_number, sixty_kanji_cycle, to_kanji_number, LocalTime,
};

fn d(y: i32, m: u32, day: u32) -> CivilDate {
    CivilDate::from_ymd_opt(y, m, day).unwrap()
}

#[test]
fn test_era_boundaries() {
    assert_eq!(japanese_year(d(1868, 1, 24)), "1868年");
    assert_eq!(japanese_year(d(1868, 1, 25)), "明治元年");
    assert_eq!(japanese_year(d(1912, 7, 29)), "明治四十五年");
    assert_eq!(japanese_year(d(1912, 7, 30)), "大正元年");
    assert_eq!(japanese_year(d(1926, 12, 24)), "大正十五年");
    assert_eq!(japanese_year(d(1926, 12, 25)), "昭和元年");
    assert_eq!(japanese_year(d(1989, 1, 7)), "昭和六十四年");
    assert_eq!(japanese_year(d(1989, 1, 8)), "平成元年");
    assert_eq!(japanese_year(d(2019, 4, 30)), "平成三十一年");
    assert_eq!(japanese_year(d(2019, 5, 1)), "令和元年");
    assert_eq!(japanese_year(d(2026, 6, 22)), "令和八年");
}

#[test]
fn test_kanji_day() {
    assert_eq!(kanji_day(d(2026, 1, 1)), "一日");
    assert_eq!(kanji_day(d(2026, 1, 2)), "二日");
    assert_eq!(kanji_day(d(2026, 1, 9)), "九日");
    assert_eq!(kanji_day(d(2026, 1, 10)), "十日");
    assert_eq!(kanji_day(d(2026, 1, 13)), "十三日");
    assert_eq!(kanji_day(d(2026, 1, 19)), "十九日");
    assert_eq!(kanji_day(d(2026, 1, 20)), "廿日");
    assert_eq!(kanji_day(d(2026, 1, 25)), "廿五日");
    assert_eq!(kanji_day(d(2026, 1, 29)), "廿九日");
    assert_eq!(kanji_day(d(2026, 1, 30)), "三十日");
    assert_eq!(kanji_day(d(2026, 1, 31)), "三十一日");
}

#[test]
fn test_sixty_kanji_cycle() {
    assert_eq!(sixty_kanji_cycle(d(1984, 1, 1)), "甲子");
    assert_eq!(sixty_kanji_cycle(d(2044, 1, 1)), "甲子");
    assert_eq!(sixty_kanji_cycle(d(2026, 1, 1)), "丙午");
}

#[test]
fn test_japanese_month_name() {
    assert_eq!(japanese_month_name(d(2026, 1, 1)), "睦月");
    assert_eq!(japanese_month_name(d(2026, 6, 1)), "水無月");
    assert_eq!(japanese_month_name(d(2026, 12, 1)), "師走");
}

#[test]
fn era_years_far_from_the_eras() {
    assert_eq!(japanese_year(d(-5, 3, 1)), "-5年");
    assert_eq!(japanese_year(d(1, 1, 1)), "1年");
    assert_eq!(japanese_year(d(3018, 5, 1)), "令和一千年");
    assert_eq!(japanese_year(d(2118, 1, 1)), "令和一百年");
    assert_eq!(japanese_year(d(2129, 1, 1)), "令和一百十一年");
}

#[test]
fn kanji_numbers() {
    assert_eq!(to_kanji_number(0), "");
    assert_eq!(to_kanji_number(-3), "");
    assert_eq!(to_kanji_number(1), "元");
    assert_eq!(to_kanji_number(10), "十");
    assert_eq!(to_kanji_number(305), "三百五");
    assert_eq!(to_kanji_number(9999), "九千九百九十九");
    assert_eq!(kanji_number(1), "一");
    assert_eq!(kanji_number(2000), "二千");
}

#[test]
fn day_stems_and_branches() {
    assert_eq!(day_kanji_cycle(d(2000, 1, 1)), "戊午");
    assert_eq!(jikkan_of_date(d(2000, 1, 1)), 4);
    assert_eq!(day_kanji_cycle(d(2000, 3, 1)), "戊午");
    assert_eq!(day_kanji_cycle(d(1900, 1, 1)), "甲戌");
    assert_eq!(sixty_kanji_cycle(d(-262143, 1, 1)), "丁巳");
}

fn at(ms: i64, h: u32, m: u32) -> LocalTime {
    LocalTime { timestamp_ms: ms, hour: h, minute: m }
}

#[test]
fn temporal_hours() {
    let hour = 3_600_000i64;
    let rise = at(6 * hour, 6, 0);
    let set = at(18 * hour, 18, 0);
    // daytime: 12 hours split into six hours of two hours each
    let t = calculate_japanese_time(at(6 * hour, 6, 0), rise, set);
    assert_eq!(t.label, "卯一つ");
    assert!(!t.is_hitsuji_time);
    assert_eq!(t.sun_info, "日出06:00-日入18:00");
    let t = calculate_japanese_time(at(14 * hour + 30 * 60_000, 14, 30), rise, set);
    assert_eq!(t.label, "未二つ");
    assert!(t.is_hitsuji_time);
    let t = calculate_japanese_time(at(16 * hour - 1, 15, 59), rise, set);
    assert_eq!(t.label, "未四つ");
    assert!(t.is_hitsuji_time);
    let t = calculate_japanese_time(at(16 * hour, 16, 0), rise, set);
    assert_eq!(t.label, "申一つ");
    // night after sunset, and before sunrise
    let t = calculate_japanese_time(at(18 * hour, 18, 0), rise, set);
    assert_eq!(t.label, "酉一つ");
    let t = calculate_japanese_time(at(hour, 1, 0), rise, set);
    assert_eq!(t.label, "子三つ");
    // no length: error text
    let t = calculate_japanese_time(at(25 * hour, 1, 0), at(0, 0, 0), at(24 * hour, 0, 0));
    assert_eq!(t.label, "時間計算エラー");
    assert!(!t.is_hitsuji_time);
}
