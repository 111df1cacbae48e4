// Solar terms and seasonal days, reckoned by the library from the solar
// longitude computed here in floating point (Meeus ch. 25).

use oyatsu::date::{date_from_jdn, julian_day_number, CivilDate};
use oyatsu::koyomi::{self, SeasonalDays, SolarTermEntry};

/// Solar longitude (degrees) at which each of the twenty-four solar terms
/// begins, from 小寒 (285°) in steps of 15°.
const SOLAR_TERM_LONGITUDES: [f64; 24] = [
    285.0, 300.0, 315.0, 330.0, 345.0, 0.0, 15.0, 30.0, 45.0, 60.0, 75.0, 90.0, 105.0, 120.0,
    135.0, 150.0, 165.0, 180.0, 195.0, 210.0, 225.0, 240.0, 255.0, 270.0,
];

/// Approximate (month, day) of each term: the centre of the search window.
const SOLAR_TERM_APPROX: [(u32, u32); 24] = [
    (1, 6), (1, 20), (2, 4), (2, 19), (3, 6), (3, 21), (4, 5), (4, 20), (5, 6), (5, 21),
    (6, 6), (6, 21), (7, 7), (7, 23), (8, 7), (8, 23), (9, 8), (9, 23), (10, 8), (10, 23),
    (11, 7), (11, 22), (12, 7), (12, 22),
];

fn r(d: f64) -> f64 {
    d.to_radians()
}

fn rev360(x: f64) -> f64 {
    x.rem_euclid(360.0)
}

/// Julian date of `date` at 0h UT.
pub fn julian_day(date: CivilDate) -> f64 {
    julian_day_number(date) as f64 - 0.5
}

/// Apparent solar longitude λ☉ in degrees, 0..360 (Meeus ch. 25).
pub fn sun_apparent_longitude(jd: f64) -> f64 {
    let t = (jd - 2_451_545.0) / 36_525.0;
    let t2 = t * t;

    let l0 = rev360(280.466_46 + 36_000.769_83 * t + 0.000_303_2 * t2);
    let m_deg = rev360(357.529_11 + 35_999.050_29 * t - 0.000_153_7 * t2);
    let m = r(m_deg);
    let e = 0.016_708_634 - 0.000_042_037 * t - 0.000_000_126_7 * t2;
    let c = (1.914_602 - 0.004_817 * t - 0.000_014 * t2) * m.sin()
        + (0.019_993 - 0.000_101 * t) * (2.0 * m).sin()
        + 0.000_289 * (3.0 * m).sin();
    let theta = l0 + c;
    let v = m_deg + c;
    let r_au = 1.000_001_018 * (1.0 - e * e) / (1.0 + e * r(v).cos());
    let omega = r(rev360(125.044_52 - 1_934.136_26 * t));

    rev360(theta - 0.005_69 - 0.004_78 * omega.sin() - 20.498_9 / (3_600.0 * r_au))
}

/// The Julian date at which the apparent solar longitude equals
/// `target_lon`, searched by bisection within three days of `approx_jd`.
pub fn find_solar_term_jd(target_lon: f64, approx_jd: f64) -> f64 {
    let (mut lo, mut hi) = (approx_jd - 3.0, approx_jd + 3.0);
    for _ in 0..64 {
        let mid = (lo + hi) / 2.0;
        let diff = (sun_apparent_longitude(mid) - target_lon + 180.0).rem_euclid(360.0) - 180.0;
        if diff > 0.0 {
            hi = mid;
        } else {
            lo = mid;
        }
        if hi - lo < 1e-9 {
            break;
        }
    }
    (lo + hi) / 2.0
}

/// The calendar date of Julian date `jd`.
pub fn jd_to_date(jd: f64) -> CivilDate {
    let z = (jd + 0.5).floor() as i64;
    if !(-94_000_000..=97_000_000).contains(&z) {
        panic!("Julian day {z} lies outside the supported years");
    }
    date_from_jdn(z)
}

/// The date (`year`, `month`, `day`), or the 28th of that month where the day
/// does not exist.
fn approx_date(year: i32, month: u32, day: u32) -> CivilDate {
    CivilDate::from_ymd_opt(year, month, day)
        .or_else(|| CivilDate::from_ymd_opt(year, month, day.min(28)))
        .expect("year outside the supported range")
}

/// The Julian date at which the sun reaches `lon` near (`year`, `am`, `ad`).
fn term_jd(year: i32, lon: f64, am: u32, ad: u32) -> f64 {
    find_solar_term_jd(lon, julian_day(approx_date(year, am, ad)))
}

/// The day, in Japan Standard Time, of Julian date `jd` (UTC).
fn jst_date(jd: f64) -> CivilDate {
    jd_to_date(jd + 9.0 / 24.0)
}

/// The entries into all solar terms of the previous and the given year.
pub fn solar_term_entries(year: i32) -> Vec<SolarTermEntry> {
    let mut entries = Vec::with_capacity(48);
    for check_year in [year - 1, year] {
        for (i, &lon) in SOLAR_TERM_LONGITUDES.iter().enumerate() {
            let (am, ad) = SOLAR_TERM_APPROX[i];
            let jd = term_jd(check_year, lon, am, ad);
            entries.push(SolarTermEntry {
                term: i,
                entered_on: jst_date(jd),
                instant_ms: (jd * 86_400_000.0).round() as i64,
            });
        }
    }
    entries
}

/// The day of the sun's longitude `lon` near (`year`, `am`, `ad`), and
/// whether that instant falls before noon, in Japan Standard Time.
fn term_day(year: i32, lon: f64, am: u32, ad: u32) -> (CivilDate, bool) {
    let jd_jst = term_jd(year, lon, am, ad) + 9.0 / 24.0;
    let hours = (jd_jst + 0.5).rem_euclid(1.0) * 24.0;
    (jd_to_date(jd_jst), hours < 12.0)
}

/// The days from which the seasonal days of `year` are reckoned.
pub fn seasonal_days(year: i32) -> SeasonalDays {
    let (shunbun, shunbun_before_noon) = term_day(year, 0.0, 3, 21);
    let (shubun, shubun_before_noon) = term_day(year, 180.0, 9, 23);
    SeasonalDays {
        risshun: term_day(year, 315.0, 2, 4).0,
        shunbun,
        shunbun_before_noon,
        shubun,
        shubun_before_noon,
        doyo_winter: term_day(year, 297.0, 1, 17).0,
        doyo_spring: term_day(year, 27.0, 4, 17).0,
        doyo_summer: term_day(year, 117.0, 7, 19).0,
        doyo_autumn: term_day(year, 207.0, 10, 20).0,
        nyubai: term_day(year, 80.0, 6, 11).0,
        hangesho: term_day(year, 100.0, 7, 2).0,
    }
}

fn d(y: i32, m: u32, day: u32) -> CivilDate {
    CivilDate::from_ymd_opt(y, m, day).unwrap()
}

fn solar_term(date: CivilDate) -> &'static str {
    koyomi::solar_term(date, &solar_term_entries(date.year))
}

fn zassetsu(date: CivilDate) -> Option<&'static str> {
    koyomi::zassetsu(date, &seasonal_days(date.year))
}

fn next_day(date: CivilDate) -> CivilDate {
    oyatsu::date::shift_days(date, 1)
}

// helper: その日の正午時点で solar_term が期待値を返すかチェック
fn check_term(year: i32, month: u32, day: u32, expected: &str) {
    let date = d(year, month, day);
    assert_eq!(
        solar_term(date),
        expected,
        "{year}/{month:02}/{day:02}: expected {expected}, got {}",
        solar_term(date)
    );
}

// 入り日当日は新しい節気になっていること
#[test]
fn test_solar_term_2026_entry_days() {
    // ephem 参照値の入り日
    check_term(2026, 1, 5, "小寒");
    check_term(2026, 1, 20, "大寒");
    check_term(2026, 2, 4, "立春");
    check_term(2026, 2, 19, "雨水");
    check_term(2026, 3, 5, "啓蟄"); // ephem: 3/5 22:53 JST
    check_term(2026, 3, 20, "春分"); // ephem: 3/20 23:40 JST
    check_term(2026, 4, 5, "清明");
    check_term(2026, 4, 20, "穀雨");
    check_term(2026, 5, 5, "立夏"); // ephem: 5/5 20:42 JST
    check_term(2026, 5, 21, "小満");
    check_term(2026, 6, 6, "芒種");
    check_term(2026, 6, 21, "夏至");
    check_term(2026, 7, 7, "小暑");
    check_term(2026, 7, 23, "大暑");
    check_term(2026, 8, 7, "立秋");
    check_term(2026, 8, 23, "処暑");
    check_term(2026, 9, 7, "白露");
    check_term(2026, 9, 23, "秋分");
    check_term(2026, 10, 8, "寒露");
    check_term(2026, 10, 23, "霜降");
    check_term(2026, 11, 7, "立冬");
    check_term(2026, 11, 22, "小雪");
    check_term(2026, 12, 7, "大雪");
    check_term(2026, 12, 22, "冬至");
}

// 入り日前日は前の節気であること
#[test]
fn test_solar_term_2026_day_before_entry() {
    check_term(2026, 1, 4, "冬至"); // 小寒の前日
    check_term(2026, 1, 19, "小寒"); // 大寒の前日
    check_term(2026, 2, 3, "大寒");
    check_term(2026, 2, 18, "立春");
    check_term(2026, 3, 4, "雨水");
    check_term(2026, 3, 19, "啓蟄");
    check_term(2026, 4, 4, "春分");
    check_term(2026, 4, 19, "清明");
    check_term(2026, 5, 4, "穀雨");
    check_term(2026, 5, 20, "立夏");
    check_term(2026, 6, 5, "小満");
    check_term(2026, 6, 20, "芒種");
    check_term(2026, 7, 6, "夏至");
    check_term(2026, 7, 22, "小暑");
    check_term(2026, 8, 6, "大暑");
    check_term(2026, 8, 22, "立秋");
    check_term(2026, 9, 6, "処暑");
    check_term(2026, 9, 22, "白露");
    check_term(2026, 10, 7, "秋分");
    check_term(2026, 10, 22, "寒露");
    check_term(2026, 11, 6, "霜降");
    check_term(2026, 11, 21, "立冬");
    check_term(2026, 12, 6, "小雪");
    check_term(2026, 12, 21, "大雪");
}

// 異なる年でも正しく動くこと (2025年・2027年)
#[test]
fn test_solar_term_other_years() {
    // 2025年 ephem参照: 夏至=6/21 02:42 UTC = 6/21 11:42 JST
    check_term(2025, 6, 21, "夏至");
    check_term(2025, 6, 20, "芒種");
    // 2025年 冬至: ephem = 12/21 15:02 UTC = 12/22 00:02 JST (日本では12/22)
    check_term(2025, 12, 22, "冬至");
    check_term(2025, 12, 21, "大雪");
    // 2027年 春分: ephem = 3/21 05:24 UTC = 3/21 14:24 JST
    check_term(2027, 3, 21, "春分");
    check_term(2027, 3, 20, "啓蟄");
}

// 年またぎ (1月初旬は前年の冬至期間)
#[test]
fn test_solar_term_year_boundary() {
    // 2026年1月4日はまだ冬至 (小寒は1/5)
    check_term(2026, 1, 1, "冬至");
    check_term(2026, 1, 4, "冬至");
    check_term(2026, 1, 5, "小寒");
}


// 節分 (立春の前日)
#[test]
fn test_zassetsu_setsubun() {
    assert_eq!(zassetsu(d(2024, 2, 3)), Some("節分"));
    // 2025年は124年ぶりに2/2が節分になった年 (立春が2/3のため)
    assert_eq!(zassetsu(d(2025, 2, 2)), Some("節分"));
    assert_eq!(zassetsu(d(2026, 2, 3)), Some("節分"));

    // 前後の日は該当しない
    assert_eq!(zassetsu(d(2026, 2, 2)), None);
    assert_eq!(zassetsu(d(2026, 2, 4)), None); // 立春当日自体は雑節ではない
}

// 八十八夜 (立春から数えて88日目)
#[test]
fn test_zassetsu_hachijuhachiya() {
    assert_eq!(zassetsu(d(2024, 5, 1)), Some("八十八夜"));
    assert_eq!(zassetsu(d(2025, 5, 1)), Some("八十八夜"));
    assert_eq!(zassetsu(d(2026, 5, 2)), Some("八十八夜"));

    assert_eq!(zassetsu(d(2026, 5, 1)), None);
    assert_eq!(zassetsu(d(2026, 5, 3)), None);
}

// 二百十日 (立春から数えて210日目)
#[test]
fn test_zassetsu_nihyakutoka() {
    assert_eq!(zassetsu(d(2024, 8, 31)), Some("二百十日"));
    assert_eq!(zassetsu(d(2025, 8, 31)), Some("二百十日"));
    assert_eq!(zassetsu(d(2026, 9, 1)), Some("二百十日"));

    assert_eq!(zassetsu(d(2026, 8, 31)), None);
    assert_eq!(zassetsu(d(2026, 9, 2)), None);
}

// 彼岸入り (春分・秋分の3日前)
#[test]
fn test_zassetsu_higan_iri() {
    // 春の彼岸入り
    assert_eq!(zassetsu(d(2024, 3, 17)), Some("彼岸入り"));
    assert_eq!(zassetsu(d(2025, 3, 17)), Some("彼岸入り"));
    assert_eq!(zassetsu(d(2026, 3, 17)), Some("彼岸入り"));
    assert_eq!(zassetsu(d(2027, 3, 18)), Some("彼岸入り"));

    // 秋の彼岸入り
    assert_eq!(zassetsu(d(2024, 9, 19)), Some("彼岸入り"));
    assert_eq!(zassetsu(d(2025, 9, 20)), Some("彼岸入り"));
    assert_eq!(zassetsu(d(2026, 9, 20)), Some("彼岸入り"));

    // 前後の日は該当しない
    assert_eq!(zassetsu(d(2026, 3, 16)), None);
    assert_eq!(zassetsu(d(2026, 3, 18)), None);
}

// 土用入り (立春・立夏・立秋・立冬の直前、太陽黄経297°/27°/117°/207°)
#[test]
fn test_zassetsu_doyo_iri() {
    // 2026年: 冬・春・夏・秋の四回
    assert_eq!(zassetsu(d(2026, 1, 17)), Some("土用入り")); // 冬の土用
    assert_eq!(zassetsu(d(2026, 4, 17)), Some("土用入り")); // 春の土用
    assert_eq!(zassetsu(d(2026, 7, 20)), Some("土用入り")); // 夏の土用
    assert_eq!(zassetsu(d(2026, 10, 20)), Some("土用入り")); // 秋の土用

    // 他の年でもズレて正しく計算されること
    assert_eq!(zassetsu(d(2025, 7, 19)), Some("土用入り"));
    assert_eq!(zassetsu(d(2027, 10, 21)), Some("土用入り"));

    // 前後の日は該当しない
    assert_eq!(zassetsu(d(2026, 1, 16)), None);
    assert_eq!(zassetsu(d(2026, 1, 18)), None);
}

// 入梅 (太陽黄経80°)
#[test]
fn test_zassetsu_nyubai() {
    assert_eq!(zassetsu(d(2024, 6, 10)), Some("入梅"));
    assert_eq!(zassetsu(d(2025, 6, 11)), Some("入梅"));
    assert_eq!(zassetsu(d(2026, 6, 11)), Some("入梅"));

    assert_eq!(zassetsu(d(2026, 6, 10)), None);
    assert_eq!(zassetsu(d(2026, 6, 12)), None);
}

// 半夏生 (太陽黄経100°)
#[test]
fn test_zassetsu_hangesho() {
    assert_eq!(zassetsu(d(2024, 7, 1)), Some("半夏生"));
    assert_eq!(zassetsu(d(2025, 7, 1)), Some("半夏生"));
    assert_eq!(zassetsu(d(2026, 7, 2)), Some("半夏生"));

    assert_eq!(zassetsu(d(2026, 7, 1)), None);
    assert_eq!(zassetsu(d(2026, 7, 3)), None);
}

// 社日 (春分・秋分に最も近い戊の日)
#[test]
fn test_zassetsu_shanichi() {
    // 春社
    assert_eq!(zassetsu(d(2024, 3, 25)), Some("社日"));
    assert_eq!(zassetsu(d(2025, 3, 20)), Some("社日"));
    assert_eq!(zassetsu(d(2026, 3, 25)), Some("社日"));

    // 秋社
    assert_eq!(zassetsu(d(2024, 9, 21)), Some("社日"));
    assert_eq!(zassetsu(d(2025, 9, 26)), Some("社日"));
    assert_eq!(zassetsu(d(2026, 9, 21)), Some("社日"));

    // 前後の日(戊ではない日)は該当しない
    assert_eq!(zassetsu(d(2026, 3, 24)), None);
    assert_eq!(zassetsu(d(2026, 3, 26)), None);
}

// 雑節に該当しない、ごく普通の日は None を返すこと
#[test]
fn test_zassetsu_ordinary_day_returns_none() {
    assert_eq!(zassetsu(d(2026, 1, 1)), None);
    assert_eq!(zassetsu(d(2026, 6, 15)), None);
    assert_eq!(zassetsu(d(2026, 8, 15)), None);
    assert_eq!(zassetsu(d(2026, 12, 25)), None);
}

// 2026年全体を走査し、雑節に該当する日と名称の一覧が
// 期待通りであることを一括で確認する回帰テスト。
#[test]
fn test_zassetsu_2026_full_year_scan() {
    let expected: [(CivilDate, &str); 13] = [
        (d(2026, 1, 17), "土用入り"),
        (d(2026, 2, 3), "節分"),
        (d(2026, 3, 17), "彼岸入り"),
        (d(2026, 3, 25), "社日"),
        (d(2026, 4, 17), "土用入り"),
        (d(2026, 5, 2), "八十八夜"),
        (d(2026, 6, 11), "入梅"),
        (d(2026, 7, 2), "半夏生"),
        (d(2026, 7, 20), "土用入り"),
        (d(2026, 9, 1), "二百十日"),
        (d(2026, 9, 20), "彼岸入り"),
        (d(2026, 9, 21), "社日"),
        (d(2026, 10, 20), "土用入り"),
    ];

    let mut actual: Vec<(CivilDate, &str)> = Vec::new();
    let mut day = d(2026, 1, 1);
    let end = d(2026, 12, 31);
    while day.is_on_or_before(&end) {
        if let Some(name) = zassetsu(day) {
            actual.push((day, name));
        }
        day = next_day(day);
    }

    assert_eq!(actual, expected.to_vec());
}
