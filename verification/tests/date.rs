use oyatsu::date::{date_from_jdn, days_between, julian_day_number, shift_days, CivilDate};

fn d(y: i32, m: u32, day: u32) -> CivilDate {
    CivilDate::from_ymd_opt(y, m, day).unwrap()
}

#[test]
fn dates_exist_only_within_their_month() {
    assert!(CivilDate::from_ymd_opt(2026, 2, 29).is_none());
    assert!(CivilDate::from_ymd_opt(2024, 2, 29).is_some());
    assert!(CivilDate::from_ymd_opt(1900, 2, 29).is_none());
    assert!(CivilDate::from_ymd_opt(2000, 2, 29).is_some());
    assert!(CivilDate::from_ymd_opt(2026, 4, 31).is_none());
    assert!(CivilDate::from_ymd_opt(2026, 13, 1).is_none());
    assert!(CivilDate::from_ymd_opt(2026, 0, 1).is_none());
    assert!(CivilDate::from_ymd_opt(2026, 1, 0).is_none());
    assert!(CivilDate::from_ymd_opt(262142, 12, 31).is_some());
    assert!(CivilDate::from_ymd_opt(262143, 1, 1).is_none());
    assert!(CivilDate::from_ymd_opt(-262143, 1, 1).is_some());
    assert!(CivilDate::from_ymd_opt(-262144, 12, 31).is_none());
    assert_eq!(d(2026, 7, 20), CivilDate { year: 2026, month: 7, day: 20 });
}

#[test]
fn julian_day_numbers() {
    assert_eq!(julian_day_number(d(2000, 1, 1)), 2_451_545);
    assert_eq!(julian_day_number(d(1970, 1, 1)), 2_440_588);
    assert_eq!(julian_day_number(d(1582, 10, 15)), 2_299_161);
    assert_eq!(julian_day_number(d(2026, 3, 1)) - julian_day_number(d(2026, 2, 28)), 1);
    assert_eq!(julian_day_number(d(-4713, 11, 24)), 0);
}

#[test]
fn dates_of_julian_day_numbers() {
    assert_eq!(date_from_jdn(2_451_545), d(2000, 1, 1));
    assert_eq!(date_from_jdn(2_299_161), d(1582, 10, 15));
    assert_eq!(date_from_jdn(2_461_214), d(2026, 6, 22));
    // before the reform the Julian calendar is read; its days that the
    // Gregorian calendar lacks fall back to the 28th
    assert_eq!(date_from_jdn(2_299_160), d(1582, 10, 4));
    assert_eq!(date_from_jdn(2_268_992), d(1500, 2, 28));
    assert_eq!(date_from_jdn(2_268_993), d(1500, 3, 1));
    for z in [2_299_161i64, 2_440_588, 2_451_545, 2_451_604, 2_461_213, 2_816_788] {
        assert_eq!(julian_day_number(date_from_jdn(z)), z);
    }
}

#[test]
fn shifting_and_counting_days() {
    assert_eq!(shift_days(d(2026, 2, 4), -1), d(2026, 2, 3));
    assert_eq!(shift_days(d(2026, 2, 4), 87), d(2026, 5, 2));
    assert_eq!(shift_days(d(2024, 2, 4), 209), d(2024, 8, 31));
    assert_eq!(shift_days(d(2025, 12, 31), 1), d(2026, 1, 1));
    assert_eq!(days_between(d(2026, 5, 2), d(2026, 2, 4)), 87);
    assert_eq!(days_between(d(2026, 1, 1), d(2026, 1, 5)), -4);
    assert!(d(2026, 1, 5).is_on_or_before(&d(2026, 1, 5)));
    assert!(d(2025, 12, 31).is_on_or_before(&d(2026, 1, 1)));
    assert!(!d(2026, 2, 1).is_on_or_before(&d(2026, 1, 31)));
}
