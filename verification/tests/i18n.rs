use oyatsu::i18n::{
    era_en, eto_en, jikoku_en, kanji_num_to_u32, month_name_en, ordinal_day_en, solar_term_en,
    texts, Lang,
};

#[test]
fn test_kanji_num() {
    assert_eq!(kanji_num_to_u32("元"), 1);
    assert_eq!(kanji_num_to_u32("八"), 8);
    assert_eq!(kanji_num_to_u32("十"), 10);
    assert_eq!(kanji_num_to_u32("十五"), 15);
    assert_eq!(kanji_num_to_u32("三十"), 30);
    assert_eq!(kanji_num_to_u32("三十一"), 31);
    assert_eq!(kanji_num_to_u32("六十四"), 64);
    assert_eq!(kanji_num_to_u32("百"), 100);
    assert_eq!(kanji_num_to_u32("二百"), 200);
}

#[test]
fn test_era_en() {
    assert_eq!(era_en("令和八年"), "Reiwa 8");
    assert_eq!(era_en("令和元年"), "Reiwa 1");
    assert_eq!(era_en("平成三十一年"), "Heisei 31");
    assert_eq!(era_en("昭和六十四年"), "Showa 64");
    assert_eq!(era_en("大正元年"), "Taisho 1");
    assert_eq!(era_en("明治四十五年"), "Meiji 45");
}

#[test]
fn test_jikoku_en() {
    assert_eq!(jikoku_en("未三つ"), "Hitsuji Mitsu");
    assert_eq!(jikoku_en("午一つ"), "Uma Hitotsu");
    assert_eq!(jikoku_en("子四つ"), "Ne Yotsu");
    assert_eq!(jikoku_en("卯二つ"), "U Futatsu");
}

#[test]
fn test_solar_term_en() {
    assert_eq!(solar_term_en("夏至"), "Summer Solstice");
    assert_eq!(solar_term_en("冬至"), "Winter Solstice");
    assert_eq!(solar_term_en("春分"), "Vernal Equinox");
    assert_eq!(solar_term_en("秋分"), "Autumnal Equinox");
}

#[test]
fn test_eto_en() {
    assert_eq!(eto_en("丙午"), "Hinoe-Uma");
    assert_eq!(eto_en("甲子"), "Kinoe-Ne");
    assert_eq!(eto_en("癸亥"), "Mizunoto-I");
}

#[test]
fn test_lang_parse() {
    assert_eq!(Lang::from_str("ja").unwrap(), Lang::Ja);
    assert_eq!(Lang::from_str("en").unwrap(), Lang::En);
    assert_eq!(Lang::from_str("EN").unwrap(), Lang::En);
    assert_eq!(Lang::from_str("Japanese").unwrap(), Lang::Ja);
    assert!(Lang::from_str("fr").is_err());
}

#[test]
fn lang_error_message_names_the_lowered_input() {
    assert_eq!(
        Lang::from_str("FR").unwrap_err(),
        "unsupported language: 'fr'  (supported: ja, en)"
    );
    assert_eq!(Lang::from_str("English").unwrap(), Lang::En);
    assert_eq!(Lang::from_str("JAPANESE").unwrap(), Lang::Ja);
}

#[test]
fn era_en_without_an_era_keeps_the_digits() {
    assert_eq!(era_en("1868年"), "1868");
    assert_eq!(era_en("-5年"), "5");
    assert_eq!(era_en("年"), "年");
    assert_eq!(era_en("令和年"), "Reiwa 0");
    assert_eq!(era_en("令和八年年"), "Reiwa 8");
    assert_eq!(era_en("令和二百年"), "Reiwa 200");
}

#[test]
fn kanji_num_reads_all_places() {
    assert_eq!(kanji_num_to_u32("九千九百九十九"), 9999);
    assert_eq!(kanji_num_to_u32("一千一百一十一"), 1111);
    assert_eq!(kanji_num_to_u32("千百十一"), 1111);
    assert_eq!(kanji_num_to_u32(""), 0);
    assert_eq!(kanji_num_to_u32("x"), 0);
}

#[test]
fn month_names_and_unknown_texts() {
    assert_eq!(month_name_en("睦月"), "Mutsuki (Jan)");
    assert_eq!(month_name_en("水無月"), "Minazuki (Jun)");
    assert_eq!(month_name_en("師走"), "Shiwasu (Dec)");
    assert_eq!(month_name_en("一月"), "(unknown month)");
    assert_eq!(solar_term_en("立春"), "Start of Spring");
    assert_eq!(solar_term_en("霜降"), "Frost's Descent");
    assert_eq!(solar_term_en("spring"), "(unknown term)");
}

#[test]
fn jikoku_without_a_quarter_or_an_hour() {
    assert_eq!(jikoku_en("未"), "Hitsuji");
    assert_eq!(jikoku_en("寅五つ"), "Tora");
    assert_eq!(jikoku_en("時間計算エラー"), "時間計算エラー");
    assert_eq!(jikoku_en("酉四つ"), "Tori Yotsu");
}

#[test]
fn eto_keeps_unknown_characters() {
    assert_eq!(eto_en("戊午"), "Tsuchinoe-Uma");
    assert_eq!(eto_en("x子"), "x-Ne");
    assert_eq!(eto_en("甲y"), "Kinoe-y");
    assert_eq!(eto_en("甲子丑"), "甲子丑");
}

#[test]
fn ordinals() {
    assert_eq!(ordinal_day_en(1), "1st");
    assert_eq!(ordinal_day_en(2), "2nd");
    assert_eq!(ordinal_day_en(3), "3rd");
    assert_eq!(ordinal_day_en(4), "4th");
    assert_eq!(ordinal_day_en(11), "11th");
    assert_eq!(ordinal_day_en(12), "12th");
    assert_eq!(ordinal_day_en(13), "13th");
    assert_eq!(ordinal_day_en(21), "21st");
    assert_eq!(ordinal_day_en(22), "22nd");
    assert_eq!(ordinal_day_en(31), "31st");
}

#[test]
fn fixed_texts() {
    assert_eq!(texts(Lang::Ja).oyatsu, "おやつ");
    assert_eq!(texts(Lang::En).oyatsu, "Oyatsu (snack time!)");
    assert_eq!(texts(Lang::Ja).sunrise_label, "日出");
    assert_eq!(texts(Lang::En).sunset_label, "Sunset");
}
