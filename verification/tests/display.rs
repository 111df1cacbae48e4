use oyatsu::display::{
    date_display_en, date_display_ja, line_en, line_en_without_sun, line_ja,
    line_ja_without_sun, sun_line_en, sun_line_ja,
};
use oyatsu::holidays::Holiday;
use oyatsu::koyomi::LocalTime;

#[test]
fn day_displays() {
    let named = Some(Holiday::Named("海の日".to_string()));
    assert_eq!(date_display_ja(&named, "廿日", "丙午"), "海の日 廿日丙午");
    assert_eq!(date_display_ja(&Some(Holiday::Unnamed), "六日", "甲子"), "休日 六日甲子");
    assert_eq!(date_display_ja(&None, "九日", "丁亥"), "九日丁亥");
    assert_eq!(date_display_en(&named, "20th", "Hinoe-Uma"), "海の日 20th Hinoe-Uma");
    assert_eq!(date_display_en(&Some(Holiday::Unnamed), "6th", "Kinoe-Ne"), "Holiday 6th Kinoe-Ne");
    assert_eq!(date_display_en(&None, "9th", "Hinoto-I"), "9th Hinoto-I");
}

#[test]
fn output_lines() {
    assert_eq!(
        line_ja(true, "令和八年", "丙午", "水無月", "廿二日丁亥", "未三つ", "夏至", None),
        "おやつ 令和八年丙午歳 水無月 廿二日丁亥 未三つ 夏至"
    );
    assert_eq!(
        line_ja(false, "令和八年", "丙午", "睦月", "十七日", "辰一つ", "小寒", Some("土用入り")),
        "令和八年丙午歳 睦月 十七日 辰一つ 小寒 [土用入り]"
    );
    assert_eq!(
        line_en(true, "Reiwa 8", "Hinoe-Uma", "Minazuki (Jun)", "22nd", "Hitsuji Mitsu", "Summer Solstice", None),
        "Oyatsu (snack time!) Reiwa 8 (Hinoe-Uma) Minazuki (Jun) 22nd Hitsuji Mitsu Summer Solstice"
    );
    assert_eq!(
        line_ja_without_sun("令和八年", "丙午", "水無月", "廿二日", "夏至"),
        "令和八年丙午歳 水無月 廿二日 夏至"
    );
    assert_eq!(
        line_en_without_sun("Reiwa 8", "Hinoe-Uma", "Minazuki (Jun)", "22nd", "Summer Solstice"),
        "Reiwa 8 (Hinoe-Uma)  Minazuki (Jun)  22nd  Summer Solstice"
    );
}

#[test]
fn sun_lines() {
    let rise = LocalTime { timestamp_ms: 0, hour: 4, minute: 25 };
    let set = LocalTime { timestamp_ms: 0, hour: 19, minute: 0 };
    assert_eq!(sun_line_ja(&rise, &set, "三日後に朔"), "(日出04:25-日入19:00 三日後に朔)");
    assert_eq!(sun_line_en(&rise, &set, "New Moon in 3 days"), "(Sunrise 04:25, Sunset 19:00, New Moon in 3 days)");
}
