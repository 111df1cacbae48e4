use oyatsu::cli::{collect_options, location_lines, parse_args, resolve_location, ArgStep, OptionValue};
use oyatsu::i18n::Lang;

const TOKYO: (f64, f64) = (35.681444600642514, 139.76579265965165);

#[test]
fn both_options_win_over_the_file() {
    let r = resolve_location(Some(35.0116), Some(135.7681), Some((43.06, 141.35)), TOKYO);
    assert_eq!(r, (35.0116, 135.7681));
}

#[test]
fn the_file_fills_a_missing_coordinate() {
    assert_eq!(resolve_location(Some(35.0116), None, Some((43.06, 141.35)), TOKYO), (35.0116, 141.35));
    assert_eq!(resolve_location(None, Some(135.7681), Some((43.06, 141.35)), TOKYO), (43.06, 135.7681));
    assert_eq!(resolve_location(None, None, Some((43.06, 141.35)), TOKYO), (43.06, 141.35));
}

#[test]
fn the_default_place_without_a_file() {
    assert_eq!(resolve_location(None, None, None, TOKYO), TOKYO);
    assert_eq!(resolve_location(Some(26.2), None, None, TOKYO), (26.2, TOKYO.1));
    assert_eq!(resolve_location(None, Some(127.7), None, TOKYO), (TOKYO.0, 127.7));
}

fn args(a: &[&str]) -> Vec<String> {
    a.iter().map(|s| s.to_string()).collect()
}

#[test]
fn options_are_read_in_order() {
    assert_eq!(parse_args(&args(&[])), vec![]);
    assert_eq!(
        parse_args(&args(&["--lat", "35.0116", "-lon", "135.7681", "--lang", "EN"])),
        vec![
            ArgStep::Latitude("35.0116".to_string()),
            ArgStep::Longitude("135.7681".to_string()),
            ArgStep::Language(Lang::En),
        ]
    );
    assert_eq!(parse_args(&args(&["-lang", "Japanese"])), vec![ArgStep::Language(Lang::Ja)]);
    // the value is handed on as it stands, to be read as a number later
    assert_eq!(parse_args(&args(&["-lat", "north"])), vec![ArgStep::Latitude("north".to_string())]);
}

#[test]
fn reading_stops_at_version_help_or_error() {
    assert_eq!(parse_args(&args(&["-V", "--bogus"])), vec![ArgStep::Version]);
    assert_eq!(
        parse_args(&args(&["--lat", "1", "--help", "--lat"])),
        vec![ArgStep::Latitude("1".to_string()), ArgStep::Help]
    );
    assert_eq!(
        parse_args(&args(&["--bogus", "-h"])),
        vec![ArgStep::Error("unknown argument: --bogus".to_string())]
    );
}

#[test]
fn option_errors() {
    assert_eq!(
        parse_args(&args(&["--lat"])),
        vec![ArgStep::Error("-lat requires a numeric value".to_string())]
    );
    assert_eq!(
        parse_args(&args(&["--lon"])),
        vec![ArgStep::Error("-lon requires a numeric value".to_string())]
    );
    assert_eq!(
        parse_args(&args(&["--lang"])),
        vec![ArgStep::Error("--lang requires a value (ja or en)".to_string())]
    );
    assert_eq!(
        parse_args(&args(&["--lang", "FR", "-h"])),
        vec![ArgStep::Error("unsupported language: 'fr'  (supported: ja, en)".to_string())]
    );
}

#[test]
fn location_file_lines() {
    use_lines("35.0116\n135.7681\n", Some(("35.0116", "135.7681")));
    // white space at the ends and empty lines are passed over
    use_lines("\n  35.0116 \r\n\n\t135.7681\r\n", Some(("35.0116", "135.7681")));
    use_lines("35.0116\n135.7681", Some(("35.0116", "135.7681")));
    // lines after the second are not read
    use_lines("1\n2\n3\n", Some(("1", "2")));
    use_lines("35.0116\n", None);
    use_lines("  \n\n", None);
    use_lines("", None);
}

fn use_lines(content: &str, expected: Option<(&str, &str)>) {
    let got = location_lines(content);
    let want = expected.map(|(a, b)| (a.to_string(), b.to_string()));
    assert_eq!(got, want);
}

#[test]
fn the_last_of_repeated_options_wins() {
    let vs = vec![
        OptionValue::Latitude(35.0),
        OptionValue::Language(Lang::En),
        OptionValue::Longitude(135.0),
        OptionValue::Latitude(43.0),
        OptionValue::Language(Lang::Ja),
    ];
    let o = collect_options(&vs);
    assert_eq!(o.lat, Some(43.0));
    assert_eq!(o.lon, Some(135.0));
    assert_eq!(o.lang, Some(Lang::Ja));
    let none: Vec<OptionValue<f64>> = vec![];
    let o = collect_options(&none);
    assert_eq!((o.lat, o.lon, o.lang), (None, None, None));
}
