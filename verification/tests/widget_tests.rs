use bloomin8_desktop::capture::{Orientation, Rotation};
use bloomin8_desktop::datetime::{format_date, CivilDate};
use bloomin8_desktop::render_service::{
    check_renders_as_html, parse_target_date, to_capture_orientation,
};
use bloomin8_desktop::widgets::config::{
    PanelOrientation, RotateDirection, WidgetConfig, WidgetKind,
};
use bloomin8_desktop::widgets::countdown::{
    countdown_label, days_until, render_html as countdown_html, CountdownArt, CountdownConfig,
};
use bloomin8_desktop::widgets::crypto::{
    crypto_request, grid_columns, group_thousands, icon_fallback_html, normalize_symbol,
    range_params,
    render_html as crypto_html, split_symbol, CryptoConfig,
};
use bloomin8_desktop::widgets::template::{find_placeholder_token, render, TemplateError};
use bloomin8_desktop::widgets::weather::{
    hour_label, pick_theme, render_html as weather_html, render_html_checked, wmo_lookup,
    CurrentConditions,
    HourlySlots,
};
use bloomin8_desktop::widgets::WidgetError;

fn date(year: i32, month: u32, day: u32) -> CivilDate {
    CivilDate { year, month, day }
}

#[test]
fn substitutes_all_placeholders() {
    let tpl = "hello {{NAME}}, you are {{AGE}}";
    let out = render(tpl, &[("NAME", "Ada"), ("AGE", "36")]).unwrap();
    assert_eq!(out, "hello Ada, you are 36");
}

#[test]
fn errors_on_leftover_placeholder() {
    let tpl = "hello {{NAME}}, you are {{AGE}}";
    let err = render(tpl, &[("NAME", "Ada")]).unwrap_err();
    assert_eq!(err, TemplateError::UnresolvedPlaceholder("{{AGE}}".to_string()));
}

#[test]
fn prose_mentioning_literal_braces_does_not_trip_the_leftover_guard() {
    let tpl = "note: {{NOTE}}";
    let out = render(tpl, &[("NOTE", "use {{ and }} in prose")]).unwrap();
    assert_eq!(out, "note: use {{ and }} in prose");
}

#[test]
fn a_genuinely_unresolved_placeholder_shaped_token_still_errors() {
    let tpl = "note: {{NOTE}} also {{SOME_KEY}}";
    let err = render(tpl, &[("NOTE", "ok")]).unwrap_err();
    assert_eq!(err, TemplateError::UnresolvedPlaceholder("{{SOME_KEY}}".to_string()));
}

#[test]
fn template_without_the_key_is_unchanged() {
    assert_eq!(render("plain text", &[("NAME", "Ada")]).unwrap(), "plain text");
    assert_eq!(find_placeholder_token("a {{X_Y}} b"), Some("{{X_Y}}".to_string()));
    assert_eq!(find_placeholder_token("a {{X_1}} b"), None);
    assert_eq!(find_placeholder_token("a {{lower}} b {{}} {{OK}}"), Some("{{OK}}".to_string()));
}

#[test]
fn the_leftmost_placeholder_shaped_token_is_reported() {
    assert_eq!(find_placeholder_token("{{ {{AGE}}"), Some("{{AGE}}".to_string()));
    assert_eq!(find_placeholder_token("{{{AGE}}"), Some("{{AGE}}".to_string()));
    assert_eq!(find_placeholder_token("{{ab}} {{CD}} {{EF}}"), Some("{{CD}}".to_string()));
    assert_eq!(find_placeholder_token("{{COLS_*}} and {{ }}"), None);
    let err = render("{{ {{AGE}}", &[("NAME", "Ada")]).unwrap_err();
    assert_eq!(err, TemplateError::UnresolvedPlaceholder("{{AGE}}".to_string()));
}

#[test]
fn template_error_message_names_the_token() {
    let e = TemplateError::UnresolvedPlaceholder("{{AGE}}".to_string());
    assert_eq!(
        e.message(),
        "template still has unresolved placeholders after substitution: {{AGE}}"
    );
    assert_eq!(
        WidgetError::Template(e).message(),
        "template error: template still has unresolved placeholders after substitution: {{AGE}}"
    );
}

#[test]
fn condition_group_maps_to_expected_theme() {
    assert_eq!(pick_theme("clear"), "clear");
    assert_eq!(pick_theme("partly"), "cloudy");
    assert_eq!(pick_theme("overcast"), "cloudy");
    assert_eq!(pick_theme("fog"), "fog");
    assert_eq!(pick_theme("drizzle"), "rain");
    assert_eq!(pick_theme("rain"), "rain");
    assert_eq!(pick_theme("snow"), "snow");
    assert_eq!(pick_theme("thunder"), "thunder");
}

#[test]
fn wmo_codes_map_to_condition_and_icon() {
    assert_eq!(wmo_lookup(0), ("Clear Sky", "clear"));
    assert_eq!(wmo_lookup(1234), ("Unknown", "overcast"));
    assert_eq!(wmo_lookup(61), ("Light Rain", "rain"));
    assert_eq!(wmo_lookup(95).1, "thunder");
}

#[test]
fn hour_labels_are_twelve_hour_clock() {
    assert_eq!(hour_label("2026-07-07T15:00").unwrap(), "3 PM");
    assert_eq!(hour_label("2026-07-07T00:00").unwrap(), "12 AM");
    assert!(hour_label("garbage").is_err());
}

#[test]
fn normalize_symbol_appends_usdt_only_when_no_quote_suffix() {
    assert_eq!(normalize_symbol("btc"), "BTCUSDT");
    assert_eq!(normalize_symbol(" eth "), "ETHUSDT");
    assert_eq!(normalize_symbol("solusdc"), "SOLUSDC");
    assert_eq!(normalize_symbol("BTCFDUSD"), "BTCFDUSD");
}

#[test]
fn split_symbol_separates_the_quote_asset() {
    assert_eq!(split_symbol("BTCUSDT"), ("BTC".to_string(), "USDT".to_string()));
    assert_eq!(split_symbol("ETHFDUSD"), ("ETH".to_string(), "FDUSD".to_string()));
}

#[test]
fn thousands_are_grouped_with_commas() {
    assert_eq!(group_thousands("65000"), "65,000");
    assert_eq!(group_thousands("1234567"), "1,234,567");
    assert_eq!(group_thousands("999"), "999");
}

#[test]
fn crypto_ranges_map_to_kline_parameters() {
    assert_eq!(range_params("24h").unwrap(), ("1h", 24));
    assert_eq!(range_params("7d").unwrap(), ("4h", 42));
    assert_eq!(range_params("30d").unwrap(), ("1d", 30));
    assert_eq!(
        range_params("1y").unwrap_err(),
        WidgetError::Data("unsupported crypto range: 1y".to_string())
    );
}

#[test]
fn icon_fallback_shows_the_first_letter() {
    assert_eq!(icon_fallback_html("BTC"), "<div class=\"icon fallback\">B</div>");
    assert_eq!(icon_fallback_html(""), "<div class=\"icon fallback\">?</div>");
}

#[test]
fn grid_is_one_column_up_to_three_cards() {
    assert_eq!(grid_columns(1), (1, 1));
    assert_eq!(grid_columns(3), (1, 3));
    assert_eq!(grid_columns(4), (2, 2));
    assert_eq!(grid_columns(5), (2, 3));
}

/// The placeholders of the bundled crypto page, in a minimal page.
const CRYPTO_TEMPLATE: &str = "<style>.grid{grid-template-columns:repeat({{COLS_PORTRAIT}}, 1fr)} .landscape .grid{grid-template-columns:repeat({{COLS_LANDSCAPE}}, 1fr)}</style><div class=\"range\">{{RANGE_LABEL}}</div><div class=\"grid\">{{CARDS}}</div><footer>{{UPDATED_AT}}</footer>";

/// One card per market symbol, with its lettered icon.
fn cards_for(symbols: &[&str]) -> Vec<String> {
    symbols
        .iter()
        .map(|s| {
            let (base, quote) = split_symbol(s);
            format!("<div class=\"card\">{}{} / {}</div>", icon_fallback_html(&base), base, quote)
        })
        .collect()
}

#[test]
fn render_html_grid_class_is_1_col_for_1_to_3_symbols() {
    let cfg = CryptoConfig { symbols: vec!["BTC".into()], range: "24h".into() };
    let cards = cards_for(&["BTCUSDT"]);
    let html = crypto_html(CRYPTO_TEMPLATE, &cfg, &cards, cards.len(), "2026-07-06 15:04").unwrap();
    assert!(html.contains("repeat(1, 1fr)"));
}

#[test]
fn render_html_grid_class_is_1_col_for_3_symbols() {
    let cfg = CryptoConfig {
        symbols: vec!["BTC".into(), "ETH".into(), "SOL".into()],
        range: "24h".into(),
    };
    let cards = cards_for(&["BTCUSDT", "ETHUSDT", "SOLUSDT"]);
    let html = crypto_html(CRYPTO_TEMPLATE, &cfg, &cards, cards.len(), "2026-07-06 15:04").unwrap();
    assert!(html.contains("repeat(1, 1fr)"));
    assert!(html.contains("repeat(3, 1fr)"));
}

#[test]
fn render_html_grid_class_is_2_col_for_4_symbols() {
    let cfg = CryptoConfig {
        symbols: vec!["BTC".into(), "ETH".into(), "SOL".into(), "XRP".into()],
        range: "24h".into(),
    };
    let cards = cards_for(&["BTCUSDT", "ETHUSDT", "SOLUSDT", "XRPUSDT"]);
    let html = crypto_html(CRYPTO_TEMPLATE, &cfg, &cards, cards.len(), "2026-07-06 15:04").unwrap();
    assert!(html.contains("repeat(2, 1fr)"));
}

#[test]
fn crypto_dashboard_fills_grid_columns() {
    let cfg = CryptoConfig { symbols: vec!["BTC".into()], range: "24h".into() };
    let tpl = "p{{COLS_PORTRAIT}} l{{COLS_LANDSCAPE}} {{RANGE_LABEL}} {{UPDATED_AT}} {{CARDS}}";
    let cards = vec!["<card/>".to_string()];
    let html = crypto_html(tpl, &cfg, &cards, 1, "2026-07-06 15:04").unwrap();
    assert!(html.starts_with("p1 l1 24H 2026-07-06 15:04 <card/>"));
    assert!(!html.contains("{{"));
    assert!(crypto_html(tpl, &cfg, &vec![], 0, "x").is_err());
    assert!(crypto_html(tpl, &cfg, &cards, 2, "x").is_err());
}

#[test]
fn upload_prefix_is_distinct_per_widget_kind() {
    let crypto = WidgetConfig::Crypto { symbols: vec![], range: "24h".into() };
    let weather = WidgetConfig::Weather {
        lat: "0".into(),
        lon: "0".into(),
        city: "".into(),
        force_icon: None,
    };
    let countdown = WidgetConfig::Countdown {
        target_date: "2026-01-01".into(),
        title: "".into(),
        bg_query: "".into(),
        bg_photo: None,
    };
    assert_ne!(crypto.upload_prefix(), weather.upload_prefix());
    assert_ne!(weather.upload_prefix(), countdown.upload_prefix());
    assert_ne!(crypto.upload_prefix(), countdown.upload_prefix());
}

#[test]
fn image_widgets_use_the_photo_lineage() {
    let cfg = WidgetConfig::Image {
        library_id: "abc123".into(),
        mode: "fit".into(),
        border: "white".into(),
    };
    assert_eq!(cfg.upload_prefix(), "photo");
    assert_eq!(cfg.kind(), WidgetKind::Image);
}

#[test]
fn only_image_widgets_lack_an_html_page() {
    let image = WidgetConfig::Image {
        library_id: "abc123".into(),
        mode: "fit".into(),
        border: "white".into(),
    };
    assert_eq!(
        check_renders_as_html(&image),
        Err("image widgets are pushed directly, not rendered as HTML".to_string())
    );
    let countdown = WidgetConfig::Countdown {
        target_date: "2026-01-01".into(),
        title: "".into(),
        bg_query: "".into(),
        bg_photo: None,
    };
    assert_eq!(check_renders_as_html(&countdown), Ok(()));
}

#[test]
fn crypto_requests_need_a_symbol_and_a_known_range() {
    let none: Vec<String> = Vec::new();
    assert_eq!(crypto_request(&none, "24h"), Err(WidgetError::Data("no symbols given".to_string())));
    let btc = vec!["btc".to_string()];
    assert_eq!(crypto_request(&btc, "7d"), Ok(("4h", 42)));
    assert_eq!(
        crypto_request(&btc, "1y"),
        Err(WidgetError::Data("unsupported crypto range: 1y".to_string()))
    );
}

#[test]
fn rotate_direction_defaults_to_clockwise() {
    assert_eq!(RotateDirection::default(), RotateDirection::Cw);
}

#[test]
fn days_until_is_positive_for_future_and_label_is_until() {
    let today = date(2026, 7, 7);
    let target = date(2026, 12, 31);
    let days = days_until(target, today);
    assert_eq!(days, 177);
    assert_eq!(countdown_label(days), "days until");
}

#[test]
fn days_until_is_negative_for_past_and_label_is_since() {
    let today = date(2026, 7, 7);
    let target = date(2026, 1, 1);
    let days = days_until(target, today);
    assert!(days < 0);
    assert_eq!(countdown_label(days), "days since");
}

#[test]
fn countdown_today_counts_as_until() {
    assert_eq!(days_until(date(2026, 7, 7), date(2026, 7, 7)), 0);
    assert_eq!(countdown_label(0), "days until");
}

#[test]
fn date_format_strips_leading_zero_padding_like_pythons_percent_dash_d() {
    let d = date(2026, 7, 7);
    assert_eq!(format_date(&d, "%B %-d, %Y"), "July 7, 2026");
}

/// The placeholders of the bundled countdown page, in a minimal page.
const COUNTDOWN_TEMPLATE: &str = "<body style=\"background-image:url('{{BG_URI}}')\"><h1>{{TITLE}}</h1><div class=\"days\">{{DAYS}}</div><div class=\"label\">{{LABEL}}</div><div class=\"date\">{{DATE}}</div><footer>{{CREDIT}}</footer></body>";

#[test]
fn render_html_has_no_leftover_placeholders() {
    let today = date(2026, 7, 7);
    let config = CountdownConfig {
        target_date: date(2026, 12, 31),
        title: "New Year's Eve".to_string(),
        bg_photo: None,
        bg_query: "van gogh landscape".to_string(),
        cache_dir: std::path::PathBuf::from("countdown-art"),
    };
    let art = CountdownArt {
        bg_uri: bloomin8_desktop::encoding::data_uri("image/jpeg", &[0xFF, 0xD8, 0xFF, 0xD9]),
        credit: "Starry Night \u{2014} Vincent van Gogh".to_string(),
    };
    let html = countdown_html(COUNTDOWN_TEMPLATE, &config, &art, today).unwrap();
    assert!(!html.contains("{{"));
    assert!(html.contains("days until"));
    assert!(html.contains(">177<") || html.contains("177"));
}

#[test]
fn countdown_page_shows_absolute_days_and_label() {
    let config = CountdownConfig {
        target_date: date(2026, 12, 25),
        title: "Christmas".to_string(),
        bg_photo: None,
        bg_query: "cat".to_string(),
        cache_dir: std::path::PathBuf::new(),
    };
    let art = CountdownArt { bg_uri: "data:image/jpeg;base64,AA==".to_string(), credit: "c".to_string() };
    let tpl = "{{DAYS}} {{LABEL}} {{TITLE}} {{DATE}} {{BG_URI}} {{CREDIT}}";
    let html = countdown_html(tpl, &config, &art, date(2026, 7, 6)).unwrap();
    assert_eq!(html, "172 days until Christmas December 25, 2026 data:image/jpeg;base64,AA== c");
    let html = countdown_html(tpl, &config, &art, date(2027, 1, 4)).unwrap();
    assert!(html.starts_with("10 days since"));
}

/// The placeholders of the bundled weather page, in a minimal page.
const WEATHER_TEMPLATE: &str = "<body class=\"theme-{{THEME}}\">{{CITY}}|{{DATE}}|{{TIME}}|{{TEMP}}|{{CONDITION}}|<use href=\"#i-{{ICON}}\"/>|{{PRECIP}}|{{FEELS}}|{{HUMIDITY}}|{{CELLS}}</body>";

fn sample_slots(code: i64) -> HourlySlots {
    HourlySlots {
        time: (0..24).map(|h| format!("2026-07-07T{h:02}:00")).collect(),
        temperature: (0..24).map(|i| 20 + i as i64).collect(),
        precipitation_probability: (0..24).map(|i| Some((i * 5) as i64)).collect(),
        weather_code: vec![code; 24],
    }
}

fn sample_current(code: i64) -> CurrentConditions {
    CurrentConditions {
        time: "2026-07-07T09:00".to_string(),
        temperature: 28,
        apparent_temperature: 31,
        relative_humidity: 70,
        weather_code: code,
    }
}

const WEATHER_PAGE: &str = "{{CITY}}|{{DATE}}|{{TIME}}|theme-{{THEME}}|{{TEMP}}|{{CONDITION}}|{{ICON}}|{{PRECIP}}|{{FEELS}}|{{HUMIDITY}}|{{CELLS}}";

#[test]
fn render_html_has_no_leftover_placeholders_for_each_condition_group() {
    for code in [0, 2, 3, 45, 61, 71, 95] {
        let html =
            weather_html(WEATHER_TEMPLATE, "Taipei", None, &sample_current(code), &sample_slots(code))
                .unwrap();
        assert!(!html.contains("{{"), "code {code} left placeholders");
    }
}

#[test]
fn render_html_labels_first_slot_now() {
    let html =
        weather_html(WEATHER_TEMPLATE, "Taipei", None, &sample_current(0), &sample_slots(0)).unwrap();
    assert!(html.contains("cell-time\">Now<"));
}

#[test]
fn force_icon_overrides_condition_and_theme() {
    let html =
        weather_html(WEATHER_TEMPLATE, "Taipei", Some("thunder"), &sample_current(0), &sample_slots(0))
            .unwrap();
    assert!(html.contains("theme-thunder"));
    assert!(html.contains("Thunder (forced)"));
}

#[test]
fn weather_page_fills_every_value() {
    let html = weather_html(WEATHER_PAGE, "Taipei", None, &sample_current(0), &sample_slots(0)).unwrap();
    assert!(html.contains("theme-clear"));
    assert!(html.starts_with("Taipei|Tuesday, July 7|9:00am|"));
    assert_eq!(html.matches("class=\"cell\"").count(), 5);
    assert!(
        weather_html(WEATHER_PAGE, "Taipei", Some("hail"), &sample_current(0), &sample_slots(0))
            .is_err()
    );
}

#[test]
fn weather_page_needs_the_current_hour_in_the_series() {
    let mut current = sample_current(0);
    current.time = "2026-07-08T09:00".to_string();
    let err = weather_html(WEATHER_PAGE, "Taipei", None, &current, &sample_slots(0)).unwrap_err();
    assert_eq!(
        err,
        WidgetError::Data("current time 2026-07-08T09:00 not found in hourly forecast".to_string())
    );
}

#[test]
fn weather_page_reads_only_the_slots_of_the_strip() {
    // The strip of 09:00 uses the hours 09, 11, 13, 15 and 17; series that
    // end right after hour 17 are enough.
    let mut hourly = sample_slots(0);
    hourly.temperature.truncate(18);
    hourly.precipitation_probability.truncate(18);
    hourly.weather_code.truncate(18);
    let html = weather_html(WEATHER_PAGE, "Taipei", None, &sample_current(0), &hourly).unwrap();
    assert_eq!(html.matches("class=\"cell\"").count(), 5);
    assert!(html.contains("|45|"));
    assert_eq!(
        render_html_checked(WEATHER_PAGE, "Taipei", None, &sample_current(0), &hourly),
        Some(Ok(html))
    );
    hourly.weather_code.truncate(17);
    assert_eq!(render_html_checked(WEATHER_PAGE, "Taipei", None, &sample_current(0), &hourly), None);
    // A page that stops before the strip reads nothing of it.
    assert!(matches!(
        render_html_checked(WEATHER_PAGE, "Taipei", Some("hail"), &sample_current(0), &hourly),
        Some(Err(WidgetError::Data(_)))
    ));
}

#[test]
fn parse_target_date_accepts_iso_and_rejects_garbage() {
    assert!(parse_target_date("2026-12-25").is_ok());
    assert!(parse_target_date("12/25/2026").is_err());
    assert!(parse_target_date("not-a-date").is_err());
}

#[test]
fn parse_target_date_reports_the_bad_text() {
    assert_eq!(parse_target_date("2026-12-25").unwrap(), date(2026, 12, 25));
    let err = parse_target_date("nope").unwrap_err();
    assert!(err.starts_with("invalid target_date \"nope\" (expected YYYY-MM-DD): "));
}

#[test]
fn to_capture_orientation_maps_portrait_and_landscape_rotation() {
    assert_eq!(
        to_capture_orientation(PanelOrientation::Portrait, RotateDirection::Cw),
        Orientation::Portrait
    );
    assert_eq!(
        to_capture_orientation(PanelOrientation::Landscape, RotateDirection::Ccw),
        Orientation::Landscape(Rotation::Ccw)
    );
    assert_eq!(
        to_capture_orientation(PanelOrientation::Landscape, RotateDirection::Cw),
        Orientation::Landscape(Rotation::Cw)
    );
}

#[test]
fn normalizing_a_normalized_symbol_changes_nothing() {
    for sym in [" btc ", "eth", "solusdc", "BNBFDUSD", "", "  x  y "] {
        let once = normalize_symbol(sym);
        assert_eq!(normalize_symbol(&once), once, "symbol {sym:?}");
    }
}

#[test]
fn normalized_symbols_split_and_rejoin() {
    for raw in ["sol", " eth ", "btcfdusd", "xrpusdc"] {
        let n = normalize_symbol(raw);
        let (base, quote) = split_symbol(&n);
        assert!(!quote.is_empty(), "{n}");
        assert_eq!(format!("{base}{quote}"), n);
    }
}

#[test]
fn grouping_only_inserts_commas() {
    let g = group_thousands("1234567890");
    assert_eq!(g, "1,234,567,890");
    assert_eq!(g.replace(',', ""), "1234567890");
}
