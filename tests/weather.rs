use weather_station::client::{
    check_status, is_success_status, report_from_response, request_url, ClientError, WeatherQuery,
    WeatherResponse,
};
use weather_station::config::{Config, ConfigError, CREDENTIAL_VAR};
use weather_station::decimal::{
    is_one_decimal_text, natural_text, parse_decimal, Decimal, WHOLE_LIMIT,
};
use weather_station::report::{format_report, render_report, select_icon, Icon, WeatherReport};
use weather_station::session::{step, styled_prompt, wants_another, Action, Phase};
use weather_station::style::{select_color_category, style_text, ColorCategory};

fn dec(s: &str) -> Decimal {
    parse_decimal(s).expect("decimal text")
}

fn icon(s: &str) -> Icon {
    select_icon(&dec(s))
}

fn response(name: &str, description: &str, temp: f64, humidity: f64, pressure: f64, wind: f64) -> WeatherResponse {
    WeatherResponse {
        conditions: vec![description.to_string()],
        temperature: format!("{}", temp),
        temperature_text: format!("{:.1}", temp),
        humidity_text: format!("{:.1}", humidity),
        pressure_text: format!("{:.1}", pressure),
        wind_speed_text: format!("{:.1}", wind),
        name: name.to_string(),
    }
}

fn london() -> WeatherResponse {
    response("London", "clear sky", 21.3, 55.0, 1012.0, 3.4)
}

#[test]
fn icon_bands_have_exact_boundaries() {
    assert_eq!(icon("-0.5"), Icon::Freezing);
    assert_eq!(icon("-40"), Icon::Freezing);
    assert_eq!(icon("0"), Icon::Cold);
    assert_eq!(icon("-0"), Icon::Cold);
    assert_eq!(icon("9.999"), Icon::Cold);
    assert_eq!(icon("10.0"), Icon::Mild);
    assert_eq!(icon("19.99"), Icon::Mild);
    assert_eq!(icon("20"), Icon::Warm);
    assert_eq!(icon("29.9"), Icon::Warm);
    assert_eq!(icon("30"), Icon::Hot);
    assert_eq!(icon("45.2"), Icon::Hot);
}

#[test]
fn icon_symbols() {
    assert_eq!(Icon::Freezing.symbol(), "\u{2744}");
    assert_eq!(Icon::Cold.symbol(), "\u{2601}");
    assert_eq!(Icon::Mild.symbol(), "\u{26C5}");
    assert_eq!(Icon::Warm.symbol(), "\u{1F324}");
    assert_eq!(Icon::Hot.symbol(), "\u{2600}");
}

#[test]
fn color_categories_of_fixed_descriptions() {
    assert_eq!(select_color_category("clear sky"), ColorCategory::BrightYellow);
    for d in ["few clouds", "scattered clouds", "broken clouds"] {
        assert_eq!(select_color_category(d), ColorCategory::BrightBlue);
    }
    for d in ["overcast clouds", "mist", "haze", "smoke", "sand", "dust", "fog", "squalls"] {
        assert_eq!(select_color_category(d), ColorCategory::Dimmed);
    }
    for d in ["shower rain", "rain", "thunderstorm", "snow"] {
        assert_eq!(select_color_category(d), ColorCategory::BrightCyan);
    }
}

#[test]
fn color_category_of_other_descriptions_is_plain() {
    for d in ["Clear sky", "clear sky ", "", "light rain", "tornado", "RAIN"] {
        assert_eq!(select_color_category(d), ColorCategory::Plain);
    }
}

#[test]
fn well_formed_response_renders_one_decimal_place() {
    let report = report_from_response(&london()).expect("report");
    let text = render_report(&report);
    assert_eq!(
        text,
        "Weather in London: clear sky \u{1F324}\n        > Temperature: 21.3\n        > Humidity: 55.0\n        > Pressure: 1012.0 hPa\n        > Wind Speed: 3.4m/s\n        "
    );
    assert_eq!(select_icon(&report.temperature), Icon::Warm);
    assert_eq!(select_color_category(&report.description), ColorCategory::BrightYellow);
    assert_eq!(format_report(&report, false), text);
    assert_eq!(format_report(&report, true), format!("\x1b[93m{}\x1b[0m", text));
}

#[test]
fn empty_weather_array_is_a_checked_error() {
    let mut resp = london();
    resp.conditions = Vec::new();
    assert!(matches!(report_from_response(&resp), Err(ClientError::EmptyWeather)));
}

#[test]
fn first_condition_is_the_description() {
    let mut resp = london();
    resp.conditions = vec!["mist".to_string(), "rain".to_string()];
    let report = report_from_response(&resp).expect("report");
    assert_eq!(report.description, "mist");
    assert_eq!(report.location, "London");
}

#[test]
fn unreadable_measurement_is_a_parse_error() {
    let mut resp = london();
    resp.humidity_text = "NaN".to_string();
    assert!(matches!(report_from_response(&resp), Err(ClientError::Parse(_))));
    let mut resp = london();
    resp.conditions = Vec::new();
    resp.wind_speed_text = "3.45".to_string();
    assert!(matches!(report_from_response(&resp), Err(ClientError::Parse(_))));
    let mut resp = london();
    resp.temperature = "1e5".to_string();
    assert!(matches!(report_from_response(&resp), Err(ClientError::Parse(_))));
}

#[test]
fn missing_credential_fails_startup() {
    assert_eq!(CREDENTIAL_VAR, "OPEN_WEATHER_API_KEY");
    assert!(matches!(Config::from_credential(None), Err(ConfigError::MissingCredential)));
    let c = Config::from_credential(Some("abc".to_string())).expect("config");
    assert_eq!(c.api_key, "abc");
}

#[test]
fn url_is_built_without_escaping() {
    let q = WeatherQuery { city: "New York".to_string(), country_code: "US".to_string() };
    assert_eq!(
        request_url(&q, "abc"),
        "https://api.openweathermap.org/data/2.5/weather?q=New York, US&units=metric&appid=abc"
    );
}

#[test]
fn success_statuses() {
    assert!(is_success_status(200));
    assert!(is_success_status(299));
    assert!(!is_success_status(199));
    assert!(!is_success_status(300));
    assert!(!is_success_status(404));
}

#[test]
fn status_outcomes() {
    assert!(check_status(200, "{}".to_string()).is_ok());
    assert!(check_status(204, String::new()).is_ok());
    match check_status(404, "city not found".to_string()) {
        Err(ClientError::Api { status, body }) => {
            assert_eq!(status, 404);
            assert_eq!(body, "city not found");
        }
        _ => panic!("expected an API error"),
    }
    assert!(matches!(check_status(500, String::new()), Err(ClientError::Api { status: 500, .. })));
}

#[test]
fn error_messages() {
    let e = ClientError::Api { status: 404, body: "city not found".to_string() };
    assert_eq!(e.message(), "the service answered 404: city not found");
    assert_eq!(ClientError::EmptyWeather.message(), "the reply lists no weather conditions");
    assert_eq!(ClientError::Transport("dns".to_string()).message(), "request failed: dns");
    assert_eq!(ClientError::Parse("x".to_string()).message(), "unreadable reply: x");
}

#[test]
fn decimal_text_is_read_to_its_whole_part() {
    assert_eq!(dec("-12.50"), Decimal { negative: true, whole: 12, nonzero: true });
    assert_eq!(dec("1012"), Decimal { negative: false, whole: 1012, nonzero: true });
    assert_eq!(dec("0.0000001"), Decimal { negative: false, whole: 0, nonzero: true });
    assert_eq!(dec("-0.000"), Decimal { negative: true, whole: 0, nonzero: false });
    assert_eq!(dec("999999999999999999"), Decimal { negative: false, whole: 999_999_999_999_999_999, nonzero: true });
    assert_eq!(dec("1000000000000000000000.5"), Decimal { negative: false, whole: WHOLE_LIMIT, nonzero: true });
    assert_eq!(dec("0.000000000000000000000000001"), Decimal { negative: false, whole: 0, nonzero: true });
    for bad in ["", "-", ".5", "1.", "1.2.3", "1e5", "+1", "12a", "--1", "-.5"] {
        assert_eq!(parse_decimal(bad), None, "{}", bad);
    }
}

#[test]
fn comparisons_with_whole_numbers() {
    assert!(dec("-0.1").is_below(0));
    assert!(!dec("-0").is_below(0));
    assert!(dec("-0").is_below(1));
    assert!(dec("9.99").is_below(10));
    assert!(!dec("10.0").is_below(10));
    assert!(!dec("1000000000000000000000").is_below(WHOLE_LIMIT));
    assert!(dec("999999999999999999.9").is_below(WHOLE_LIMIT));
}

#[test]
fn printed_numbers_keep_the_float_rounding() {
    let resp = response("Oslo", "snow", 12.45, 0.15, 21.15, 0.25);
    let report = report_from_response(&resp).expect("report");
    assert_eq!(report.temperature_text, "12.4");
    assert_eq!(report.humidity_text, "0.1");
    assert_eq!(report.pressure_text, "21.1");
    assert_eq!(report.wind_speed_text, "0.2");
    assert_eq!(
        render_report(&report),
        "Weather in Oslo: snow \u{26C5}\n        > Temperature: 12.4\n        > Humidity: 0.1\n        > Pressure: 21.1 hPa\n        > Wind Speed: 0.2m/s\n        "
    );
    let cold = report_from_response(&response("Nuuk", "fog", -0.04, 90.0, 1000.0, 1e-20)).expect("report");
    assert_eq!(cold.temperature_text, "-0.0");
    assert_eq!(cold.wind_speed_text, "0.0");
    assert_eq!(select_icon(&cold.temperature), Icon::Freezing);
    let hot = report_from_response(&response("Basra", "haze", 45.0, 10.0, 1e300, 2.0)).expect("report");
    assert_eq!(select_icon(&hot.temperature), Icon::Hot);
    assert_eq!(hot.pressure_text, format!("{:.1}", 1e300f64));
    for (t, icon) in [
        (1e17, Icon::Hot),
        (1e20, Icon::Hot),
        (1e300, Icon::Hot),
        (-1e300, Icon::Freezing),
        (1e-20, Icon::Cold),
        (-1e-20, Icon::Freezing),
        (9.999999999999998, Icon::Cold),
    ] {
        let far = report_from_response(&response("Far", "haze", t, 10.0, 1000.0, 2.0)).expect("report");
        assert_eq!(select_icon(&far.temperature), icon, "{}", t);
    }
}

#[test]
fn one_decimal_text_shapes() {
    for good in ["0.0", "-0.0", "21.3", "1012.0", "123456789012345678901234567890.5"] {
        assert!(is_one_decimal_text(good), "{}", good);
    }
    for bad in ["", "1", "1.", ".5", "-.5", "1.25", "1.2.3", "a.5", "1.a", "+1.0", "--1.0"] {
        assert!(!is_one_decimal_text(bad), "{}", bad);
    }
}

#[test]
fn natural_numbers_render_in_decimal() {
    assert_eq!(natural_text(0), "0");
    assert_eq!(natural_text(7), "7");
    assert_eq!(natural_text(1012), "1012");
    assert_eq!(natural_text(u64::MAX), u64::MAX.to_string());
}

#[test]
fn plain_category_leaves_text_alone() {
    assert_eq!(style_text("abc", ColorCategory::Plain, true), "abc");
    assert_eq!(style_text("abc", ColorCategory::Plain, false), "abc");
    assert_eq!(style_text("abc", ColorCategory::BrightYellow, false), "abc");
    assert_eq!(styled_prompt("abc", false), "abc");
}

#[test]
fn forced_colours_wrap_the_text() {
    assert_eq!(style_text("sun", ColorCategory::BrightYellow, true), "\x1b[93msun\x1b[0m");
    assert_eq!(style_text("sky", ColorCategory::BrightBlue, true), "\x1b[94msky\x1b[0m");
    assert_eq!(style_text("fog", ColorCategory::Dimmed, true), "\x1b[2mfog\x1b[0m");
    assert_eq!(style_text("rain", ColorCategory::BrightCyan, true), "\x1b[96mrain\x1b[0m");
    assert_eq!(styled_prompt("go", true), "\x1b[92mgo\x1b[0m");
}

#[test]
fn session_reads_city_then_country_then_answer() {
    let p = Phase::start();
    assert_eq!(p.prompt(), Some("Please enter the name of the city:"));
    let (p, a) = step(p, "  New York \n");
    assert!(matches!(a, Action::Continue));
    assert_eq!(p.prompt(), Some("Please enter the country code:"));
    let (p, a) = step(p, "US\n");
    match a {
        Action::Lookup(q) => {
            assert_eq!(q.city, "New York");
            assert_eq!(q.country_code, "US");
        }
        _ => panic!("expected a lookup"),
    }
    assert_eq!(p.prompt(), Some("Do you want to check the weather in another city? (yes/no)"));
    let (p, a) = step(p, " yes\n");
    assert!(matches!(a, Action::Continue));
    assert!(matches!(p, Phase::AwaitCity));
    assert!(!p.is_done());
}

#[test]
fn session_ends_on_any_answer_but_yes() {
    for answer in ["no\n", "Yes\n", "YES", "y", "", "yes please"] {
        let (p, a) = step(Phase::AwaitRepeat, answer);
        assert!(matches!(a, Action::Farewell), "{:?}", answer);
        assert!(p.is_done());
        assert_eq!(p.prompt(), None);
        let (p, a) = step(p, "yes");
        assert!(p.is_done());
        assert!(matches!(a, Action::Continue));
    }
    let mut phase = Phase::start();
    let mut rounds: u32 = 0;
    for line in ["Paris", "FR", "yes", "Oslo", "NO", "yes\n", "Rome", "IT", "nope", "Lima"] {
        let (next, action) = step(phase, line);
        if let Action::Lookup(_) = action {
            rounds += 1;
        }
        phase = next;
    }
    assert_eq!(rounds, 3);
    assert!(phase.is_done());
}

#[test]
fn lines_are_trimmed_of_unicode_white_space() {
    let (p, _) = step(Phase::AwaitCity, "\u{3000}\u{A0}Paris\t\r\n");
    match p {
        Phase::AwaitCountry { city } => assert_eq!(city, "Paris"),
        _ => panic!("expected the country prompt"),
    }
    let (p, a) = step(Phase::AwaitRepeat, "\u{2003}yes\u{85}");
    assert!(matches!(a, Action::Continue));
    assert!(!p.is_done());
}

#[test]
fn yes_is_exact() {
    assert!(wants_another("yes"));
    assert!(!wants_another("Yes"));
    assert!(!wants_another(" yes"));
    assert!(!wants_another(""));
}
