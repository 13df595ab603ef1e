use cosmic_monitor::weather::{describe, icon_or_default, strip_quotes_str, weather_url, WeatherSchedule};

#[test]
fn requests_within_the_window_fetch_once() {
    let mut s = WeatherSchedule::new("key".to_string(), "Oslo".to_string());
    assert!(s.update(1_000));
    assert!(!s.update(1_100));
    let mut fetches = 0;
    while s.take_request().is_some() {
        fetches += 1;
    }
    assert_eq!(fetches, 1);
    assert!(!s.update(1_599));
    assert!(s.take_request().is_none());
    assert!(s.update(1_600));
    assert!(s.take_request().is_some());
}

#[test]
fn fetch_between_requests_still_allows_one() {
    let mut s = WeatherSchedule::new("key".to_string(), "Oslo".to_string());
    assert!(s.update(50));
    assert!(s.take_request().is_some());
    assert!(!s.update(60));
    assert!(s.take_request().is_none());
}

#[test]
fn requests_need_key_and_location() {
    let mut s = WeatherSchedule::new(String::new(), "Oslo".to_string());
    assert!(!s.update(0));
    s.set_api_key("k".to_string());
    s.set_location(String::new());
    assert!(!s.update(0));
    s.set_location("Rome".to_string());
    assert!(s.update(0));
    assert_eq!(
        s.take_request().as_deref(),
        Some("https://api.openweathermap.org/data/2.5/weather?q=Rome&appid=k&units=metric")
    );
}

#[test]
fn quotes_are_stripped_from_both_ends() {
    assert_eq!(strip_quotes_str("\"\"Oslo\""), "Oslo");
    assert_eq!(strip_quotes_str("New \"York\""), "New \"York");
    assert_eq!(strip_quotes_str("\"\""), "");
    assert_eq!(
        weather_url("\"Oslo\"", "\"abc\""),
        "https://api.openweathermap.org/data/2.5/weather?q=Oslo&appid=abc&units=metric"
    );
}

#[test]
fn description_is_capitalized() {
    assert_eq!(describe(Some("light rain")), "Light rain");
    assert_eq!(describe(Some("ßnow")), "SSnow");
    assert_eq!(describe(Some("")), "");
    assert_eq!(describe(None), "Unknown");
}

#[test]
fn icon_defaults_to_clear_day() {
    assert_eq!(icon_or_default(Some("10n")), "10n");
    assert_eq!(icon_or_default(None), "01d");
}
