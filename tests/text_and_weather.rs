use atc::aircraft::AtGateAction;
use atc::text::{chars_of, decimal_string, parse_usize, split_on, str_eq};
use atc::weather::{next_condition, simulate_weather, weather_notice, Weather, WeatherCondition, WeatherNotice};

#[test]
fn decimal_strings() {
    assert_eq!(decimal_string(0), "0");
    assert_eq!(decimal_string(7), "7");
    assert_eq!(decimal_string(305), "305");
    assert_eq!(decimal_string(usize::MAX), usize::MAX.to_string());
}

#[test]
fn number_parsing_follows_from_str() {
    let p = |s: &str| parse_usize(&chars_of(s));
    assert_eq!(p("12"), Some(12));
    assert_eq!(p("+12"), Some(12));
    assert_eq!(p("007"), Some(7));
    assert_eq!(p(""), None);
    assert_eq!(p("+"), None);
    assert_eq!(p("1a"), None);
    assert_eq!(p("-1"), None);
    assert_eq!(p(&usize::MAX.to_string()), Some(usize::MAX));
    assert_eq!(p("99999999999999999999999"), None);
}

#[test]
fn splitting_keeps_empty_pieces() {
    let pieces = split_on(&chars_of("a,,b,"), ',');
    let pieces: Vec<String> = pieces.iter().map(|p| p.iter().collect()).collect();
    assert_eq!(pieces, vec!["a", "", "b", ""]);
    assert_eq!(split_on(&chars_of(""), ',').len(), 1);
}

#[test]
fn string_equality() {
    assert!(str_eq("gate", "gate"));
    assert!(!str_eq("gate", "Gate"));
    assert!(!str_eq("gate", "gates"));
    assert!(str_eq("", ""));
}

#[test]
fn turnaround_steps_advance_to_standby() {
    assert_eq!(AtGateAction::ShutdownProcedure.next(), AtGateAction::DeboardPassengers);
    assert_eq!(AtGateAction::LoadAdditionalCargo.next(), AtGateAction::Standby);
    assert_eq!(AtGateAction::Standby.next(), AtGateAction::Standby);
}

#[test]
fn weather_chain_transitions() {
    assert_eq!(next_condition(WeatherCondition::Clear, 0, 500), WeatherCondition::Rain);
    assert_eq!(next_condition(WeatherCondition::Clear, 1, 0), WeatherCondition::Rain);
    assert_eq!(next_condition(WeatherCondition::Clear, 2, 1), WeatherCondition::InclementWeather);
    assert_eq!(next_condition(WeatherCondition::Clear, 299, 2), WeatherCondition::Clear);
    assert_eq!(next_condition(WeatherCondition::Rain, 94, 0), WeatherCondition::Rain);
    assert_eq!(next_condition(WeatherCondition::Rain, 95, 0), WeatherCondition::Clear);
    assert_eq!(next_condition(WeatherCondition::InclementWeather, 97, 0), WeatherCondition::InclementWeather);
    assert_eq!(next_condition(WeatherCondition::InclementWeather, 98, 0), WeatherCondition::Clear);
}

#[test]
fn weather_notices() {
    assert_eq!(weather_notice(WeatherCondition::Clear, WeatherCondition::InclementWeather), WeatherNotice::DeparturesHalted);
    assert_eq!(weather_notice(WeatherCondition::InclementWeather, WeatherCondition::Clear), WeatherNotice::DeparturesResumed);
    assert_eq!(weather_notice(WeatherCondition::Rain, WeatherCondition::Clear), WeatherNotice::Unchanged);
}

#[test]
fn simulated_weather_moves_only_along_the_chain() {
    for _ in 0..200 {
        let mut w = Weather { condition: WeatherCondition::Rain, wind_direction: 90, wind_speed: 30 };
        simulate_weather(&mut w);
        assert_ne!(w.condition, WeatherCondition::InclementWeather);
        assert_eq!(w.wind_direction, 90);
        assert_eq!(w.wind_speed, 30);
        let mut w = Weather { condition: WeatherCondition::InclementWeather, wind_direction: 0, wind_speed: 50 };
        let n = simulate_weather(&mut w);
        assert_ne!(w.condition, WeatherCondition::Rain);
        assert_eq!(n == WeatherNotice::DeparturesResumed, w.condition == WeatherCondition::Clear);
    }
}
