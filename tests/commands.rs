use atc::aircraft::{Action, AtGateAction, Plane, Runway};
use atc::command::{parse_user_input, validate_command, CommandError, StateKind};
use atc::direction::Direction;
use atc::weather::WeatherCondition;

fn plane(name: &str, action: Action) -> Plane {
    Plane {
        id: 7,
        name: name.to_string(),
        current_action: action,
        position: (3, 4),
        runway: Runway { name: 1, side: Direction::East },
        out_of_map: false,
    }
}

fn runways() -> Vec<Runway> {
    vec![Runway { name: 1, side: Direction::East }, Runway { name: 2, side: Direction::North }]
}

fn reject(line: &str, action: Action, weather: WeatherCondition) -> CommandError {
    let planes = vec![plane("AA117", action)];
    match parse_user_input(line, &planes, &runways(), weather) {
        Err(e) => e,
        Ok(p) => panic!("accepted: {:?}", p),
    }
}

#[test]
fn hold_position_rejected_in_air() {
    let planes = vec![plane("AA117", Action::InAir)];
    let r = parse_user_input("hp AA117", &planes, &runways(), WeatherCondition::Clear);
    let e = r.unwrap_err();
    assert!(matches!(e, CommandError::NotValidWhen(StateKind::InAir)));
    assert_eq!(e.message(), "Not a valid action when plane is in the air");
    assert!(matches!(planes[0].current_action, Action::InAir));
    assert_eq!(planes[0].position, (3, 4));
}

#[test]
fn takeoff_rejected_in_inclement_weather() {
    let e = reject("t AA117 1", Action::HoldShort, WeatherCondition::InclementWeather);
    assert!(matches!(e, CommandError::TakeoffInclementWeather));
    let expected = format!("{} {}", "Cannot takeoff during inclement weather, return back to the", "gate");
    assert_eq!(e.message(), expected);
}

#[test]
fn takeoff_granted_in_rain() {
    let planes = vec![plane("AA117", Action::HoldShort)];
    let p = parse_user_input("t AA117 2", &planes, &runways(), WeatherCondition::Rain).unwrap();
    assert!(matches!(p.current_action, Action::Takeoff));
    assert_eq!(p.runway, Runway { name: 2, side: Direction::North });
}

#[test]
fn aircraft_name_matches_ignoring_case() {
    let planes = vec![plane("DL200", Action::InAir), plane("AA117", Action::HoldPosition)];
    let p = parse_user_input("hs aa117 1", &planes, &runways(), WeatherCondition::Clear).unwrap();
    assert_eq!(p.name, "AA117");
    assert!(matches!(p.current_action, Action::HoldShort));
}

#[test]
fn extra_spaces_between_words_are_ignored() {
    let planes = vec![plane("AA117", Action::HoldPosition)];
    let p = parse_user_input("  tor   AA117  2 ", &planes, &runways(), WeatherCondition::Clear).unwrap();
    assert!(matches!(p.current_action, Action::TaxiOntoRunway(2)));
    assert_eq!(p.runway.name, 2);
}

#[test]
fn taxi_to_gate_passes_gate_label_through() {
    let planes = vec![plane("AA117", Action::HoldPosition)];
    let p = parse_user_input("t2g AA117 Z", &planes, &runways(), WeatherCondition::Clear).unwrap();
    assert!(matches!(&p.current_action, Action::TaxiToGate(g) if g == "Z"));
    assert_eq!(p.runway.name, 1);
}

#[test]
fn wrong_word_count_rejected() {
    assert!(matches!(reject("hp", Action::HoldPosition, WeatherCondition::Clear), CommandError::WrongLength));
    assert!(matches!(reject("t AA117 1 2", Action::HoldShort, WeatherCondition::Clear), CommandError::WrongLength));
    assert_eq!(CommandError::WrongLength.message(), "Wrong user input length.");
}

#[test]
fn unknown_aircraft_rejected() {
    let e = reject("hp UA999", Action::TaxiToGate("1".to_string()), WeatherCondition::Clear);
    assert!(matches!(e, CommandError::PlaneNotFound));
    assert_eq!(e.message(), "Plane not found");
}

#[test]
fn unknown_keyword_rejected() {
    let e = reject("t2r AA117 1", Action::HoldPosition, WeatherCondition::Clear);
    assert!(matches!(&e, CommandError::InvalidCommand(k) if k == "t2r"));
    assert_eq!(e.message(), "Invalid command: t2r");
    let e = reject("HP AA117", Action::TaxiToGate("1".to_string()), WeatherCondition::Clear);
    assert!(matches!(&e, CommandError::InvalidCommand(k) if k == "HP"));
}

#[test]
fn missing_destination_rejected() {
    let e = reject("tor AA117", Action::HoldPosition, WeatherCondition::Clear);
    assert!(matches!(e, CommandError::MissingDestination));
    assert_eq!(e.message(), "Must contain a runway/gate/terminal number");
}

#[test]
fn unknown_runway_rejected() {
    let e = reject("hs AA117 3", Action::HoldPosition, WeatherCondition::Clear);
    assert!(matches!(e, CommandError::RunwayNotFound));
    assert_eq!(e.message(), "Runway not found");
    let e = reject("hs AA117 01", Action::HoldPosition, WeatherCondition::Clear);
    assert!(matches!(e, CommandError::RunwayNotFound));
}

#[test]
fn pushback_needs_standby_and_fair_weather() {
    let e = reject("p AA117", Action::AtGate("7".to_string(), AtGateAction::Refuel), WeatherCondition::Clear);
    assert!(matches!(e, CommandError::TurnaroundNotFinished));
    assert_eq!(e.message(), "Wait for the plane to finish its turnaround process");
    let e = reject("p AA117", Action::AtGate("7".to_string(), AtGateAction::Standby), WeatherCondition::InclementWeather);
    assert!(matches!(e, CommandError::PushbackInclementWeather));
    assert_eq!(e.message(), "Cannot pushback during inclement weather");
    let planes = vec![plane("AA117", Action::AtGate("7".to_string(), AtGateAction::Standby))];
    let p = parse_user_input("p AA117", &planes, &runways(), WeatherCondition::Rain).unwrap();
    assert!(matches!(p.current_action, Action::Pushback));
}

#[test]
fn transition_table_rejections_name_the_state() {
    let cases = [
        (Action::Land, "hp AA117", StateKind::Land, "Not a valid action when in the process of landing"),
        (Action::Takeoff, "hp AA117", StateKind::Takeoff, "Not a valid action when in the process of takeoff"),
        (Action::HoldPosition, "hp AA117", StateKind::HoldPosition, "Not a valid action when holding position"),
        (Action::TaxiOntoRunway(1), "p AA117", StateKind::TaxiOntoRunway, "Not a valid action when taxiing onto runway"),
        (Action::HoldShort, "t2g AA117 7", StateKind::HoldShort, "Not a valid action when holding short"),
        (Action::TaxiToGate("7".to_string()), "hs AA117 1", StateKind::TaxiToGate, "Not a valid action when taxiing to gate"),
        (Action::Pushback, "hp AA117", StateKind::Pushback, "Not a valid action when in the process of pushback"),
        (Action::AtGate("7".to_string(), AtGateAction::Standby), "hp AA117", StateKind::AtGate, "Not a valid action when at gate"),
        (Action::HoldPosition, "l AA117 1", StateKind::HoldPosition, "Not a valid action when holding position"),
    ];
    for (action, line, kind, text) in cases {
        let e = reject(line, action, WeatherCondition::Clear);
        assert!(matches!(e, CommandError::NotValidWhen(k) if k == kind), "{}", line);
        assert_eq!(e.message(), text);
    }
}

#[test]
fn allowed_transitions_are_granted() {
    let cases = [
        (Action::HoldPosition, "t2g AA117 7"),
        (Action::HoldPosition, "hs AA117 1"),
        (Action::HoldPosition, "tor AA117 1"),
        (Action::TaxiOntoRunway(1), "hp AA117"),
        (Action::TaxiOntoRunway(1), "hs AA117 1"),
        (Action::TaxiOntoRunway(1), "t2g AA117 7"),
        (Action::TaxiOntoRunway(1), "t AA117 1"),
        (Action::HoldShort, "hp AA117"),
        (Action::HoldShort, "tor AA117 2"),
        (Action::TaxiToGate("7".to_string()), "hp AA117"),
    ];
    for (action, line) in cases {
        let planes = vec![plane("AA117", action)];
        assert!(parse_user_input(line, &planes, &runways(), WeatherCondition::Clear).is_ok(), "{}", line);
    }
}

#[test]
fn validate_command_works_on_split_words() {
    let words = vec!["hp".to_string(), "AA117".to_string()];
    let p = validate_command(&words, &plane("AA117", Action::TaxiToGate("7".to_string())), &runways(), WeatherCondition::Clear).unwrap();
    assert!(matches!(p.current_action, Action::HoldPosition));
    assert_eq!(p.id, 7);
}

#[test]
fn hold_and_pushback_take_no_destination() {
    let e = reject("hp AA117 1", Action::TaxiToGate("7".to_string()), WeatherCondition::Clear);
    assert!(matches!(e, CommandError::UnexpectedDestination));
    assert_eq!(e.message(), "Must not contain a runway/gate/terminal number");
    let e = reject("p AA117 7", Action::AtGate("7".to_string(), AtGateAction::Standby), WeatherCondition::Clear);
    assert!(matches!(e, CommandError::UnexpectedDestination));
}
