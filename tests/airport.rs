use atc::aircraft::{Action, AtGateAction, Plane, Runway};
use atc::airport::{
    apply_user_input, construct_airport, detect_and_handle_collisions, detect_collision, plan_spawn,
    spawn_landing_aircraft, update_aircraft_position, update_game_state, update_score, Airport, CommandOutcome, Score,
};
use atc::clearance::{airline_codes, airline_name, create_atc_clearance};
use atc::command::{CommandError, StateKind};
use atc::direction::Direction;
use atc::registry::ConfigurationFault;
use atc::weather::WeatherCondition;

// Runway 1 on row 2 of the map with margins (2 rows, 20 columns); taxiway 3
// below it leads south to the line and gate 7.
const FIELD: &str = "4x4\nR1E,R1E,R1E,R1E\n...,...,T3S,...\n...,...,M7S,...\n...,...,G7X,...\n";

fn airport() -> Airport {
    construct_airport(FIELD).unwrap()
}

fn plane(id: usize, name: &str, action: Action, position: (usize, usize)) -> Plane {
    Plane {
        id,
        name: name.to_string(),
        current_action: action,
        position,
        runway: Runway { name: 1, side: Direction::East },
        out_of_map: false,
    }
}

#[test]
fn airport_starts_clear_and_empty() {
    let a = airport();
    assert_eq!(a.map.map.len(), 8);
    assert_eq!(a.map.map[0].len(), 44);
    assert_eq!(a.runways, vec![Runway { name: 1, side: Direction::East }]);
    assert_eq!(a.gates.len(), 1);
    assert_eq!(a.gates[0].position, (5, 22));
    assert!(a.planes.is_empty());
    assert_eq!(a.weather.condition, WeatherCondition::Clear);
    assert_eq!(a.weather.wind_direction, 360);
}

#[test]
fn airport_with_duplicate_gates_is_refused() {
    let r = construct_airport("2x1\nG5X,G5X\n");
    assert!(matches!(r, Err(ConfigurationFault::DuplicateGate(g)) if g == "5"));
}

#[test]
fn rejected_command_leaves_fleet_unchanged() {
    let mut a = airport();
    a.planes.push(plane(1, "AA117", Action::InAir, (2, 10)));
    let outcome = apply_user_input(&mut a, "hp AA117");
    assert!(matches!(outcome, CommandOutcome::Rejected(CommandError::NotValidWhen(StateKind::InAir))));
    assert_eq!(a.planes.len(), 1);
    assert!(matches!(a.planes[0].current_action, Action::InAir));
    assert_eq!(a.planes[0].position, (2, 10));
}

#[test]
fn granted_command_moves_the_aircraft_this_tick() {
    let mut a = airport();
    a.planes.push(plane(1, "DL200", Action::InAir, (2, 10)));
    a.planes.push(plane(2, "AA117", Action::HoldPosition, (3, 22)));
    let outcome = apply_user_input(&mut a, "t2g aa117 7");
    match outcome {
        CommandOutcome::Cleared(p, clearance) => {
            assert!(matches!(&p.current_action, Action::TaxiToGate(g) if g == "7"));
            assert_eq!(p.position, (3, 22));
            assert_eq!(clearance.unwrap(), "American Airlines 117, taxi to gate 7 via taxiway 3.");
        }
        other => panic!("unexpected outcome {:?}", other),
    }
    assert_eq!(a.planes[1].position, (4, 22));
    assert!(matches!(&a.planes[1].current_action, Action::TaxiToGate(g) if g == "7"));
    assert_eq!(a.planes[0].position, (2, 10));
}

#[test]
fn clearance_phrases() {
    let a = airport();
    let mut p = plane(1, "BA301", Action::Land, (2, 10));
    assert_eq!(create_atc_clearance(&a.map, &a.weather, &p).unwrap(), "British Airways 301, you are cleared to land on runway 1.");
    p.current_action = Action::Takeoff;
    let mut w = a.weather;
    w.wind_direction = 270;
    w.wind_speed = 12;
    assert_eq!(
        create_atc_clearance(&a.map, &w, &p).unwrap(),
        "British Airways 301, you are cleared for takeoff, runway 1. Conditions 270 at 12 knots."
    );
    p.current_action = Action::HoldPosition;
    assert_eq!(create_atc_clearance(&a.map, &w, &p).unwrap(), "British Airways 301, hold position, traffic crossing.");
    p.current_action = Action::Pushback;
    assert_eq!(
        create_atc_clearance(&a.map, &w, &p).unwrap(),
        "British Airways 301, pushback approved, expect runway 1 for departure."
    );
    p.current_action = Action::TaxiOntoRunway(12);
    assert_eq!(create_atc_clearance(&a.map, &w, &p).unwrap(), "British Airways 301, taxi directly to runway 12.");
    p.current_action = Action::HoldShort;
    assert_eq!(
        create_atc_clearance(&a.map, &w, &p).unwrap(),
        "British Airways 301, hold short of runway 1 for landing traffic."
    );
    p.current_action = Action::TaxiToGate("7".to_string());
    assert_eq!(create_atc_clearance(&a.map, &w, &p).unwrap(), "British Airways 301, taxi to gate 7.");
    p.position = (2, 22);
    assert_eq!(create_atc_clearance(&a.map, &w, &p).unwrap(), "British Airways 301, taxi to gate 7.");
    p.current_action = Action::InAir;
    assert_eq!(create_atc_clearance(&a.map, &w, &p).unwrap(), "");
    p.name = "ZZ100".to_string();
    assert_eq!(create_atc_clearance(&a.map, &w, &p), None);
}

#[test]
fn airline_table_lookup() {
    assert_eq!(airline_name("EK"), Some("Emirates"));
    assert_eq!(airline_name("AI"), Some("Air India"));
    assert_eq!(airline_name("XX"), None);
    let codes = airline_codes();
    assert_eq!(codes.len(), 11);
    assert!(codes.iter().all(|c| airline_name(c).is_some()));
}

#[test]
fn collision_detected_once_in_either_order() {
    let a = plane(1, "AA117", Action::HoldPosition, (3, 22));
    let b = plane(2, "DL200", Action::Takeoff, (3, 22));
    let c = plane(3, "UA300", Action::InAir, (2, 5));
    let planes = vec![a, b, c];
    assert_eq!(detect_collision(&planes), Some((1, 2)));
    let planes = vec![planes[2].copy(), planes[1].copy(), planes[0].copy()];
    assert_eq!(detect_collision(&planes), Some((2, 1)));
}

#[test]
fn collision_ignores_departed_and_same_id() {
    let mut a = plane(1, "AA117", Action::HoldPosition, (3, 22));
    let b = plane(2, "DL200", Action::Takeoff, (3, 22));
    a.out_of_map = true;
    assert_eq!(detect_collision(&vec![a.copy(), b.copy()]), None);
    a.out_of_map = false;
    let mut c = b.copy();
    c.id = 1;
    assert_eq!(detect_collision(&vec![a, c]), None);
    assert_eq!(detect_collision(&vec![]), None);
}

#[test]
fn collision_counts_into_score() {
    let mut a = airport();
    a.planes.push(plane(1, "AA117", Action::HoldPosition, (3, 22)));
    a.planes.push(plane(2, "DL200", Action::HoldPosition, (3, 22)));
    let mut score = Score { takeoff: 4, crash: 0 };
    assert_eq!(detect_and_handle_collisions(&a, &mut score), Some((1, 2)));
    assert_eq!(score.crash, 1);
    assert_eq!(score.takeoff, 4);
}

#[test]
fn score_counts_departed_aircraft() {
    let mut a = airport();
    let mut gone = plane(1, "AA117", Action::Takeoff, (2, 43));
    gone.out_of_map = true;
    a.planes.push(gone);
    a.planes.push(plane(2, "DL200", Action::InAir, (2, 0)));
    let mut score = Score { takeoff: 0, crash: 3 };
    update_score(&a, &mut score);
    assert_eq!(score.takeoff, 1);
    assert_eq!(score.crash, 3);
}

#[test]
fn fleet_moves_on_tick() {
    let mut a = airport();
    a.planes.push(plane(1, "AA117", Action::InAir, (2, 0)));
    a.planes.push(plane(2, "DL200", Action::AtGate("7".to_string(), AtGateAction::Clean), (5, 22)));
    update_aircraft_position(&mut a).unwrap();
    assert_eq!(a.planes[0].position, (2, 1));
    assert!(matches!(a.planes[1].current_action, Action::AtGate(_, AtGateAction::LoadCargo)));
}

#[test]
fn planned_spawns_are_exact() {
    let a = airport();
    let p = plan_spawn(&a, false, 1, 250, 0).unwrap();
    assert_eq!(p.name, "DL250");
    assert_eq!(p.id, 1);
    assert_eq!(p.position, (2, 0));
    assert!(matches!(p.current_action, Action::InAir));
    assert_eq!(p.runway, Runway { name: 1, side: Direction::East });
    let g = plan_spawn(&a, true, 10, 399, 0).unwrap();
    assert_eq!(g.name, "AI399");
    assert_eq!(g.position, (5, 22));
    assert!(matches!(&g.current_action, Action::AtGate(n, AtGateAction::Standby) if n == "7"));
    assert!(plan_spawn(&a, true, 0, 100, 1).is_none());
    let none = construct_airport("1x1\nR2E\n").unwrap();
    assert!(plan_spawn(&none, false, 0, 100, 0).is_none());
}

#[test]
fn random_spawn_stays_in_range() {
    let mut a = airport();
    for _ in 0..20 {
        assert!(spawn_landing_aircraft(&mut a, true));
    }
    assert_eq!(a.planes.len(), 20);
    for (i, p) in a.planes.iter().enumerate() {
        assert_eq!(p.id, i + 1);
        assert_eq!(p.name.len(), 5);
        assert!(airline_name(&p.name[..2]).is_some());
        let number: usize = p.name[2..].parse().unwrap();
        assert!((100..400).contains(&number));
        assert_eq!(p.position, (5, 22));
    }
}

#[test]
fn game_tick_runs_command_and_scan() {
    let mut a = airport();
    a.planes.push(plane(1, "AA117", Action::HoldPosition, (3, 22)));
    let mut score = Score { takeoff: 0, crash: 0 };
    let report = update_game_state(&mut a, true, &mut score, Some("t2g AA117 7")).unwrap();
    assert!(matches!(report.command, Some(CommandOutcome::Cleared(_, _))));
    assert_eq!(a.planes[0].position, (4, 22));
    assert!(report.spawned);
    assert_eq!(a.planes.len(), 2);
    assert_eq!(a.planes[1].position, (2, 0));
    assert_eq!(report.collision, None);
    assert_eq!(score.crash, 0);
}

#[test]
fn game_tick_stops_on_topology_fault() {
    let mut a = airport();
    a.planes.push(plane(1, "AA117", Action::Takeoff, (3, 22)));
    let mut score = Score { takeoff: 0, crash: 0 };
    assert!(update_game_state(&mut a, false, &mut score, None).is_err());
}

#[test]
fn path_leading_nowhere_is_refused_at_load() {
    let e = construct_airport("2x1\nR1E,G5X\n").unwrap_err();
    assert!(matches!(e, ConfigurationFault::BadContinuation(2, 20)));
    assert_eq!(e.message(), "Path leads nowhere at row 2, column 20");
    assert!(matches!(construct_airport("2x1\nT1E,G5X\n"), Err(ConfigurationFault::BadContinuation(2, 20))));
    assert!(matches!(construct_airport("2x1\nM5E,R1E\n"), Err(ConfigurationFault::BadContinuation(2, 20))));
    assert!(construct_airport("3x1\nT1E,M5E,G5X\n").is_ok());
    assert!(construct_airport("2x1\nR1E,T2W\n").is_ok());
}

#[test]
fn path_off_the_grid_is_refused() {
    let map = atc::map_file::build_airport_map("1x1\nT1N\n", atc::grid::Spacing { top_bottom: 0, left_right: 0 }).unwrap();
    assert!(matches!(atc::registry::check_topology(&map), Err(ConfigurationFault::BadContinuation(0, 0))));
}

#[test]
fn fleet_ticks_turnaround_and_approach_exactly() {
    let mut a = airport();
    a.planes.push(plane(1, "AA117", Action::AtGate("7".to_string(), AtGateAction::ShutdownProcedure), (5, 22)));
    a.planes.push(plane(2, "DL200", Action::InAir, (2, 0)));
    for n in 1..=20 {
        update_aircraft_position(&mut a).unwrap();
        let standby = matches!(a.planes[0].current_action, Action::AtGate(_, AtGateAction::Standby));
        assert_eq!(standby, n >= 15, "tick {}", n);
        assert_eq!(a.planes[0].position, (5, 22));
        if n < 20 {
            assert!(matches!(a.planes[1].current_action, Action::InAir), "tick {}", n);
        } else {
            assert!(matches!(a.planes[1].current_action, Action::Land));
        }
        assert_eq!(a.planes[1].position, (2, n));
    }
}

#[test]
fn fleet_tick_parks_aircraft_at_its_gate() {
    let mut a = airport();
    a.planes.push(plane(1, "AA117", Action::TaxiToGate("7".to_string()), (5, 22)));
    a.planes.push(plane(2, "DL200", Action::HoldPosition, (3, 22)));
    update_aircraft_position(&mut a).unwrap();
    assert!(matches!(&a.planes[0].current_action, Action::AtGate(g, AtGateAction::ShutdownProcedure) if g == "7"));
    assert!(a.gates[0].is_occupied);
}
