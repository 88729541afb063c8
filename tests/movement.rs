use atc::aircraft::{Action, AtGateAction, Plane, Runway};
use atc::direction::Direction;
use atc::grid::{AirportMap, MapPoint, Spacing};
use atc::map_file::build_airport_map;
use atc::movement::{advance_aircraft, advance_all, plane_heading, TopologyFault};
use atc::registry::Gate;

// Runway 1 along row 2 heading east; taxiway 3 leads back north onto it,
// taxiway 2 leads south to the line and gate 7.
const FIELD: &str = "4x4\nR1E,R1E,R1E,R1E\n...,T3N,T2S,...\n...,...,M7S,...\n...,...,G7X,...\n";

fn field() -> AirportMap {
    build_airport_map(FIELD, Spacing { top_bottom: 2, left_right: 2 }).unwrap()
}

fn plane(action: Action, position: (usize, usize)) -> Plane {
    Plane {
        id: 1,
        name: "AA117".to_string(),
        current_action: action,
        position,
        runway: Runway { name: 1, side: Direction::East },
        out_of_map: false,
    }
}

fn tick(map: &AirportMap, gates: &mut Vec<Gate>, p: &mut Plane) {
    advance_aircraft(map, gates, p).unwrap();
}

#[test]
fn approach_lands_on_reaching_runway() {
    let map = field();
    let mut gates = Gate::new(&map).unwrap();
    let mut p = plane(Action::InAir, (2, 0));
    tick(&map, &mut gates, &mut p);
    assert_eq!(p.position, (2, 1));
    assert!(matches!(p.current_action, Action::InAir));
    tick(&map, &mut gates, &mut p);
    assert_eq!(p.position, (2, 2));
    assert!(matches!(p.current_action, Action::Land));
}

#[test]
fn landing_skips_taxiway_back_to_runway_and_exits_outward() {
    let map = field();
    let mut gates = Gate::new(&map).unwrap();
    let mut p = plane(Action::Land, (2, 2));
    tick(&map, &mut gates, &mut p);
    assert_eq!(p.position, (2, 3));
    assert!(matches!(p.current_action, Action::Land));
    // Taxiway 3 below leads back onto the runway: roll on.
    tick(&map, &mut gates, &mut p);
    assert_eq!(p.position, (2, 4));
    assert!(matches!(p.current_action, Action::Land));
    // Taxiway 2 below leads away: exit and hold.
    tick(&map, &mut gates, &mut p);
    assert_eq!(p.position, (3, 4));
    assert!(matches!(p.current_action, Action::HoldPosition));
}

#[test]
fn landing_holds_at_runway_end() {
    let map = field();
    let mut gates = Gate::new(&map).unwrap();
    let mut p = plane(Action::Land, (2, 5));
    tick(&map, &mut gates, &mut p);
    assert_eq!(p.position, (2, 6));
    assert!(matches!(p.current_action, Action::HoldPosition));
}

#[test]
fn taxi_to_gate_follows_line_and_parks() {
    let map = field();
    let mut gates = Gate::new(&map).unwrap();
    let mut p = plane(Action::TaxiToGate("7".to_string()), (3, 4));
    tick(&map, &mut gates, &mut p);
    assert_eq!(p.position, (4, 4));
    tick(&map, &mut gates, &mut p);
    assert_eq!(p.position, (5, 4));
    assert!(!gates[0].is_occupied);
    tick(&map, &mut gates, &mut p);
    assert_eq!(p.position, (5, 4));
    match &p.current_action {
        Action::AtGate(g, sub) => {
            assert_eq!(g, "7");
            assert_eq!(*sub, AtGateAction::ShutdownProcedure);
        }
        other => panic!("unexpected action {:?}", other),
    }
    assert!(gates[0].is_occupied);
}

#[test]
fn taxi_to_gate_on_its_gate_parks_in_one_tick() {
    let map = field();
    let mut gates = Gate::new(&map).unwrap();
    let mut p = plane(Action::TaxiToGate("7".to_string()), (5, 4));
    tick(&map, &mut gates, &mut p);
    assert_eq!(p.position, (5, 4));
    assert!(matches!(&p.current_action, Action::AtGate(g, AtGateAction::ShutdownProcedure) if g == "7"));
    assert_eq!(gates.len(), 1);
    assert_eq!(gates[0].number, "7");
    assert!(gates[0].is_occupied);
}

#[test]
fn taxi_to_gate_leaves_runway_at_its_end() {
    let map = build_airport_map("2x2\nR1E,R1S\n...,T2E\n", Spacing { top_bottom: 2, left_right: 2 }).unwrap();
    let mut gates = Gate::new(&map).unwrap();
    let mut p = plane(Action::TaxiToGate("9".to_string()), (2, 3));
    tick(&map, &mut gates, &mut p);
    assert_eq!(p.position, (3, 3));
}

#[test]
fn turnaround_reaches_standby_after_fifteen_ticks() {
    let map = field();
    let mut gates = Gate::new(&map).unwrap();
    let mut p = plane(Action::AtGate("7".to_string(), AtGateAction::ShutdownProcedure), (5, 4));
    for n in 1..=20 {
        tick(&map, &mut gates, &mut p);
        let sub = match &p.current_action {
            Action::AtGate(_, sub) => *sub,
            other => panic!("unexpected action {:?}", other),
        };
        if n < 15 {
            assert_ne!(sub, AtGateAction::Standby);
        } else {
            assert_eq!(sub, AtGateAction::Standby);
        }
        if n == 14 {
            assert_eq!(sub, AtGateAction::LoadAdditionalCargo);
        }
        assert_eq!(p.position, (5, 4));
    }
}

#[test]
fn pushback_leaves_gate_and_holds_on_taxiway() {
    let map = field();
    let mut gates = Gate::new(&map).unwrap();
    let mut p = plane(Action::Pushback, (5, 4));
    tick(&map, &mut gates, &mut p);
    assert_eq!(p.position, (4, 4));
    assert!(matches!(p.current_action, Action::Pushback));
    tick(&map, &mut gates, &mut p);
    assert_eq!(p.position, (3, 4));
    assert!(matches!(p.current_action, Action::HoldPosition));
}

#[test]
fn pushback_without_gate_line_is_a_fault() {
    let map = build_airport_map("1x1\nG4X\n", Spacing { top_bottom: 1, left_right: 1 }).unwrap();
    let mut gates = Gate::new(&map).unwrap();
    let mut p = plane(Action::Pushback, (1, 1));
    assert_eq!(advance_aircraft(&map, &mut gates, &mut p), Err(TopologyFault::NoGateTaxiLine));
    assert_eq!(p.position, (1, 1));
}

#[test]
fn hold_short_stops_before_runway() {
    let map = field();
    let mut gates = Gate::new(&map).unwrap();
    let mut p = plane(Action::HoldShort, (3, 3));
    tick(&map, &mut gates, &mut p);
    assert_eq!(p.position, (3, 3));
    assert!(matches!(p.current_action, Action::HoldPosition));
    let mut q = plane(Action::HoldShort, (3, 4));
    tick(&map, &mut gates, &mut q);
    assert_eq!(q.position, (4, 4));
    assert!(matches!(q.current_action, Action::HoldShort));
}

#[test]
fn taxi_onto_runway_then_along_it() {
    let map = field();
    let mut gates = Gate::new(&map).unwrap();
    let mut p = plane(Action::TaxiOntoRunway(1), (3, 3));
    tick(&map, &mut gates, &mut p);
    assert_eq!(p.position, (2, 3));
    tick(&map, &mut gates, &mut p);
    assert_eq!(p.position, (2, 4));
}

#[test]
fn taxi_onto_runway_named_zero_waits() {
    let map = build_airport_map("1x1\nR0E\n", Spacing { top_bottom: 1, left_right: 1 }).unwrap();
    let mut gates = Gate::new(&map).unwrap();
    let mut p = plane(Action::TaxiOntoRunway(5), (1, 1));
    tick(&map, &mut gates, &mut p);
    assert_eq!(p.position, (1, 1));
    assert!(matches!(p.current_action, Action::TaxiOntoRunway(0)));
}

#[test]
fn takeoff_rolls_then_leaves_map() {
    let map = field();
    let mut gates = Gate::new(&map).unwrap();
    let mut p = plane(Action::Takeoff, (2, 3));
    for expected in [(2, 4), (2, 5), (2, 6), (2, 7)] {
        tick(&map, &mut gates, &mut p);
        assert_eq!(p.position, expected);
        assert!(!p.out_of_map);
    }
    tick(&map, &mut gates, &mut p);
    assert!(p.out_of_map);
    assert_eq!(p.position, (2, 7));
    // A departed aircraft no longer moves.
    tick(&map, &mut gates, &mut p);
    assert_eq!(p.position, (2, 7));
}

#[test]
fn takeoff_from_taxiway_is_a_fault() {
    let map = field();
    let mut gates = Gate::new(&map).unwrap();
    let mut p = plane(Action::Takeoff, (3, 3));
    assert_eq!(advance_aircraft(&map, &mut gates, &mut p), Err(TopologyFault::NotOnRunway));
    assert_eq!(p.position, (3, 3));
    assert!(matches!(p.current_action, Action::Takeoff));
}

#[test]
fn hold_short_off_taxiway_is_a_fault() {
    let map = field();
    let mut gates = Gate::new(&map).unwrap();
    let mut p = plane(Action::HoldShort, (2, 3));
    assert_eq!(advance_aircraft(&map, &mut gates, &mut p), Err(TopologyFault::NotOnTaxiway));
    assert_eq!(TopologyFault::NotOnTaxiway.message(), "Plane is not standing on a taxiway");
}

#[test]
fn approach_off_the_grid_is_a_fault() {
    let map = field();
    let mut gates = Gate::new(&map).unwrap();
    let mut p = plane(Action::InAir, (2, 0));
    p.runway.side = Direction::West;
    assert_eq!(advance_aircraft(&map, &mut gates, &mut p), Err(TopologyFault::OffGrid));
    p.runway.side = Direction::StayPut;
    assert_eq!(advance_aircraft(&map, &mut gates, &mut p), Err(TopologyFault::NoHeading));
}

#[test]
fn hold_position_does_not_move() {
    let map = field();
    let mut gates = Gate::new(&map).unwrap();
    let mut p = plane(Action::HoldPosition, (3, 4));
    tick(&map, &mut gates, &mut p);
    assert_eq!(p.position, (3, 4));
}

#[test]
fn fleet_advances_each_aircraft_once() {
    let map = field();
    let mut gates = Gate::new(&map).unwrap();
    let mut planes = vec![plane(Action::InAir, (2, 0)), plane(Action::HoldPosition, (3, 4))];
    planes[1].id = 2;
    advance_all(&map, &mut gates, &mut planes).unwrap();
    assert_eq!(planes[0].position, (2, 1));
    assert_eq!(planes[1].position, (3, 4));
}

#[test]
fn fleet_tick_stops_at_fault() {
    let map = field();
    let mut gates = Gate::new(&map).unwrap();
    let mut planes = vec![plane(Action::Takeoff, (3, 3)), plane(Action::InAir, (2, 0))];
    assert_eq!(advance_all(&map, &mut gates, &mut planes), Err(TopologyFault::NotOnRunway));
}

#[test]
fn heading_follows_cell_or_faces_away_from_gate_line() {
    let map = field();
    assert_eq!(plane_heading(&map, &plane(Action::HoldPosition, (3, 4))), Direction::South);
    assert_eq!(plane_heading(&map, &plane(Action::HoldPosition, (5, 4))), Direction::South);
    assert_eq!(plane_heading(&map, &plane(Action::InAir, (2, 0))), Direction::East);
    assert!(matches!(map.map[5][4], MapPoint::Gate(_)));
}
