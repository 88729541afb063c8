use atc::aircraft::Runway;
use atc::direction::Direction;
use atc::grid::{MapPoint, Spacing};
use atc::map_file::build_airport_map;
use atc::registry::{ConfigurationFault, Gate};

fn read(text: &str) -> Result<atc::grid::AirportMap, ConfigurationFault> {
    build_airport_map(text, Spacing { top_bottom: 1, left_right: 2 })
}

#[test]
fn map_gets_margins_and_cells() {
    let m = read("3x2\nR1E,...,T2S\nM5N,G5X,Q1N\n").unwrap();
    assert_eq!(m.width, 3);
    assert_eq!(m.length, 2);
    assert_eq!(m.map.len(), 4);
    for row in &m.map {
        assert_eq!(row.len(), 7);
    }
    assert!(matches!(m.map[0][2], MapPoint::Empty));
    assert!(matches!(m.map[1][2], MapPoint::Runway(1, Direction::East)));
    assert!(matches!(m.map[1][3], MapPoint::Empty));
    assert!(matches!(m.map[1][4], MapPoint::Taxiway(2, Direction::South)));
    assert!(matches!(&m.map[2][2], MapPoint::GateTaxiLine(g, Direction::North) if g == "5"));
    assert!(matches!(&m.map[2][3], MapPoint::Gate(g) if g == "5"));
    assert!(matches!(m.map[2][4], MapPoint::Empty));
    assert!(matches!(m.map[3][4], MapPoint::Empty));
}

#[test]
fn map_lines_may_end_in_carriage_return_or_be_short() {
    let m = read("2x3\r\n").unwrap_err();
    assert!(matches!(m, ConfigurationFault::BadDimensions));
    let m = read("2x3\nR1E,R1E\r\nT1N\n").unwrap();
    assert_eq!(m.map.len(), 5);
    assert!(matches!(m.map[1][3], MapPoint::Runway(1, Direction::East)));
    assert!(matches!(m.map[2][2], MapPoint::Taxiway(1, Direction::North)));
    assert!(matches!(m.map[2][3], MapPoint::Empty));
    assert!(matches!(m.map[3][2], MapPoint::Empty));
}

#[test]
fn map_size_line_is_checked() {
    assert!(matches!(read("3\n"), Err(ConfigurationFault::BadDimensions)));
    assert!(matches!(read("ax2\n"), Err(ConfigurationFault::BadDimensions)));
    assert!(matches!(read(""), Err(ConfigurationFault::BadDimensions)));
    assert!(read("+2x1x9\n...,...\n").is_ok());
    assert!(matches!(
        build_airport_map("0x0\n", Spacing { top_bottom: 0, left_right: 0 }),
        Err(ConfigurationFault::BadDimensions)
    ));
}

#[test]
fn map_tokens_are_checked() {
    assert!(matches!(read("2x1\nR1\n"), Err(ConfigurationFault::ShortToken)));
    assert!(matches!(read("2x1\nR1Q\n"), Err(ConfigurationFault::BadDirection('Q'))));
    assert!(matches!(read("2x1\nTxN\n"), Err(ConfigurationFault::BadName('x'))));
    assert!(matches!(read("1x1\nR1E,R1E\n"), Err(ConfigurationFault::TooManyColumns)));
    assert!(matches!(read("1x1\nR1E\nR1E\n"), Err(ConfigurationFault::TooManyRows)));
    assert_eq!(read("2x1\nR1Q\n").unwrap_err().message(), "Invalid direction: Q");
}

#[test]
fn map_skips_empty_tokens_past_its_size() {
    let m = read("1x1\nG1X,...,...\n...\n").unwrap();
    assert!(matches!(&m.map[1][2], MapPoint::Gate(g) if g == "1"));
}

#[test]
fn direction_codes_parse() {
    assert_eq!(Direction::parse(&'N'), Ok(Direction::North));
    assert_eq!(Direction::parse(&'S'), Ok(Direction::South));
    assert_eq!(Direction::parse(&'E'), Ok(Direction::East));
    assert_eq!(Direction::parse(&'W'), Ok(Direction::West));
    assert_eq!(Direction::parse(&'X'), Ok(Direction::StayPut));
    assert_eq!(Direction::parse(&'n'), Err("Invalid direction: n".to_string()));
}

#[test]
fn opposite_direction_twice_is_identity() {
    for d in [Direction::North, Direction::South, Direction::East, Direction::West, Direction::StayPut] {
        assert_eq!(d.get_opposite_dir().get_opposite_dir(), d);
    }
    assert_eq!(Direction::North.get_opposite_dir(), Direction::South);
    assert_eq!(Direction::East.get_opposite_dir(), Direction::West);
    assert_eq!(Direction::StayPut.get_opposite_dir(), Direction::StayPut);
}

#[test]
fn direction_steps() {
    assert_eq!(Direction::North.go((3, 4)), (2, 4));
    assert_eq!(Direction::South.go((3, 4)), (4, 4));
    assert_eq!(Direction::East.go((3, 4)), (3, 5));
    assert_eq!(Direction::West.go((3, 4)), (3, 3));
    assert_eq!(Direction::StayPut.go((3, 4)), (3, 4));
}

#[test]
fn duplicate_gate_label_is_a_configuration_fault() {
    let m = read("3x1\nG5X,...,G5X\n").unwrap();
    let e = Gate::new(&m).unwrap_err();
    assert!(matches!(&e, ConfigurationFault::DuplicateGate(g) if g == "5"));
    assert_eq!(e.message(), "Duplicate gate number: 5");
}

#[test]
fn gate_registry_has_one_free_record_per_gate() {
    let m = read("3x2\nG1X,...,G2X\n...,G3X,...\n").unwrap();
    let gates = Gate::new(&m).unwrap();
    assert_eq!(gates.len(), 3);
    let mut seen: Vec<(String, (usize, usize))> = gates.iter().map(|g| (g.number.clone(), g.position)).collect();
    seen.sort();
    assert_eq!(seen, vec![("1".to_string(), (1, 2)), ("2".to_string(), (1, 4)), ("3".to_string(), (2, 3))]);
    assert!(gates.iter().all(|g| !g.is_occupied));
}

#[test]
fn runway_registry_keeps_first_direction_per_name() {
    let m = read("3x2\nR1E,R1S,R2N\nR2W,...,R1W\n").unwrap();
    let mut rs = Runway::new(&m);
    rs.sort_by_key(|r| r.name);
    assert_eq!(rs, vec![Runway { name: 1, side: Direction::East }, Runway { name: 2, side: Direction::North }]);
}

#[test]
fn map_without_runways_has_empty_registry() {
    let m = read("1x1\n...\n").unwrap();
    assert!(Runway::new(&m).is_empty());
    assert!(Gate::new(&m).unwrap().is_empty());
}
