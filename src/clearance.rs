use vstd::prelude::*;
use crate::aircraft::{Action, ActionView, Plane, PlaneView};
use crate::direction::step;
use crate::grid::{AirportMap, Cell, MapPoint, pos_int};
use crate::text::{decimal, decimal_string, str_eq};
use crate::weather::Weather;

verus! {

/// The airline that a two-letter flight code prefix stands for.
pub open spec fn airline_of(code: Seq<char>) -> Option<Seq<char>> {
    if code == "AA"@ {
        Some("American Airlines"@)
    } else if code == "DL"@ {
        Some("Delta Air Lines"@)
    } else if code == "UA"@ {
        Some("United Airlines"@)
    } else if code == "BA"@ {
        Some("British Airways"@)
    } else if code == "AF"@ {
        Some("Air France"@)
    } else if code == "LH"@ {
        Some("Lufthansa"@)
    } else if code == "EK"@ {
        Some("Emirates"@)
    } else if code == "QF"@ {
        Some("Qantas"@)
    } else if code == "AS"@ {
        Some("Alaska Airlines"@)
    } else if code == "WN"@ {
        Some("Southwest Airlines"@)
    } else if code == "AI"@ {
        Some("Air India"@)
    } else {
        None
    }
}

/// The airline that the flight code prefix `code` stands for, if any.
pub fn airline_name(code: &str) -> (r: Option<&'static str>)
    ensures
        match airline_of(code@) {
            Some(n) => r matches Some(s) && s@ == n,
            None => r is None,
        },
{
    if str_eq(code, "AA") {
        Some("American Airlines")
    } else if str_eq(code, "DL") {
        Some("Delta Air Lines")
    } else if str_eq(code, "UA") {
        Some("United Airlines")
    } else if str_eq(code, "BA") {
        Some("British Airways")
    } else if str_eq(code, "AF") {
        Some("Air France")
    } else if str_eq(code, "LH") {
        Some("Lufthansa")
    } else if str_eq(code, "EK") {
        Some("Emirates")
    } else if str_eq(code, "QF") {
        Some("Qantas")
    } else if str_eq(code, "AS") {
        Some("Alaska Airlines")
    } else if str_eq(code, "WN") {
        Some("Southwest Airlines")
    } else if str_eq(code, "AI") {
        Some("Air India")
    } else {
        None
    }
}

/// The taxiway an aircraft at `p` is on, or the one its runway cell leads
/// onto; 0 when there is none.
pub open spec fn taxiway_near(map: AirportMap, p: (int, int)) -> usize {
    if !map.in_bounds(p) {
        0
    } else {
        match map.cell(p) {
            Cell::Taxiway(num, _) => num,
            Cell::Runway(_, d) => if map.in_bounds(step(d, p)) {
                match map.cell(step(d, p)) {
                    Cell::Taxiway(num, _) => num,
                    _ => 0,
                }
            } else {
                0
            },
            _ => 0,
        }
    }
}

/// The clearance phrase for the action just granted to `pl`, addressed by
/// airline and flight number; `None` when the name's first two characters
/// are no airline code.
pub open spec fn clearance_text(map: AirportMap, w: Weather, pl: PlaneView) -> Option<Seq<char>> {
    if pl.name.len() < 2 {
        None
    } else {
        match airline_of(pl.name.subrange(0, 2)) {
            None => None,
            Some(airline) => {
                let who = airline + " "@ + pl.name.subrange(2, pl.name.len() as int);
                let rw = decimal(pl.runway.name as nat);
                Some(
                    match pl.action {
                        ActionView::Land => who + ", you are cleared to land on runway "@ + rw + "."@,
                        ActionView::Takeoff => who + ", you are cleared for takeoff, runway "@ + rw + ". Conditions "@
                            + decimal(w.wind_direction as nat) + " at "@ + decimal(w.wind_speed as nat) + " knots."@,
                        ActionView::HoldPosition => who + ", hold position, traffic crossing."@,
                        ActionView::Pushback => who + ", pushback approved, expect runway "@ + rw + " for departure."@,
                        ActionView::TaxiOntoRunway(num) => who + ", taxi directly to runway "@ + decimal(num as nat) + "."@,
                        ActionView::HoldShort => who + ", hold short of runway "@ + rw + " for landing traffic."@,
                        ActionView::TaxiToGate(g) => {
                            let tw = taxiway_near(map, pos_int(pl.position));
                            if tw == 0 {
                                who + ", taxi to gate "@ + g + "."@
                            } else {
                                who + ", taxi to gate "@ + g + " via taxiway "@ + decimal(tw as nat) + "."@
                            }
                        },
                        _ => Seq::empty(),
                    },
                )
            },
        }
    }
}

fn find_taxiway_near(map: &AirportMap, p: (usize, usize)) -> (r: usize)
    requires
        map.wf(),
    ensures
        r == taxiway_near(*map, pos_int(p)),
{
    if p.0 >= map.map.len() || p.1 >= map.map[0].len() {
        return 0;
    }
    match map.point_at(p) {
        MapPoint::Taxiway(num, _) => *num,
        MapPoint::Runway(_, d) => match map.neighbor(*d, p) {
            Some(q) => match map.point_at(q) {
                MapPoint::Taxiway(num, _) => *num,
                _ => 0,
            },
            None => 0,
        },
        _ => 0,
    }
}

/// The clearance phrase for the action just granted to `plane`.
pub fn create_atc_clearance(map: &AirportMap, weather: &Weather, plane: &Plane) -> (r: Option<String>)
    requires
        map.wf(),
    ensures
        match clearance_text(*map, *weather, plane@) {
            Some(t) => r matches Some(s) && s@ == t,
            None => r is None,
        },
{
    let len = plane.name.as_str().unicode_len();
    if len < 2 {
        return None;
    }
    let prefix = plane.name.as_str().substring_char(0, 2);
    let airline = match airline_name(prefix) {
        None => {
            return None;
        },
        Some(a) => a,
    };
    let code = plane.name.as_str().substring_char(2, len);
    let who = String::from_str(airline).concat(" ").concat(code);
    let rw = decimal_string(plane.runway.name);
    let text = match &plane.current_action {
        Action::Land => who.concat(", you are cleared to land on runway ").concat(rw.as_str()).concat("."),
        Action::Takeoff => {
            let dir = decimal_string(weather.wind_direction);
            let speed = decimal_string(weather.wind_speed);
            who.concat(", you are cleared for takeoff, runway ").concat(rw.as_str()).concat(". Conditions ").concat(
                dir.as_str(),
            ).concat(" at ").concat(speed.as_str()).concat(" knots.")
        },
        Action::HoldPosition => who.concat(", hold position, traffic crossing."),
        Action::Pushback => who.concat(", pushback approved, expect runway ").concat(rw.as_str()).concat(" for departure."),
        Action::TaxiOntoRunway(num) => {
            let n = decimal_string(*num);
            who.concat(", taxi directly to runway ").concat(n.as_str()).concat(".")
        },
        Action::HoldShort => who.concat(", hold short of runway ").concat(rw.as_str()).concat(" for landing traffic."),
        Action::TaxiToGate(g) => {
            let tw = find_taxiway_near(map, plane.position);
            if tw == 0 {
                who.concat(", taxi to gate ").concat(g.as_str()).concat(".")
            } else {
                let t = decimal_string(tw);
                who.concat(", taxi to gate ").concat(g.as_str()).concat(" via taxiway ").concat(t.as_str()).concat(".")
            }
        },
        _ => String::new(),
    };
    Some(text)
}


/// Number of airlines with a flight code.
pub const AIRLINE_COUNT: usize = 11;

/// The flight code prefixes, in a fixed order.
pub open spec fn airline_code_list() -> Seq<Seq<char>> {
    seq!["AA"@, "DL"@, "UA"@, "BA"@, "AF"@, "LH"@, "EK"@, "QF"@, "AS"@, "WN"@, "AI"@]
}

/// The flight code prefixes, in a fixed order.
pub fn airline_codes() -> (r: Vec<&'static str>)
    ensures
        r@.len() == AIRLINE_COUNT,
        forall|i: int| 0 <= i < r@.len() ==> #[trigger] r@[i]@ == airline_code_list()[i],
{
    let r = vec!["AA", "DL", "UA", "BA", "AF", "LH", "EK", "QF", "AS", "WN", "AI"];
    assert(r@.len() == 11);
    r
}

} // verus!
