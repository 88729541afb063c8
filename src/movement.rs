use vstd::prelude::*;
use crate::aircraft::{
    Action, ActionView, AtGateAction, Plane, PlaneView, next_turnaround, turnaround_at, TURNAROUND_STEPS,
};
use crate::direction::{step, opposite, Direction};
use crate::grid::{
    AirportMap, Cell, MapPoint, pos_int, found_pair, gate_line_dir, is_runway, is_taxiway, taxiway_dir, ray_point,
    ray_hits_gate_at, ray_reaches_gate,
};
use crate::registry::{Gate, GateView, gates_view, gate_cell, gate_labels_unique};
use crate::text::str_eq;

verus! {

/// The map is inconsistent with what an aircraft's action assumes of it.
#[derive(Clone, Copy, Debug, PartialEq, Eq, Structural)]
pub enum TopologyFault {
    /// The move would leave the grid.
    OffGrid,
    /// The runway has no direction of travel to fly or roll along.
    NoHeading,
    /// A departing aircraft stands on something other than a runway.
    NotOnRunway,
    /// An aircraft taxiing onto a runway stands on neither taxiway nor runway.
    NotOnTaxiwayOrRunway,
    /// An aircraft holding short stands off the taxiways.
    NotOnTaxiway,
    /// An aircraft taxiing to its gate stands on nothing it can follow.
    NotOnTaxiwayOrGate,
    /// An aircraft has reached a gate that has no record.
    GateNotFound,
    /// A gate has no taxi line to push back onto.
    NoGateTaxiLine,
    /// A pushback starts neither at a gate nor on a gate taxi line.
    NotAtGate,
}

/// The position one step from `p` toward `d`.
pub open spec fn moved(d: Direction, p: (usize, usize)) -> (usize, usize) {
    let q = step(d, pos_int(p));
    (q.0 as usize, q.1 as usize)
}

/// The cell under position `p`.
pub open spec fn at(map: AirportMap, p: (usize, usize)) -> Cell {
    map.cell(pos_int(p))
}

pub open spec fn relocate(pl: PlaneView, p: (usize, usize)) -> PlaneView {
    PlaneView { position: p, ..pl }
}

pub open spec fn reassign(pl: PlaneView, a: ActionView) -> PlaneView {
    PlaneView { action: a, ..pl }
}

/// One step toward `d`, unless it leaves the grid.
pub open spec fn go_to(map: AirportMap, pl: PlaneView, d: Direction) -> Result<PlaneView, TopologyFault> {
    if map.in_bounds(step(d, pos_int(pl.position))) {
        Ok(relocate(pl, moved(d, pl.position)))
    } else {
        Err(TopologyFault::OffGrid)
    }
}

/// Approach: fly along the runway's heading; on reaching a cell of the
/// assigned runway with that heading, start landing.
pub open spec fn in_air_step(map: AirportMap, pl: PlaneView) -> Result<PlaneView, TopologyFault> {
    let d = pl.runway.side;
    if d == Direction::StayPut {
        Err(TopologyFault::NoHeading)
    } else if !map.in_bounds(step(d, pos_int(pl.position))) {
        Err(TopologyFault::OffGrid)
    } else {
        let q = moved(d, pl.position);
        if at(map, q) == Cell::Runway(pl.runway.name, d) {
            Ok(PlaneView { position: q, action: ActionView::Land, ..pl })
        } else {
            Ok(relocate(pl, q))
        }
    }
}

/// Where a landing aircraft leaves the runway this tick, if it does: the
/// first neighbouring taxiway whose own next cell is not a runway. Only one
/// cell past the taxiway is looked at.
pub open spec fn landing_exit(map: AirportMap, pl: PlaneView) -> Result<Option<(usize, usize)>, TopologyFault> {
    let p = pos_int(pl.position);
    match taxiway_dir(map, p) {
        Some(t) => match map.cell(step(t, p)) {
            Cell::Taxiway(_, tdir) => {
                let beyond = step(tdir, step(t, p));
                if !map.in_bounds(beyond) {
                    Err(TopologyFault::OffGrid)
                } else if is_runway(map.cell(beyond)) {
                    Ok(None)
                } else {
                    Ok(Some(moved(t, pl.position)))
                }
            },
            _ => Ok(None),
        },
        None => Ok(None),
    }
}

/// Landing roll: take an outward-facing taxiway exit if there is one, else
/// roll on along the runway; hold once off the runway or at its end.
pub open spec fn land_step(map: AirportMap, pl: PlaneView) -> Result<PlaneView, TopologyFault> {
    let d = pl.runway.side;
    if d == Direction::StayPut {
        Err(TopologyFault::NoHeading)
    } else if !map.in_bounds(step(d, pos_int(pl.position))) {
        Err(TopologyFault::OffGrid)
    } else {
        match landing_exit(map, pl) {
            Err(f) => Err(f),
            Ok(exit) => {
                let pos = match exit {
                    Some(q) => q,
                    None => moved(d, pl.position),
                };
                if !map.in_bounds(step(d, pos_int(pos))) {
                    Err(TopologyFault::OffGrid)
                } else {
                    if exit is Some || map.cell(step(d, pos_int(pos))) == Cell::Empty {
                        Ok(PlaneView { position: pos, action: ActionView::HoldPosition, ..pl })
                    } else {
                        Ok(relocate(pl, pos))
                    }
                }
            },
        }
    }
}

/// The aircraft stands inside the outer ring of the grid, away from its edge.
pub open spec fn inside_edge(map: AirportMap, p: (usize, usize)) -> bool {
    1 < p.0 < map.rows() - 1 && 1 < p.1 < map.cols() - 1
}

/// Departure: roll along the runway's heading until the edge, then leave
/// the map.
pub open spec fn takeoff_step(map: AirportMap, pl: PlaneView) -> Result<PlaneView, TopologyFault> {
    if !inside_edge(map, pl.position) {
        Ok(PlaneView { out_of_map: true, ..pl })
    } else {
        match at(map, pl.position) {
            Cell::Runway(_, _) | Cell::Empty => Ok(relocate(pl, moved(pl.runway.side, pl.position))),
            _ => Err(TopologyFault::NotOnRunway),
        }
    }
}

/// Taxi onto a runway: follow the taxiway, then the runway's own direction;
/// on a runway cell named 0 the action is flagged with that name and the
/// aircraft waits.
pub open spec fn taxi_onto_runway_step(map: AirportMap, pl: PlaneView) -> Result<PlaneView, TopologyFault> {
    if !map.in_bounds(pos_int(pl.position)) {
        Err(TopologyFault::OffGrid)
    } else {
        match at(map, pl.position) {
            Cell::Taxiway(_, d) => go_to(map, pl, d),
            Cell::Runway(name, d) => if name == 0 {
                Ok(reassign(pl, ActionView::TaxiOntoRunway(name)))
            } else {
                go_to(map, pl, d)
            },
            _ => Err(TopologyFault::NotOnTaxiwayOrRunway),
        }
    }
}

/// Hold short: follow the taxiway and stop on its last cell before a runway.
pub open spec fn hold_short_step(map: AirportMap, pl: PlaneView) -> Result<PlaneView, TopologyFault> {
    if !map.in_bounds(pos_int(pl.position)) {
        Err(TopologyFault::OffGrid)
    } else {
        match at(map, pl.position) {
            Cell::Taxiway(_, d) => if !map.in_bounds(step(d, pos_int(pl.position))) {
                Err(TopologyFault::OffGrid)
            } else if is_runway(at(map, moved(d, pl.position))) {
                Ok(reassign(pl, ActionView::HoldPosition))
            } else {
                Ok(relocate(pl, moved(d, pl.position)))
            },
            _ => Err(TopologyFault::NotOnTaxiway),
        }
    }
}

/// Pushback: from a gate onto its taxi line, then back along the line
/// against its direction; hold once on a taxiway.
pub open spec fn pushback_step(map: AirportMap, pl: PlaneView) -> Result<PlaneView, TopologyFault> {
    if !map.in_bounds(pos_int(pl.position)) {
        Err(TopologyFault::OffGrid)
    } else {
        match at(map, pl.position) {
            Cell::GateTaxiLine(_, d) => if !map.in_bounds(step(opposite(d), pos_int(pl.position))) {
                Err(TopologyFault::OffGrid)
            } else {
                let q = moved(opposite(d), pl.position);
                if is_taxiway(at(map, q)) {
                    Ok(PlaneView { position: q, action: ActionView::HoldPosition, ..pl })
                } else {
                    Ok(relocate(pl, q))
                }
            },
            Cell::Gate(l) => match gate_line_dir(map, pos_int(pl.position), l, true) {
                Some(gd) => Ok(relocate(pl, moved(gd, pl.position))),
                None => Err(TopologyFault::NoGateTaxiLine),
            },
            _ => Err(TopologyFault::NotAtGate),
        }
    }
}

/// Some record of `gs` has the label `g`.
pub open spec fn has_gate(gs: Seq<GateView>, g: Seq<char>) -> bool {
    exists|k: int| 0 <= k < gs.len() && #[trigger] gs[k].number == g
}

/// `gs` with the records labelled `g` marked occupied.
pub open spec fn occupy(gs: Seq<GateView>, g: Seq<char>) -> Seq<GateView> {
    gs.map_values(|gv: GateView| if gv.number == g { GateView { is_occupied: true, ..gv } } else { gv })
}

/// Taxi to gate `g`: leave the runway at its end; else head for a run of
/// gate taxi lines that ends at `g`; else follow the cell's direction; at
/// gate `g` itself, park and mark its record occupied.
pub open spec fn taxi_to_gate_step(map: AirportMap, gs: Seq<GateView>, pl: PlaneView, g: Seq<char>) -> Result<(PlaneView, Seq<GateView>), TopologyFault> {
    let p = pos_int(pl.position);
    let side = pl.runway.side;
    if !map.in_bounds(p) {
        Err(TopologyFault::OffGrid)
    } else if is_runway(map.cell(p)) && !map.in_bounds(step(side, p)) {
        Err(TopologyFault::OffGrid)
    } else if is_runway(map.cell(p)) && map.cell(step(side, p)) == Cell::Empty {
        match go_to(map, pl, map.cell(p)->Runway_1) {
            Ok(q) => Ok((q, gs)),
            Err(f) => Err(f),
        }
    } else {
        match gate_line_dir(map, p, g, false) {
            Some(gd) => Ok((relocate(pl, moved(gd, pl.position)), gs)),
            None => match map.cell(p) {
                Cell::Taxiway(_, d) => match go_to(map, pl, d) {
                    Ok(q) => Ok((q, gs)),
                    Err(f) => Err(f),
                },
                Cell::GateTaxiLine(_, d) => match go_to(map, pl, d) {
                    Ok(q) => Ok((q, gs)),
                    Err(f) => Err(f),
                },
                Cell::Runway(_, d) => match go_to(map, pl, d) {
                    Ok(q) => Ok((q, gs)),
                    Err(f) => Err(f),
                },
                Cell::Gate(l) => if l != g {
                    Err(TopologyFault::NotOnTaxiwayOrGate)
                } else if !has_gate(gs, g) {
                    Err(TopologyFault::GateNotFound)
                } else {
                    Ok((reassign(pl, ActionView::AtGate(g, AtGateAction::ShutdownProcedure)), occupy(gs, g)))
                },
                Cell::Empty => Err(TopologyFault::NotOnTaxiwayOrGate),
            },
        }
    }
}

/// One tick of the state machine for one aircraft: its next state and the
/// gate records after it, or the fault that stops it. Aircraft that have
/// left the map do not change.
pub open spec fn advance(map: AirportMap, gs: Seq<GateView>, pl: PlaneView) -> Result<(PlaneView, Seq<GateView>), TopologyFault> {
    if pl.out_of_map {
        Ok((pl, gs))
    } else {
        let single = match pl.action {
            ActionView::InAir => in_air_step(map, pl),
            ActionView::Land => land_step(map, pl),
            ActionView::Takeoff => takeoff_step(map, pl),
            ActionView::HoldPosition => Ok(pl),
            ActionView::TaxiOntoRunway(_) => taxi_onto_runway_step(map, pl),
            ActionView::HoldShort => hold_short_step(map, pl),
            ActionView::Pushback => pushback_step(map, pl),
            ActionView::AtGate(g, sub) => Ok(reassign(pl, ActionView::AtGate(g, next_turnaround(sub)))),
            ActionView::TaxiToGate(_) => Ok(pl),
        };
        match pl.action {
            ActionView::TaxiToGate(g) => taxi_to_gate_step(map, gs, pl, g),
            _ => match single {
                Ok(q) => Ok((q, gs)),
                Err(f) => Err(f),
            },
        }
    }
}

/// `r` reports `expected`: on success the aircraft is in the expected state,
/// on a fault it is unchanged.
pub open spec fn reports(r: Result<(), TopologyFault>, expected: Result<PlaneView, TopologyFault>, before: PlaneView, after: PlaneView) -> bool {
    match expected {
        Ok(q) => r is Ok && after == q,
        Err(f) => r == Err::<(), TopologyFault>(f) && after == before,
    }
}


/// A direction that the taxiway search reports leads to a taxiway on the grid.
proof fn lemma_taxiway_dir_found(map: AirportMap, p: (int, int))
    ensures
        taxiway_dir(map, p) matches Some(t) ==> map.in_bounds(step(t, p)) && is_taxiway(map.cell(step(t, p))),
{
}

/// Moves `plane` one step toward `d`, unless that leaves the grid.
fn go_toward(map: &AirportMap, plane: &mut Plane, d: Direction) -> (r: Result<(), TopologyFault>)
    requires
        map.wf(),
    ensures
        reports(r, go_to(*map, old(plane)@, d), old(plane)@, final(plane)@),
{
    match map.neighbor(d, plane.position) {
        Some(q) => {
            plane.position = q;
            Ok(())
        },
        None => Err(TopologyFault::OffGrid),
    }
}

fn in_air(map: &AirportMap, plane: &mut Plane) -> (r: Result<(), TopologyFault>)
    requires
        map.wf(),
    ensures
        reports(r, in_air_step(*map, old(plane)@), old(plane)@, final(plane)@),
{
    let d = plane.runway.side;
    if d == Direction::StayPut {
        return Err(TopologyFault::NoHeading);
    }
    match map.neighbor(d, plane.position) {
        None => Err(TopologyFault::OffGrid),
        Some(q) => {
            let arrived = match map.point_at(q) {
                MapPoint::Runway(n, rd) => *n == plane.runway.name && *rd == d,
                _ => false,
            };
            plane.position = q;
            if arrived {
                plane.current_action = Action::Land;
            }
            Ok(())
        },
    }
}

/// Where a landing aircraft at `p` leaves the runway this tick, if it does.
fn find_landing_exit(map: &AirportMap, plane: &Plane) -> (r: Result<Option<(usize, usize)>, TopologyFault>)
    requires
        map.wf(),
    ensures
        r == landing_exit(*map, plane@),
{
    let p = plane.position;
    let (near, t) = map.check_for_taxiway(p);
    if !near {
        return Ok(None);
    }
    proof {
        lemma_taxiway_dir_found(*map, pos_int(p));
    }
    let tp = t.go(p);
    match map.point_at(tp) {
        MapPoint::Taxiway(_, tdir) => match map.neighbor(*tdir, tp) {
            None => Err(TopologyFault::OffGrid),
            Some(f) => if map.point_at(f).check_if_runway() {
                Ok(None)
            } else {
                Ok(Some(tp))
            },
        },
        _ => Ok(None),
    }
}

fn land(map: &AirportMap, plane: &mut Plane) -> (r: Result<(), TopologyFault>)
    requires
        map.wf(),
    ensures
        reports(r, land_step(*map, old(plane)@), old(plane)@, final(plane)@),
{
    let d = plane.runway.side;
    if d == Direction::StayPut {
        return Err(TopologyFault::NoHeading);
    }
    let rolled = match map.neighbor(d, plane.position) {
        None => {
            return Err(TopologyFault::OffGrid);
        },
        Some(q) => q,
    };
    let exit = match find_landing_exit(map, plane) {
        Err(f) => {
            return Err(f);
        },
        Ok(e) => e,
    };
    let mut hold = false;
    let pos = match exit {
        Some(q) => {
            hold = true;
            q
        },
        None => rolled,
    };
    match map.neighbor(d, pos) {
        None => {
            return Err(TopologyFault::OffGrid);
        },
        Some(e) => {
            if let MapPoint::Empty = map.point_at(e) {
                hold = true;
            }
        },
    }
    plane.position = pos;
    if hold {
        plane.current_action = Action::HoldPosition;
    }
    Ok(())
}

fn takeoff(map: &AirportMap, plane: &mut Plane) -> (r: Result<(), TopologyFault>)
    requires
        map.wf(),
    ensures
        reports(r, takeoff_step(*map, old(plane)@), old(plane)@, final(plane)@),
{
    let rows = map.map.len();
    let cols = map.map[0].len();
    let p = plane.position;
    if p.0 <= 1 || p.0 >= rows - 1 || p.1 <= 1 || p.1 >= cols - 1 {
        plane.out_of_map = true;
        return Ok(());
    }
    match map.point_at(p) {
        MapPoint::Runway(_, _) | MapPoint::Empty => {
            plane.position = plane.runway.side.go(p);
            Ok(())
        },
        _ => Err(TopologyFault::NotOnRunway),
    }
}

fn taxi_onto_runway(map: &AirportMap, plane: &mut Plane) -> (r: Result<(), TopologyFault>)
    requires
        map.wf(),
    ensures
        reports(r, taxi_onto_runway_step(*map, old(plane)@), old(plane)@, final(plane)@),
{
    let p = plane.position;
    if p.0 >= map.map.len() || p.1 >= map.map[0].len() {
        return Err(TopologyFault::OffGrid);
    }
    match map.point_at(p) {
        MapPoint::Taxiway(_, d) => go_toward(map, plane, *d),
        MapPoint::Runway(name, d) => if *name == 0 {
            plane.current_action = Action::TaxiOntoRunway(*name);
            Ok(())
        } else {
            go_toward(map, plane, *d)
        },
        _ => Err(TopologyFault::NotOnTaxiwayOrRunway),
    }
}

fn hold_short(map: &AirportMap, plane: &mut Plane) -> (r: Result<(), TopologyFault>)
    requires
        map.wf(),
    ensures
        reports(r, hold_short_step(*map, old(plane)@), old(plane)@, final(plane)@),
{
    let p = plane.position;
    if p.0 >= map.map.len() || p.1 >= map.map[0].len() {
        return Err(TopologyFault::OffGrid);
    }
    match map.point_at(p) {
        MapPoint::Taxiway(_, d) => match map.neighbor(*d, p) {
            None => Err(TopologyFault::OffGrid),
            Some(q) => {
                if map.point_at(q).check_if_runway() {
                    plane.current_action = Action::HoldPosition;
                } else {
                    plane.position = q;
                }
                Ok(())
            },
        },
        _ => Err(TopologyFault::NotOnTaxiway),
    }
}

fn pushback(map: &AirportMap, plane: &mut Plane) -> (r: Result<(), TopologyFault>)
    requires
        map.wf(),
    ensures
        reports(r, pushback_step(*map, old(plane)@), old(plane)@, final(plane)@),
{
    let p = plane.position;
    if p.0 >= map.map.len() || p.1 >= map.map[0].len() {
        return Err(TopologyFault::OffGrid);
    }
    match map.point_at(p) {
        MapPoint::GateTaxiLine(_, d) => match map.neighbor(d.get_opposite_dir(), p) {
            None => Err(TopologyFault::OffGrid),
            Some(q) => {
                plane.position = q;
                if map.point_at(q).check_if_taxiway() {
                    plane.current_action = Action::HoldPosition;
                }
                Ok(())
            },
        },
        MapPoint::Gate(label) => {
            let (found, gd) = map.check_for_gate_taxi_line_all_directions(p, label.as_str(), true);
            if found {
                plane.position = gd.go(p);
                Ok(())
            } else {
                Err(TopologyFault::NoGateTaxiLine)
            }
        },
        _ => Err(TopologyFault::NotAtGate),
    }
}


/// A direction that the deep gate search reports leads onto the grid.
proof fn lemma_gate_line_dir_found(map: AirportMap, p: (int, int), g: Seq<char>, shallow: bool)
    ensures
        gate_line_dir(map, p, g, shallow) matches Some(d) ==> map.in_bounds(step(d, p)),
{
    if let Some(d) = gate_line_dir(map, p, g, shallow) {
        if ray_reaches_gate(map, p, d, g) {
            let k = choose|k: int| ray_hits_gate_at(map, p, d, g, k);
            assert(map.in_bounds(ray_point(p, d, 1)));
        }
    }
}

/// Marks the records labelled `g` occupied, if there is one.
fn occupy_gate(gates: &mut Vec<Gate>, g: &str) -> (r: bool)
    ensures
        r == has_gate(gates_view(old(gates)@), g@),
        r ==> gates_view(final(gates)@) == occupy(gates_view(old(gates)@), g@),
        !r ==> final(gates)@ == old(gates)@,
{
    let ghost before = gates_view(gates@);
    let mut found = false;
    let mut k: usize = 0;
    while k < gates.len()
        invariant
            k <= gates@.len(),
            before == gates_view(gates@),
            found == exists|m: int| 0 <= m < k && #[trigger] before[m].number == g@,
        decreases gates@.len() - k,
    {
        if str_eq(gates[k].number.as_str(), g) {
            found = true;
        }
        proof {
            if found && !(exists|m: int| 0 <= m < k && #[trigger] before[m].number == g@) {
                assert(before[k as int].number == g@);
            }
        }
        k = k + 1;
    }
    if !found {
        return false;
    }
    let ghost target = occupy(before, g@);
    let mut k: usize = 0;
    while k < gates.len()
        invariant
            k <= gates@.len(),
            gates@.len() == before.len(),
            target == occupy(before, g@),
            forall|m: int| 0 <= m < k ==> #[trigger] gates@[m]@ == target[m],
            forall|m: int| k <= m < gates@.len() ==> #[trigger] gates@[m]@ == before[m],
        decreases gates@.len() - k,
    {
        let ghost gv = before[k as int];
        assert(gates@[k as int]@ == gv);
        assert(target[k as int] == (if gv.number == g@ { GateView { is_occupied: true, ..gv } } else { gv }));
        if str_eq(gates[k].number.as_str(), g) {
            let marked = Gate { number: gates[k].number.clone(), position: gates[k].position, is_occupied: true };
            assert(marked@ == GateView { is_occupied: true, ..gv });
            gates.set(k, marked);
        }
        k = k + 1;
    }
    assert(gates_view(gates@) =~= target);
    true
}

fn taxi_to_gate(map: &AirportMap, gates: &mut Vec<Gate>, plane: &mut Plane, g: &str) -> (r: Result<(), TopologyFault>)
    requires
        map.wf(),
    ensures
        match taxi_to_gate_step(*map, gates_view(old(gates)@), old(plane)@, g@) {
            Ok((q, gs)) => r is Ok && final(plane)@ == q && gates_view(final(gates)@) == gs,
            Err(f) => r == Err::<(), TopologyFault>(f) && final(plane)@ == old(plane)@ && final(gates)@ == old(gates)@,
        },
{
    let p = plane.position;
    if p.0 >= map.map.len() || p.1 >= map.map[0].len() {
        return Err(TopologyFault::OffGrid);
    }
    let here = map.point_at(p);
    if let MapPoint::Runway(_, rd) = here {
        match map.neighbor(plane.runway.side, p) {
            None => {
                return Err(TopologyFault::OffGrid);
            },
            Some(q) => {
                if let MapPoint::Empty = map.point_at(q) {
                    return go_toward(map, plane, *rd);
                }
            },
        }
    }
    let (found, gd) = map.check_for_gate_taxi_line_all_directions(p, g, false);
    if found {
        proof {
            lemma_gate_line_dir_found(*map, pos_int(p), g@, false);
        }
        plane.position = gd.go(p);
        return Ok(());
    }
    match here {
        MapPoint::Taxiway(_, d) => go_toward(map, plane, *d),
        MapPoint::GateTaxiLine(_, d) => go_toward(map, plane, *d),
        MapPoint::Runway(_, d) => go_toward(map, plane, *d),
        MapPoint::Gate(label) => {
            if !str_eq(label.as_str(), g) {
                Err(TopologyFault::NotOnTaxiwayOrGate)
            } else if !occupy_gate(gates, g) {
                Err(TopologyFault::GateNotFound)
            } else {
                plane.current_action = Action::AtGate(String::from_str(g), AtGateAction::ShutdownProcedure);
                Ok(())
            }
        },
        MapPoint::Empty => Err(TopologyFault::NotOnTaxiwayOrGate),
    }
}

/// Advances one aircraft by one tick: its position, its action, and the
/// gate records when it parks. On a fault nothing changes.
pub fn advance_aircraft(map: &AirportMap, gates: &mut Vec<Gate>, plane: &mut Plane) -> (r: Result<(), TopologyFault>)
    requires
        map.wf(),
    ensures
        match advance(*map, gates_view(old(gates)@), old(plane)@) {
            Ok((q, gs)) => r is Ok && final(plane)@ == q && gates_view(final(gates)@) == gs,
            Err(f) => r == Err::<(), TopologyFault>(f) && final(plane)@ == old(plane)@ && final(gates)@ == old(gates)@,
        },
{
    if plane.out_of_map {
        return Ok(());
    }
    let gate = match &plane.current_action {
        Action::InAir => {
            return in_air(map, plane);
        },
        Action::Land => {
            return land(map, plane);
        },
        Action::Takeoff => {
            return takeoff(map, plane);
        },
        Action::HoldPosition => {
            return Ok(());
        },
        Action::TaxiOntoRunway(_) => {
            return taxi_onto_runway(map, plane);
        },
        Action::HoldShort => {
            return hold_short(map, plane);
        },
        Action::Pushback => {
            return pushback(map, plane);
        },
        Action::AtGate(g, sub) => {
            let next = Action::AtGate(g.clone(), sub.next());
            plane.current_action = next;
            return Ok(());
        },
        Action::TaxiToGate(g) => g.clone(),
    };
    taxi_to_gate(map, gates, plane, gate.as_str())
}


/// The aircraft of `ps`, with their strings as character sequences.
pub open spec fn planes_view(ps: Seq<Plane>) -> Seq<PlaneView> {
    ps.map_values(|p: Plane| p@)
}

/// One tick for every aircraft of `ps` in order, each seeing gate records
/// as the ones before it left them; the first fault stops the tick.
pub open spec fn advance_fleet(map: AirportMap, gs: Seq<GateView>, ps: Seq<PlaneView>) -> Result<(Seq<PlaneView>, Seq<GateView>), TopologyFault>
    decreases ps.len(),
{
    if ps.len() == 0 {
        Ok((Seq::empty(), gs))
    } else {
        match advance_fleet(map, gs, ps.drop_last()) {
            Err(f) => Err(f),
            Ok((qs, gs1)) => match advance(map, gs1, ps.last()) {
                Err(f) => Err(f),
                Ok((q, gs2)) => Ok((qs.push(q), gs2)),
            },
        }
    }
}

/// Once a prefix of the fleet faults, the whole fleet faults the same way.
proof fn lemma_fleet_fault_stays(map: AirportMap, gs: Seq<GateView>, ps: Seq<PlaneView>, n: int)
    requires
        0 <= n <= ps.len(),
        advance_fleet(map, gs, ps.take(n)) is Err,
    ensures
        advance_fleet(map, gs, ps) == advance_fleet(map, gs, ps.take(n)),
    decreases ps.len() - n,
{
    if n < ps.len() {
        assert(ps.take(n + 1).drop_last() =~= ps.take(n));
        lemma_fleet_fault_stays(map, gs, ps, n + 1);
    } else {
        assert(ps.take(n) =~= ps);
    }
}

/// Advances every aircraft of `planes` by one tick, in order.
pub fn advance_all(map: &AirportMap, gates: &mut Vec<Gate>, planes: &mut Vec<Plane>) -> (r: Result<(), TopologyFault>)
    requires
        map.wf(),
    ensures
        match advance_fleet(*map, gates_view(old(gates)@), planes_view(old(planes)@)) {
            Ok((ps, gs)) => r is Ok && planes_view(final(planes)@) == ps && gates_view(final(gates)@) == gs,
            Err(f) => r == Err::<(), TopologyFault>(f),
        },
{
    let ghost ps0 = planes_view(planes@);
    let ghost gs0 = gates_view(gates@);
    let mut i: usize = 0;
    proof {
        assert(ps0.take(0) =~= Seq::<PlaneView>::empty());
        assert(planes_view(planes@).take(0) =~= Seq::<PlaneView>::empty());
    }
    while i < planes.len()
        invariant
            map.wf(),
            i <= planes@.len(),
            planes@.len() == ps0.len(),
            ps0 == planes_view(old(planes)@),
            gs0 == gates_view(old(gates)@),
            advance_fleet(*map, gs0, ps0.take(i as int)) == Ok::<(Seq<PlaneView>, Seq<GateView>), TopologyFault>(
                (planes_view(planes@).take(i as int), gates_view(gates@)),
            ),
            forall|j: int| i <= j < planes@.len() ==> #[trigger] planes@[j]@ == ps0[j],
        decreases planes@.len() - i,
    {
        let mut p = planes[i].copy();
        let ghost gs_before = gates_view(gates@);
        let ghost before = planes@;
        proof {
            assert(ps0.take(i + 1).drop_last() =~= ps0.take(i as int));
            assert(ps0.take(i + 1).last() == ps0[i as int]);
            assert(p@ == ps0[i as int]);
        }
        match advance_aircraft(map, gates, &mut p) {
            Err(f) => {
                proof {
                    assert(advance(*map, gs_before, ps0[i as int]) == Err::<(PlaneView, Seq<GateView>), TopologyFault>(f));
                    assert(advance_fleet(*map, gs0, ps0.take(i + 1)) == Err::<(Seq<PlaneView>, Seq<GateView>), TopologyFault>(f));
                    lemma_fleet_fault_stays(*map, gs0, ps0, i + 1);
                }
                return Err(f);
            },
            Ok(()) => {
                planes.set(i, p);
                proof {
                    assert(planes_view(planes@).take(i + 1) =~= planes_view(before).take(i as int).push(p@));
                    assert forall|j: int| i + 1 <= j < planes@.len() implies #[trigger] planes@[j]@ == ps0[j] by {
                        assert(planes@[j] == before[j]);
                    }
                }
            },
        }
        i = i + 1;
    }
    proof {
        assert(ps0.take(i as int) =~= ps0);
        assert(planes_view(planes@).take(i as int) =~= planes_view(planes@));
    }
    Ok(())
}


/// `n` ticks of one aircraft alone, passing on its updated gate records.
pub open spec fn advance_n(map: AirportMap, gs: Seq<GateView>, pl: PlaneView, n: nat) -> Result<(PlaneView, Seq<GateView>), TopologyFault>
    decreases n,
{
    if n == 0 {
        Ok((pl, gs))
    } else {
        match advance(map, gs, pl) {
            Err(f) => Err(f),
            Ok((q, gs1)) => advance_n(map, gs1, q, (n - 1) as nat),
        }
    }
}

/// The step after the one at place `m` is the one at place `m + 1`.
proof fn lemma_turnaround_next(m: nat)
    ensures
        next_turnaround(turnaround_at(m)) == turnaround_at(m + 1),
{
}

/// An aircraft parked at a gate that gets no command moves one turnaround
/// step per tick, stays where it is, and keeps the last step once reached.
pub proof fn lemma_turnaround_progress(map: AirportMap, gs: Seq<GateView>, pl: PlaneView, g: Seq<char>, m: nat, n: nat)
    requires
        pl.action == ActionView::AtGate(g, turnaround_at(m)),
        !pl.out_of_map,
    ensures
        advance_n(map, gs, pl, n) == Ok::<(PlaneView, Seq<GateView>), TopologyFault>(
            (reassign(pl, ActionView::AtGate(g, turnaround_at(m + n))), gs),
        ),
    decreases n,
{
    if n > 0 {
        lemma_turnaround_next(m);
        let q = reassign(pl, ActionView::AtGate(g, turnaround_at(m + 1)));
        lemma_turnaround_progress(map, gs, q, g, m + 1, (n - 1) as nat);
        assert(reassign(q, ActionView::AtGate(g, turnaround_at(m + 1 + (n - 1) as nat))) == reassign(pl, ActionView::AtGate(g, turnaround_at(m + n))));
    } else {
        assert(reassign(pl, ActionView::AtGate(g, turnaround_at(m))) == pl);
    }
}

/// An aircraft that starts its turnaround with the shutdown procedure and
/// gets no command reaches standby after exactly fifteen ticks, one fewer
/// than the number of steps, and stays in standby from then on.
pub proof fn lemma_turnaround_completes(map: AirportMap, gs: Seq<GateView>, pl: PlaneView, g: Seq<char>, n: nat)
    requires
        pl.action == ActionView::AtGate(g, AtGateAction::ShutdownProcedure),
        !pl.out_of_map,
    ensures
        advance_n(map, gs, pl, n) matches Ok((q, gs1)) && gs1 == gs && q.position == pl.position && q.action
            == ActionView::AtGate(g, turnaround_at(n)),
        turnaround_at(n) == AtGateAction::Standby <==> n >= TURNAROUND_STEPS - 1,
{
    lemma_turnaround_progress(map, gs, pl, g, 0, n);
}

/// An aircraft taxiing to gate `g` that stands on that gate parks there in
/// one tick, at the first turnaround step, and its record is marked
/// occupied; this needs that label to be unique on the map and to have a
/// record.
pub proof fn lemma_arrival_at_gate(map: AirportMap, gs: Seq<GateView>, pl: PlaneView, g: Seq<char>)
    requires
        map.wf(),
        gate_labels_unique(map),
        map.in_bounds(pos_int(pl.position)),
        at(map, pl.position) == Cell::Gate(g),
        pl.action == ActionView::TaxiToGate(g),
        !pl.out_of_map,
        has_gate(gs, g),
    ensures
        advance(map, gs, pl) == Ok::<(PlaneView, Seq<GateView>), TopologyFault>(
            (reassign(pl, ActionView::AtGate(g, AtGateAction::ShutdownProcedure)), occupy(gs, g)),
        ),
        forall|k: int| 0 <= k < gs.len() && #[trigger] gs[k].number == g ==> occupy(gs, g)[k].is_occupied,
{
    let p = pos_int(pl.position);
    assert forall|d: Direction| d != Direction::StayPut implies !ray_reaches_gate(map, p, d, g) by {
        if ray_reaches_gate(map, p, d, g) {
            let k = choose|k: int| ray_hits_gate_at(map, p, d, g, k);
            let q = ray_point(p, d, k);
            assert(gate_cell(map, q));
            assert(gate_cell(map, p));
        }
    }
    assert(!ray_reaches_gate(map, p, Direction::North, g));
    assert(!ray_reaches_gate(map, p, Direction::South, g));
    assert(!ray_reaches_gate(map, p, Direction::East, g));
    assert(!ray_reaches_gate(map, p, Direction::West, g));
    assert(gate_line_dir(map, p, g, false) is None);
}



/// What fault `f` says, for the log.
pub open spec fn fault_text(f: TopologyFault) -> Seq<char> {
    match f {
        TopologyFault::OffGrid => "Aircraft would leave the map"@,
        TopologyFault::NoHeading => "Runway has no direction of travel"@,
        TopologyFault::NotOnRunway => "Plane is not standing on a runway"@,
        TopologyFault::NotOnTaxiwayOrRunway => "Plane is not standing on a taxiway or runway"@,
        TopologyFault::NotOnTaxiway => "Plane is not standing on a taxiway"@,
        TopologyFault::NotOnTaxiwayOrGate => "Plane is not standing on a taxiway or correct gate"@,
        TopologyFault::GateNotFound => "Gate not found"@,
        TopologyFault::NoGateTaxiLine => "Plane is not standing near a gate taxi line"@,
        TopologyFault::NotAtGate => "Plane is not standing at a gate or gate taxi line"@,
    }
}

impl TopologyFault {
    /// What is wrong, for the log.
    pub fn message(&self) -> (r: &'static str)
        ensures
            r@ == fault_text(*self),
    {
        match self {
            TopologyFault::OffGrid => "Aircraft would leave the map",
            TopologyFault::NoHeading => "Runway has no direction of travel",
            TopologyFault::NotOnRunway => "Plane is not standing on a runway",
            TopologyFault::NotOnTaxiwayOrRunway => "Plane is not standing on a taxiway or runway",
            TopologyFault::NotOnTaxiway => "Plane is not standing on a taxiway",
            TopologyFault::NotOnTaxiwayOrGate => "Plane is not standing on a taxiway or correct gate",
            TopologyFault::GateNotFound => "Gate not found",
            TopologyFault::NoGateTaxiLine => "Plane is not standing near a gate taxi line",
            TopologyFault::NotAtGate => "Plane is not standing at a gate or gate taxi line",
        }
    }
}

/// The way an aircraft at `p` faces on the map: along its cell's direction;
/// at a gate, away from its taxi line; elsewhere along its runway.
pub open spec fn heading(map: AirportMap, p: (usize, usize), side: Direction) -> Direction {
    match at(map, p) {
        Cell::Runway(_, d) => d,
        Cell::Taxiway(_, d) => d,
        Cell::GateTaxiLine(_, d) => d,
        Cell::Gate(g) => opposite(found_pair(gate_line_dir(map, pos_int(p), g, true)).1),
        Cell::Empty => side,
    }
}

/// The way `plane` faces on the map, for drawing it.
pub fn plane_heading(map: &AirportMap, plane: &Plane) -> (r: Direction)
    requires
        map.wf(),
        map.in_bounds(pos_int(plane.position)),
    ensures
        r == heading(*map, plane.position, plane.runway.side),
{
    match map.point_at(plane.position) {
        MapPoint::Runway(_, d) => *d,
        MapPoint::Taxiway(_, d) => *d,
        MapPoint::GateTaxiLine(_, d) => *d,
        MapPoint::Gate(g) => map.check_for_gate_taxi_line_all_directions(plane.position, g.as_str(), true).1.get_opposite_dir(),
        MapPoint::Empty => plane.runway.side,
    }
}


/// The position `n` steps from `p` toward `d`.
pub open spec fn ray_pos(p: (usize, usize), d: Direction, n: int) -> (usize, usize) {
    let q = ray_point(pos_int(p), d, n);
    (q.0 as usize, q.1 as usize)
}

/// An approaching aircraft after `n` ticks, when the first cell of its
/// runway with its heading lies `k` cells ahead: still approaching `n`
/// cells on, or landing on that cell once `n` reaches `k`.
pub open spec fn approach_after(pl: PlaneView, n: int, k: int) -> PlaneView {
    if n < k {
        relocate(pl, ray_pos(pl.position, pl.runway.side, n))
    } else {
        PlaneView { position: ray_pos(pl.position, pl.runway.side, k), action: ActionView::Land, ..pl }
    }
}

/// The first cell of `pl`'s runway with its heading lies `k` cells ahead
/// along that heading, over cells of the grid.
pub open spec fn runway_ahead(map: AirportMap, pl: PlaneView, k: int) -> bool {
    let p = pos_int(pl.position);
    let d = pl.runway.side;
    &&& k >= 1
    &&& forall|i: int| 1 <= i <= k ==> map.in_bounds(#[trigger] ray_point(p, d, i))
    &&& map.cell(ray_point(p, d, k)) == Cell::Runway(pl.runway.name, d)
    &&& forall|i: int| 1 <= i < k ==> map.cell(#[trigger] ray_point(p, d, i)) != Cell::Runway(pl.runway.name, d)
}

/// An approaching aircraft alone whose runway lies `k` cells ahead keeps
/// approaching one cell per tick and starts landing at exactly the `k`-th
/// tick, on that runway cell.
pub proof fn lemma_approach_lands(map: AirportMap, gs: Seq<GateView>, pl: PlaneView, k: int, n: nat)
    requires
        map.wf(),
        pl.action == ActionView::InAir,
        !pl.out_of_map,
        pl.runway.side != Direction::StayPut,
        runway_ahead(map, pl, k),
        n <= k,
    ensures
        advance_n(map, gs, pl, n) == Ok::<(PlaneView, Seq<GateView>), TopologyFault>((approach_after(pl, n as int, k), gs)),
    decreases n,
{
    let d = pl.runway.side;
    let p = pos_int(pl.position);
    if n == 0 {
        assert(ray_pos(pl.position, d, 0) == pl.position);
        assert(relocate(pl, pl.position) == pl);
    } else {
        assert(map.in_bounds(ray_point(p, d, 1)));
        let q = moved(d, pl.position);
        assert(pos_int(q) == ray_point(p, d, 1));
        assert(q == ray_pos(pl.position, d, 1));
        if k == 1 {
            assert(advance_n(map, gs, pl, n) == advance_n(map, gs, approach_after(pl, 1, 1), 0));
        } else {
            assert(map.cell(ray_point(p, d, 1)) != Cell::Runway(pl.runway.name, d));
            let next = relocate(pl, q);
            assert(advance(map, gs, pl) == Ok::<(PlaneView, Seq<GateView>), TopologyFault>((next, gs)));
            assert forall|i: int| 1 <= i <= k - 1 implies map.in_bounds(#[trigger] ray_point(pos_int(next.position), d, i)) by {
                assert(ray_point(pos_int(next.position), d, i) == ray_point(p, d, i + 1));
            }
            assert forall|i: int| 1 <= i < k - 1 implies map.cell(#[trigger] ray_point(pos_int(next.position), d, i))
                != Cell::Runway(pl.runway.name, d) by {
                assert(ray_point(pos_int(next.position), d, i) == ray_point(p, d, i + 1));
            }
            assert(ray_point(pos_int(next.position), d, k - 1) == ray_point(p, d, k));
            lemma_approach_lands(map, gs, next, k - 1, (n - 1) as nat);
            assert forall|m: int| #![auto] ray_pos(next.position, d, m) == ray_pos(pl.position, d, m + 1) by {
                assert(ray_point(pos_int(next.position), d, m) == ray_point(p, d, m + 1));
            }
            assert(approach_after(next, n - 1, k - 1) == approach_after(pl, n as int, k));
        }
    }
}

/// The action is one whose tick neither reads nor changes gate records.
pub open spec fn ignores_gates(a: ActionView) -> bool {
    !(a is TaxiToGate)
}

/// Such an aircraft ticks alike whatever gate records it sees, and its next
/// action ignores them too.
proof fn lemma_advance_ignores_gates(map: AirportMap, gs: Seq<GateView>, pl: PlaneView)
    requires
        ignores_gates(pl.action),
    ensures
        match advance(map, Seq::empty(), pl) {
            Ok((q, _)) => advance(map, gs, pl) == Ok::<(PlaneView, Seq<GateView>), TopologyFault>((q, gs)) && ignores_gates(q.action),
            Err(f) => advance(map, gs, pl) == Err::<(PlaneView, Seq<GateView>), TopologyFault>(f),
        },
{
}

/// `gs2` holds the records of `gs1` with the same labels and places, and
/// every record occupied in `gs1` still occupied.
pub open spec fn gates_grow(gs1: Seq<GateView>, gs2: Seq<GateView>) -> bool {
    &&& gs1.len() == gs2.len()
    &&& forall|k: int| 0 <= k < gs1.len() ==> {
        &&& #[trigger] gs2[k].number == gs1[k].number
        &&& gs2[k].position == gs1[k].position
        &&& gs1[k].is_occupied ==> gs2[k].is_occupied
    }
}

proof fn lemma_advance_grows(map: AirportMap, gs: Seq<GateView>, pl: PlaneView)
    ensures
        advance(map, gs, pl) matches Ok((_, gs2)) ==> gates_grow(gs, gs2),
{
}

proof fn lemma_grow_trans(a: Seq<GateView>, b: Seq<GateView>, c: Seq<GateView>)
    requires
        gates_grow(a, b),
        gates_grow(b, c),
    ensures
        gates_grow(a, c),
{
    assert forall|k: int| 0 <= k < a.len() implies {
        &&& #[trigger] c[k].number == a[k].number
        &&& c[k].position == a[k].position
        &&& a[k].is_occupied ==> c[k].is_occupied
    } by {
        assert(b[k].number == a[k].number);
        assert(c[k].number == b[k].number);
    }
}

/// A fleet tick keeps the fleet's size and lets gate records only fill up.
proof fn lemma_fleet_shape(map: AirportMap, gs: Seq<GateView>, ps: Seq<PlaneView>)
    ensures
        advance_fleet(map, gs, ps) matches Ok((qs, gs2)) ==> qs.len() == ps.len() && gates_grow(gs, gs2),
    decreases ps.len(),
{
    if ps.len() > 0 {
        lemma_fleet_shape(map, gs, ps.drop_last());
        if let Ok((_, gs1)) = advance_fleet(map, gs, ps.drop_last()) {
            lemma_advance_grows(map, gs1, ps.last());
            if let Ok((_, gs2)) = advance(map, gs1, ps.last()) {
                lemma_grow_trans(gs, gs1, gs2);
            }
        }
    } else {
        assert(gates_grow(gs, gs));
    }
}

/// In a fleet tick, aircraft `i` takes one tick of its own, seeing gate
/// records grown from the ones the tick started with, and leaving records
/// that the rest of the tick only grows.
proof fn lemma_fleet_member(map: AirportMap, gs: Seq<GateView>, ps: Seq<PlaneView>, i: int)
    requires
        0 <= i < ps.len(),
        advance_fleet(map, gs, ps) is Ok,
    ensures
        advance_fleet(map, gs, ps) matches Ok((qs, gs_end)) && qs.len() == ps.len() && exists|g2: Seq<GateView>, g3: Seq<GateView>|
            gates_grow(gs, g2) && #[trigger] gates_grow(g3, gs_end) && #[trigger] advance(map, g2, ps[i]) == Ok::<
                (PlaneView, Seq<GateView>),
                TopologyFault,
            >((qs[i], g3)),
    decreases ps.len(),
{
    lemma_fleet_shape(map, gs, ps);
    let (qs, gs_end) = advance_fleet(map, gs, ps)->Ok_0;
    let (qs0, gs1) = advance_fleet(map, gs, ps.drop_last())->Ok_0;
    lemma_fleet_shape(map, gs, ps.drop_last());
    if i == ps.len() - 1 {
        assert(gates_grow(gs_end, gs_end));
        assert(advance(map, gs1, ps[i]) == Ok::<(PlaneView, Seq<GateView>), TopologyFault>((qs[i], gs_end)));
    } else {
        lemma_fleet_member(map, gs, ps.drop_last(), i);
        let (g2, g3) = choose|g2: Seq<GateView>, g3: Seq<GateView>|
            gates_grow(gs, g2) && #[trigger] gates_grow(g3, gs1) && #[trigger] advance(map, g2, ps.drop_last()[i]) == Ok::<
                (PlaneView, Seq<GateView>),
                TopologyFault,
            >((qs0[i], g3));
        lemma_advance_grows(map, gs1, ps.last());
        lemma_grow_trans(g3, gs1, gs_end);
        assert(qs[i] == qs0[i]);
        assert(advance(map, g2, ps[i]) == Ok::<(PlaneView, Seq<GateView>), TopologyFault>((qs[i], g3)));
    }
}

/// `n` ticks of the whole fleet, as successive calls of
/// `update_aircraft_position` make them.
pub open spec fn advance_fleet_n(map: AirportMap, gs: Seq<GateView>, ps: Seq<PlaneView>, n: nat) -> Result<(Seq<PlaneView>, Seq<GateView>), TopologyFault>
    decreases n,
{
    if n == 0 {
        Ok((ps, gs))
    } else {
        match advance_fleet(map, gs, ps) {
            Err(f) => Err(f),
            Ok((qs, gs1)) => advance_fleet_n(map, gs1, qs, (n - 1) as nat),
        }
    }
}

/// Over fleet ticks that run without a fault, an aircraft whose actions
/// never involve gate records moves exactly as it would alone.
proof fn lemma_fleet_follows_alone(map: AirportMap, gs: Seq<GateView>, ps: Seq<PlaneView>, i: int, n: nat)
    requires
        0 <= i < ps.len(),
        ignores_gates(ps[i].action),
        advance_fleet_n(map, gs, ps, n) is Ok,
    ensures
        advance_fleet_n(map, gs, ps, n) matches Ok((qs, _)) && qs.len() == ps.len() && (advance_n(map, Seq::empty(), ps[i], n) matches Ok(
            (q, _),
        ) && qs[i] == q),
    decreases n,
{
    if n > 0 {
        lemma_fleet_member(map, gs, ps, i);
        let (qs1, gs1) = advance_fleet(map, gs, ps)->Ok_0;
        let (g2, g3) = choose|g2: Seq<GateView>, g3: Seq<GateView>|
            gates_grow(gs, g2) && #[trigger] gates_grow(g3, gs1) && #[trigger] advance(map, g2, ps[i]) == Ok::<
                (PlaneView, Seq<GateView>),
                TopologyFault,
            >((qs1[i], g3));
        lemma_advance_ignores_gates(map, g2, ps[i]);
        lemma_advance_ignores_gates(map, Seq::empty(), ps[i]);
        lemma_fleet_follows_alone(map, gs1, qs1, i, (n - 1) as nat);
    }
}

/// In a fleet whose ticks run without a fault, an aircraft that starts its
/// turnaround with the shutdown procedure steps through it one step per
/// tick without moving, reaches standby after exactly fifteen ticks, and
/// stays in standby.
pub proof fn lemma_fleet_turnaround(map: AirportMap, gs: Seq<GateView>, ps: Seq<PlaneView>, i: int, g: Seq<char>, n: nat)
    requires
        0 <= i < ps.len(),
        ps[i].action == ActionView::AtGate(g, AtGateAction::ShutdownProcedure),
        !ps[i].out_of_map,
        advance_fleet_n(map, gs, ps, n) is Ok,
    ensures
        advance_fleet_n(map, gs, ps, n) matches Ok((qs, _)) && qs[i].position == ps[i].position && qs[i].action
            == ActionView::AtGate(g, turnaround_at(n)),
        turnaround_at(n) == AtGateAction::Standby <==> n >= TURNAROUND_STEPS - 1,
{
    lemma_fleet_follows_alone(map, gs, ps, i, n);
    lemma_turnaround_completes(map, Seq::empty(), ps[i], g, n);
}

/// In a fleet whose ticks run without a fault, an approaching aircraft
/// whose runway lies `k` cells ahead is, after `n <= k` ticks, still
/// approaching `n` cells on, and starts landing at exactly the `k`-th tick.
pub proof fn lemma_fleet_approach(map: AirportMap, gs: Seq<GateView>, ps: Seq<PlaneView>, i: int, k: int, n: nat)
    requires
        map.wf(),
        0 <= i < ps.len(),
        ps[i].action == ActionView::InAir,
        !ps[i].out_of_map,
        ps[i].runway.side != Direction::StayPut,
        runway_ahead(map, ps[i], k),
        n <= k,
        advance_fleet_n(map, gs, ps, n) is Ok,
    ensures
        advance_fleet_n(map, gs, ps, n) matches Ok((qs, _)) && qs[i] == approach_after(ps[i], n as int, k),
{
    lemma_fleet_follows_alone(map, gs, ps, i, n);
    lemma_approach_lands(map, Seq::empty(), ps[i], k, n);
}

/// In a fleet tick that runs without a fault, an aircraft taxiing to gate
/// `g` that stands on that gate parks there at the first turnaround step,
/// and after the tick every record labelled `g` is occupied; labels and
/// places of the records do not change.
pub proof fn lemma_fleet_arrival(map: AirportMap, gs: Seq<GateView>, ps: Seq<PlaneView>, i: int, g: Seq<char>)
    requires
        map.wf(),
        gate_labels_unique(map),
        0 <= i < ps.len(),
        map.in_bounds(pos_int(ps[i].position)),
        at(map, ps[i].position) == Cell::Gate(g),
        ps[i].action == ActionView::TaxiToGate(g),
        !ps[i].out_of_map,
        has_gate(gs, g),
        advance_fleet(map, gs, ps) is Ok,
    ensures
        advance_fleet(map, gs, ps) matches Ok((qs, gs_end)) && qs[i] == reassign(
            ps[i],
            ActionView::AtGate(g, AtGateAction::ShutdownProcedure),
        ) && gates_grow(gs, gs_end) && forall|k: int| 0 <= k < gs_end.len() && #[trigger] gs_end[k].number == g ==> gs_end[k].is_occupied,
{
    lemma_fleet_member(map, gs, ps, i);
    lemma_fleet_shape(map, gs, ps);
    let (qs, gs_end) = advance_fleet(map, gs, ps)->Ok_0;
    let (g2, g3) = choose|g2: Seq<GateView>, g3: Seq<GateView>|
        gates_grow(gs, g2) && #[trigger] gates_grow(g3, gs_end) && #[trigger] advance(map, g2, ps[i]) == Ok::<
            (PlaneView, Seq<GateView>),
            TopologyFault,
        >((qs[i], g3));
    let kk = choose|kk: int| 0 <= kk < gs.len() && #[trigger] gs[kk].number == g;
    assert(g2[kk].number == g);
    lemma_arrival_at_gate(map, g2, ps[i], g);
    assert forall|k: int| 0 <= k < gs_end.len() && #[trigger] gs_end[k].number == g implies gs_end[k].is_occupied by {
        assert(g3[k].number == g);
    }
}

} // verus!
