use vstd::prelude::*;
use crate::aircraft::Runway;
use crate::grid::{AirportMap, Cell, MapPoint};
use crate::direction::{step, Direction};
use crate::text::{char_string, decimal, decimal_string, str_eq};

verus! {

/// A load-time error: the map or its indices are inconsistent.
#[derive(Debug)]
pub enum ConfigurationFault {
    /// Two gate cells carry this label.
    DuplicateGate(String),
    /// The first line does not give the map's size as `WIDTHxHEIGHT`.
    BadDimensions,
    /// The map has more rows than its size line allows.
    TooManyRows,
    /// A row has more cells than its size line allows.
    TooManyColumns,
    /// A cell token has fewer than three characters.
    ShortToken,
    /// This character is not a direction code.
    BadDirection(char),
    /// This character is not a digit, as a runway or taxiway name must be.
    BadName(char),
    /// The direction of the cell at this row and column leads off the grid
    /// or onto a cell that does not continue its path.
    BadContinuation(usize, usize),
}

/// A gate record: its label, where it stands, and whether an aircraft has
/// parked there.
#[derive(Debug)]
pub struct Gate {
    pub number: String,
    pub position: (usize, usize),
    pub is_occupied: bool,
}

/// A gate record, with its label as a character sequence.
pub struct GateView {
    pub number: Seq<char>,
    pub position: (usize, usize),
    pub is_occupied: bool,
}

impl View for Gate {
    type V = GateView;

    open spec fn view(&self) -> GateView {
        GateView { number: self.number@, position: self.position, is_occupied: self.is_occupied }
    }
}

/// `a` comes before `b` in row-major order.
pub open spec fn before(a: (int, int), b: (int, int)) -> bool {
    a.0 < b.0 || (a.0 == b.0 && a.1 < b.1)
}

/// The cell at `p` belongs to the runway `name`.
pub open spec fn runway_named(map: AirportMap, p: (int, int), name: usize) -> bool {
    &&& map.in_bounds(p)
    &&& map.cell(p) matches Cell::Runway(n, _) && n == name
}

/// `p` is the first cell of runway `name` in row-major order.
pub open spec fn first_runway_cell(map: AirportMap, p: (int, int), name: usize) -> bool {
    &&& runway_named(map, p, name)
    &&& forall|q: (int, int)| before(q, p) ==> !runway_named(map, q, name)
}

/// `rs` holds one record per runway of `map`, each with the direction of
/// the runway's first cell in row-major order.
pub open spec fn runway_registry(map: AirportMap, rs: Seq<Runway>) -> bool {
    &&& forall|a: int, b: int| 0 <= a < b < rs.len() ==> rs[a].name != rs[b].name
    &&& forall|k: int| 0 <= k < rs.len() ==> exists|p: (int, int)|
        first_runway_cell(map, p, #[trigger] rs[k].name) && map.cell(p) == Cell::Runway(rs[k].name, rs[k].side)
    &&& forall|p: (int, int), n: usize| #[trigger] runway_named(map, p, n) ==> exists|k: int| 0 <= k < rs.len() && #[trigger] rs[k].name == n
}

/// The cell at `p` is a gate.
pub open spec fn gate_cell(map: AirportMap, p: (int, int)) -> bool {
    map.in_bounds(p) && map.cell(p) is Gate
}

/// No two gate cells of `map` carry the same label.
pub open spec fn gate_labels_unique(map: AirportMap) -> bool {
    forall|p: (int, int), q: (int, int)| #[trigger] gate_cell(map, p) && #[trigger] gate_cell(map, q) && p != q ==> map.cell(p) != map.cell(q)
}

/// `gs` holds one unoccupied record per gate cell of `map`.
pub open spec fn gate_registry(map: AirportMap, gs: Seq<GateView>) -> bool {
    &&& forall|k: int| 0 <= k < gs.len() ==> {
        &&& gate_cell(map, (gs[k].position.0 as int, gs[k].position.1 as int))
        &&& map.cell((gs[k].position.0 as int, gs[k].position.1 as int)) == Cell::Gate(gs[k].number)
        &&& !gs[k].is_occupied
    }
    &&& forall|a: int, b: int| 0 <= a < b < gs.len() ==> gs[a].position != gs[b].position
    &&& forall|p: (int, int)| #[trigger] gate_cell(map, p) ==> exists|k: int| 0 <= k < gs.len()
        && (#[trigger] gs[k].position.0 as int, gs[k].position.1 as int) == p
}

/// The records of `gs`, with labels as character sequences.
pub open spec fn gates_view(gs: Seq<Gate>) -> Seq<GateView> {
    gs.map_values(|g: Gate| g@)
}

impl Runway {
    /// Scans the map once and keeps one record per runway name.
    pub fn new(map: &AirportMap) -> (r: Vec<Runway>)
        requires
            map.wf(),
        ensures
            runway_registry(*map, r@),
    {
        let mut runways: Vec<Runway> = Vec::new();
        let rows = map.map.len();
        let cols = map.map[0].len();
        let ghost mut firsts: Seq<(int, int)> = Seq::empty();
        let mut i: usize = 0;
        while i < rows
            invariant
                map.wf(),
                rows == map.rows(),
                cols == map.cols(),
                i <= rows,
                firsts.len() == runways@.len(),
                forall|a: int, b: int| 0 <= a < b < runways@.len() ==> runways@[a].name != runways@[b].name,
                forall|k: int| 0 <= k < runways@.len() ==> first_runway_cell(*map, #[trigger] firsts[k], runways@[k].name)
                    && map.cell(firsts[k]) == Cell::Runway(runways@[k].name, runways@[k].side),
                forall|p: (int, int), n: usize| #[trigger] runway_named(*map, p, n) && p.0 < i ==> exists|k: int| 0 <= k < runways@.len() && #[trigger] runways@[k].name == n,
            decreases rows - i,
        {
            let row = &map.map[i];
            let mut j: usize = 0;
            while j < cols
                invariant
                    map.wf(),
                    rows == map.rows(),
                    cols == map.cols(),
                    i < rows,
                    j <= cols,
                    row@ == map.map@[i as int]@,
                    firsts.len() == runways@.len(),
                    forall|a: int, b: int| 0 <= a < b < runways@.len() ==> runways@[a].name != runways@[b].name,
                    forall|k: int| 0 <= k < runways@.len() ==> first_runway_cell(*map, #[trigger] firsts[k], runways@[k].name)
                        && map.cell(firsts[k]) == Cell::Runway(runways@[k].name, runways@[k].side),
                    forall|p: (int, int), n: usize| #[trigger] runway_named(*map, p, n) && before(p, (i as int, j as int)) ==> exists|k: int| 0 <= k < runways@.len() && #[trigger] runways@[k].name == n,
                decreases cols - j,
            {
                let ghost before_runways = runways@;
                if let MapPoint::Runway(name, side) = &row[j] {
                    let mut known = false;
                    let mut k: usize = 0;
                    while k < runways.len()
                        invariant
                            k <= runways@.len(),
                            known ==> exists|m: int| 0 <= m < runways@.len() && #[trigger] runways@[m].name == *name,
                            !known ==> forall|m: int| 0 <= m < k ==> #[trigger] runways@[m].name != *name,
                        decreases runways@.len() - k,
                    {
                        if runways[k].name == *name {
                            known = true;
                        }
                        k = k + 1;
                    }
                    if !known {
                        let ghost p = (i as int, j as int);
                        proof {
                            assert forall|q: (int, int)| before(q, p) implies !runway_named(*map, q, *name) by {
                                if runway_named(*map, q, *name) {
                                    let m = choose|m: int| 0 <= m < runways@.len() && #[trigger] runways@[m].name == *name;
                                }
                            }
                            firsts = firsts.push(p);
                        }
                        runways.push(Runway { name: *name, side: *side });
                        proof {
                            assert(runways@[runways@.len() - 1].name == *name);
                        }
                    }
                }
                proof {
                    let p = (i as int, j as int);
                    assert forall|q: (int, int), n: usize| #[trigger] runway_named(*map, q, n) && before(q, (i as int, j + 1)) implies exists|k: int| 0 <= k < runways@.len() && #[trigger] runways@[k].name == n by {
                        if q != p {
                            assert(before(q, p));
                            let k = choose|k: int| 0 <= k < before_runways.len() && #[trigger] before_runways[k].name == n;
                            assert(runways@[k] == before_runways[k]);
                        }
                    }
                }
                j = j + 1;
            }
            i = i + 1;
        }
        proof {
            assert forall|k: int| 0 <= k < runways@.len() implies exists|p: (int, int)|
                first_runway_cell(*map, p, #[trigger] runways@[k].name) && map.cell(p) == Cell::Runway(runways@[k].name, runways@[k].side) by {
                assert(first_runway_cell(*map, firsts[k], runways@[k].name));
            }
        }
        runways
    }
}


/// Position `p` as integers.
pub open spec fn ipos(p: (usize, usize)) -> (int, int) {
    (p.0 as int, p.1 as int)
}

impl Gate {
    /// Scans the map once and builds one unoccupied record per gate; fails
    /// if two gates carry the same label.
    pub fn new(map: &AirportMap) -> (r: Result<Vec<Gate>, ConfigurationFault>)
        requires
            map.wf(),
        ensures
            r is Ok <==> gate_labels_unique(*map),
            r matches Ok(gs) ==> gate_registry(*map, gates_view(gs@)),
            r matches Err(e) ==> e matches ConfigurationFault::DuplicateGate(l) && exists|p: (int, int), q: (int, int)|
                #[trigger] gate_cell(*map, p) && #[trigger] gate_cell(*map, q) && p != q
                && map.cell(p) == Cell::Gate(l@) && map.cell(q) == Cell::Gate(l@),
    {
        let mut gates: Vec<Gate> = Vec::new();
        let rows = map.map.len();
        let cols = map.map[0].len();
        let mut i: usize = 0;
        while i < rows
            invariant
                map.wf(),
                rows == map.rows(),
                cols == map.cols(),
                i <= rows,
                forall|k: int| 0 <= k < gates@.len() ==> {
                    &&& gate_cell(*map, #[trigger] ipos(gates@[k].position))
                    &&& map.cell(ipos(gates@[k].position)) == Cell::Gate(gates@[k].number@)
                    &&& !gates@[k].is_occupied
                    &&& gates@[k].position.0 < i
                },
                forall|a: int, b: int| 0 <= a < b < gates@.len() ==> before(ipos(#[trigger] gates@[a].position), ipos(#[trigger] gates@[b].position)),
                forall|a: int, b: int| 0 <= a < b < gates@.len() ==> #[trigger] gates@[a].number@ != #[trigger] gates@[b].number@,
                forall|p: (int, int)| #[trigger] gate_cell(*map, p) && p.0 < i ==> exists|k: int| 0 <= k < gates@.len() && #[trigger] ipos(gates@[k].position) == p,
            decreases rows - i,
        {
            let row = &map.map[i];
            let mut j: usize = 0;
            while j < cols
                invariant
                    map.wf(),
                    rows == map.rows(),
                    cols == map.cols(),
                    i < rows,
                    j <= cols,
                    row@ == map.map@[i as int]@,
                    forall|k: int| 0 <= k < gates@.len() ==> {
                        &&& gate_cell(*map, #[trigger] ipos(gates@[k].position))
                        &&& map.cell(ipos(gates@[k].position)) == Cell::Gate(gates@[k].number@)
                        &&& !gates@[k].is_occupied
                        &&& before(ipos(gates@[k].position), (i as int, j as int))
                    },
                    forall|a: int, b: int| 0 <= a < b < gates@.len() ==> before(ipos(#[trigger] gates@[a].position), ipos(#[trigger] gates@[b].position)),
                    forall|a: int, b: int| 0 <= a < b < gates@.len() ==> #[trigger] gates@[a].number@ != #[trigger] gates@[b].number@,
                    forall|p: (int, int)| #[trigger] gate_cell(*map, p) && before(p, (i as int, j as int)) ==> exists|k: int| 0 <= k < gates@.len() && #[trigger] ipos(gates@[k].position) == p,
                decreases cols - j,
            {
                let ghost before_gates = gates@;
                let ghost p = (i as int, j as int);
                if let MapPoint::Gate(number) = &row[j] {
                    assert(map.cell(p) == Cell::Gate(number@));
                    let mut k: usize = 0;
                    #[verifier::loop_isolation(false)]
                    while k < gates.len()
                        invariant
                            k <= gates@.len(),
                            forall|m: int| 0 <= m < k ==> #[trigger] gates@[m].number@ != number@,
                        decreases gates@.len() - k,
                    {
                        if str_eq(gates[k].number.as_str(), number.as_str()) {
                            proof {
                                let q = ipos(gates@[k as int].position);
                                assert(gate_cell(*map, q));
                                assert(gate_cell(*map, p));
                                assert(before(q, p));
                            }
                            return Err(ConfigurationFault::DuplicateGate(number.clone()));
                        }
                        k = k + 1;
                    }
                    gates.push(Gate { number: number.clone(), position: (i, j), is_occupied: false });
                    proof {
                        let last = gates@.len() - 1;
                        assert(ipos(gates@[last].position) == p);
                        assert forall|a: int, b: int| 0 <= a < b < gates@.len() implies before(ipos(#[trigger] gates@[a].position), ipos(#[trigger] gates@[b].position)) by {
                            if b == last {
                                assert(before(ipos(before_gates[a].position), p));
                            } else {
                                assert(gates@[a] == before_gates[a]);
                                assert(gates@[b] == before_gates[b]);
                            }
                        }
                        assert forall|a: int, b: int| 0 <= a < b < gates@.len() implies #[trigger] gates@[a].number@ != #[trigger] gates@[b].number@ by {
                            if b == last {
                                assert(gates@[a] == before_gates[a]);
                            } else {
                                assert(gates@[a] == before_gates[a]);
                                assert(gates@[b] == before_gates[b]);
                            }
                        }
                    }
                }
                proof {
                    assert forall|q: (int, int)| #[trigger] gate_cell(*map, q) && before(q, (i as int, j + 1)) implies exists|k: int| 0 <= k < gates@.len() && #[trigger] ipos(gates@[k].position) == q by {
                        if q != p {
                            assert(before(q, p));
                            let k = choose|k: int| 0 <= k < before_gates.len() && #[trigger] ipos(before_gates[k].position) == q;
                            assert(gates@[k] == before_gates[k]);
                        } else {
                            assert(ipos(gates@[gates@.len() - 1].position) == q);
                        }
                    }
                }
                j = j + 1;
            }
            i = i + 1;
        }
        proof {
            assert forall|p: (int, int), q: (int, int)| #[trigger] gate_cell(*map, p) && #[trigger] gate_cell(*map, q) && p != q implies map.cell(p) != map.cell(q) by {
                let a = choose|k: int| 0 <= k < gates@.len() && #[trigger] ipos(gates@[k].position) == p;
                let b = choose|k: int| 0 <= k < gates@.len() && #[trigger] ipos(gates@[k].position) == q;
                if a < b {
                    assert(gates@[a].number@ != gates@[b].number@);
                } else if b < a {
                    assert(gates@[b].number@ != gates@[a].number@);
                }
            }
            let gv = gates_view(gates@);
            assert forall|a: int, b: int| 0 <= a < b < gv.len() implies gv[a].position != gv[b].position by {
                assert(before(ipos(gates@[a].position), ipos(gates@[b].position)));
            }
            assert forall|p: (int, int)| #[trigger] gate_cell(*map, p) implies exists|k: int| 0 <= k < gv.len()
                && (#[trigger] gv[k].position.0 as int, gv[k].position.1 as int) == p by {
                let k = choose|k: int| 0 <= k < gates@.len() && #[trigger] ipos(gates@[k].position) == p;
                assert(gv[k].position == gates@[k].position);
            }
            assert forall|k: int| 0 <= k < gv.len() implies {
                &&& gate_cell(*map, (gv[k].position.0 as int, gv[k].position.1 as int))
                &&& map.cell((gv[k].position.0 as int, gv[k].position.1 as int)) == Cell::Gate(gv[k].number)
                &&& !gv[k].is_occupied
            } by {
                assert(gate_cell(*map, ipos(gates@[k].position)));
            }
        }
        Ok(gates)
    }
}


/// What load fault `e` says.
pub open spec fn configuration_text(e: ConfigurationFault) -> Seq<char> {
    match e {
        ConfigurationFault::DuplicateGate(g) => "Duplicate gate number: "@ + g@,
        ConfigurationFault::BadDimensions => "Failed to parse map dimensions"@,
        ConfigurationFault::TooManyRows => "Map has more rows than its dimensions"@,
        ConfigurationFault::TooManyColumns => "Map has more columns than its dimensions"@,
        ConfigurationFault::ShortToken => "Failed to parse MapPoint"@,
        ConfigurationFault::BadDirection(c) => "Invalid direction: "@ + seq![c],
        ConfigurationFault::BadName(c) => "Failed to parse name: "@ + seq![c],
        ConfigurationFault::BadContinuation(r, c) => "Path leads nowhere at row "@ + decimal(r as nat) + ", column "@
            + decimal(c as nat),
    }
}

impl ConfigurationFault {
    /// What is wrong with the map, for the operator.
    pub fn message(&self) -> (r: String)
        ensures
            r@ == configuration_text(*self),
    {
        match self {
            ConfigurationFault::DuplicateGate(g) => String::from_str("Duplicate gate number: ").concat(g.as_str()),
            ConfigurationFault::BadDimensions => String::from_str("Failed to parse map dimensions"),
            ConfigurationFault::TooManyRows => String::from_str("Map has more rows than its dimensions"),
            ConfigurationFault::TooManyColumns => String::from_str("Map has more columns than its dimensions"),
            ConfigurationFault::ShortToken => String::from_str("Failed to parse MapPoint"),
            ConfigurationFault::BadDirection(c) => String::from_str("Invalid direction: ").concat(char_string(*c).as_str()),
            ConfigurationFault::BadName(c) => String::from_str("Failed to parse name: ").concat(char_string(*c).as_str()),
            ConfigurationFault::BadContinuation(r, c) => String::from_str("Path leads nowhere at row ").concat(
                decimal_string(*r).as_str(),
            ).concat(", column ").concat(decimal_string(*c).as_str()),
        }
    }
}


/// Whether a path cell `from` may lead onto the cell `to`: a runway onto
/// runway or taxiway, a taxiway onto taxiway, runway or gate taxi line, a
/// gate taxi line onto gate taxi line, gate or taxiway; any path may end on
/// an empty cell.
pub open spec fn continues_onto(from: Cell, to: Cell) -> bool {
    match from {
        Cell::Runway(_, _) => to is Runway || to is Taxiway || to is Empty,
        Cell::Taxiway(_, _) => to is Taxiway || to is Runway || to is GateTaxiLine || to is Empty,
        Cell::GateTaxiLine(_, _) => to is GateTaxiLine || to is Gate || to is Taxiway || to is Empty,
        _ => true,
    }
}

/// The direction a path cell carries.
pub open spec fn path_direction(c: Cell) -> Option<Direction> {
    match c {
        Cell::Runway(_, d) => Some(d),
        Cell::Taxiway(_, d) => Some(d),
        Cell::GateTaxiLine(_, d) => Some(d),
        _ => None,
    }
}

/// The cell at `p` is no path cell, or its direction leads onto a cell of
/// the grid that continues it.
pub open spec fn continues_at(map: AirportMap, p: (int, int)) -> bool {
    match path_direction(map.cell(p)) {
        None => true,
        Some(d) => map.in_bounds(step(d, p)) && continues_onto(map.cell(p), map.cell(step(d, p))),
    }
}

/// Every path cell of `map` leads onto a legal continuation.
pub open spec fn topology_legal(map: AirportMap) -> bool {
    forall|p: (int, int)| map.in_bounds(p) ==> #[trigger] continues_at(map, p)
}

fn continues_onto_exec(from: &MapPoint, to: &MapPoint) -> (r: bool)
    ensures
        r == continues_onto(from@, to@),
{
    match from {
        MapPoint::Runway(_, _) => matches!(to, MapPoint::Runway(_, _) | MapPoint::Taxiway(_, _) | MapPoint::Empty),
        MapPoint::Taxiway(_, _) => matches!(
            to,
            MapPoint::Taxiway(_, _) | MapPoint::Runway(_, _) | MapPoint::GateTaxiLine(_, _) | MapPoint::Empty
        ),
        MapPoint::GateTaxiLine(_, _) => matches!(
            to,
            MapPoint::GateTaxiLine(_, _) | MapPoint::Gate(_) | MapPoint::Taxiway(_, _) | MapPoint::Empty
        ),
        _ => true,
    }
}

/// Checks, in row-major order, that every path cell leads onto a legal
/// continuation; reports the first one that does not.
pub fn check_topology(map: &AirportMap) -> (r: Result<(), ConfigurationFault>)
    requires
        map.wf(),
    ensures
        r is Ok <==> topology_legal(*map),
        r matches Err(e) ==> e matches ConfigurationFault::BadContinuation(row, col) && map.in_bounds((row as int, col as int))
            && !continues_at(*map, (row as int, col as int)) && forall|q: (int, int)|
            map.in_bounds(q) && before(q, (row as int, col as int)) ==> #[trigger] continues_at(*map, q),
{
    let rows = map.map.len();
    let cols = map.map[0].len();
    let mut i: usize = 0;
    while i < rows
        invariant
            map.wf(),
            rows == map.rows(),
            cols == map.cols(),
            i <= rows,
            forall|q: (int, int)| map.in_bounds(q) && q.0 < i ==> #[trigger] continues_at(*map, q),
        decreases rows - i,
    {
        let mut j: usize = 0;
        while j < cols
            invariant
                map.wf(),
                rows == map.rows(),
                cols == map.cols(),
                i < rows,
                j <= cols,
                forall|q: (int, int)| map.in_bounds(q) && before(q, (i as int, j as int)) ==> #[trigger] continues_at(*map, q),
            decreases cols - j,
        {
            let here = map.point_at((i, j));
            let d = match here {
                MapPoint::Runway(_, d) => Some(*d),
                MapPoint::Taxiway(_, d) => Some(*d),
                MapPoint::GateTaxiLine(_, d) => Some(*d),
                _ => None,
            };
            let ok = match d {
                None => true,
                Some(d) => match map.neighbor(d, (i, j)) {
                    None => false,
                    Some(q) => continues_onto_exec(here, map.point_at(q)),
                },
            };
            if !ok {
                assert(map.in_bounds((i as int, j as int)) && !continues_at(*map, (i as int, j as int)));
                return Err(ConfigurationFault::BadContinuation(i, j));
            }
            j = j + 1;
        }
        i = i + 1;
    }
    Ok(())
}

} // verus!
