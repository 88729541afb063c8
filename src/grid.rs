use vstd::prelude::*;
use crate::direction::{step, Direction};
use crate::text::str_eq;

verus! {

/// One tile of the airport grid.
#[derive(Clone, Debug)]
pub enum MapPoint {
    /// A runway cell: the runway's name and the way off it onto a taxiway.
    Runway(usize, Direction),
    /// A taxiway cell: the taxiway's number and its direction of travel.
    Taxiway(usize, Direction),
    /// A gate, by its label.
    Gate(String),
    /// A line leading to a gate: that gate's label and its direction of travel.
    GateTaxiLine(String, Direction),
    Empty,
}

/// What a tile holds, with labels as character sequences.
pub enum Cell {
    Runway(usize, Direction),
    Taxiway(usize, Direction),
    Gate(Seq<char>),
    GateTaxiLine(Seq<char>, Direction),
    Empty,
}

impl View for MapPoint {
    type V = Cell;

    open spec fn view(&self) -> Cell {
        match self {
            MapPoint::Runway(n, d) => Cell::Runway(*n, *d),
            MapPoint::Taxiway(n, d) => Cell::Taxiway(*n, *d),
            MapPoint::Gate(g) => Cell::Gate(g@),
            MapPoint::GateTaxiLine(g, d) => Cell::GateTaxiLine(g@, *d),
            MapPoint::Empty => Cell::Empty,
        }
    }
}

/// Margins of empty cells around the map as it was read.
#[derive(Clone, Copy, Debug)]
pub struct Spacing {
    pub top_bottom: usize,
    pub left_right: usize,
}

/// The airport grid, margins included.
#[derive(Debug)]
pub struct AirportMap {
    /// Rows of the map as it was read, without margins.
    pub length: usize,
    /// Columns of the map as it was read, without margins.
    pub width: usize,
    pub spacing: Spacing,
    pub map: Vec<Vec<MapPoint>>,
}

/// Coordinates as integers.
pub open spec fn pos_int(p: (usize, usize)) -> (int, int) {
    (p.0 as int, p.1 as int)
}

impl AirportMap {
    pub open spec fn rows(&self) -> int {
        self.map@.len() as int
    }

    pub open spec fn cols(&self) -> int {
        self.map@[0]@.len() as int
    }

    /// The grid is rectangular, with at least one row and one column.
    pub open spec fn wf(&self) -> bool {
        &&& self.map@.len() > 0
        &&& self.map@[0]@.len() > 0
        &&& self.map@.len() <= usize::MAX
        &&& self.map@[0]@.len() <= usize::MAX
        &&& forall|i: int| 0 <= i < self.rows() ==> #[trigger] self.map@[i]@.len() == self.cols()
    }

    pub open spec fn in_bounds(&self, p: (int, int)) -> bool {
        0 <= p.0 < self.rows() && 0 <= p.1 < self.cols()
    }

    /// The cell at `p`.
    pub open spec fn cell(&self, p: (int, int)) -> Cell {
        self.map@[p.0]@[p.1]@
    }

    /// The cell at `p`.
    pub fn point_at(&self, p: (usize, usize)) -> (r: &MapPoint)
        requires
            self.wf(),
            self.in_bounds(pos_int(p)),
        ensures
            r@ == self.cell(pos_int(p)),
    {
        &self.map[p.0][p.1]
    }

    /// The position one step from `p` in direction `d`, if it lies on the grid.
    pub fn neighbor(&self, d: Direction, p: (usize, usize)) -> (r: Option<(usize, usize)>)
        requires
            self.wf(),
        ensures
            match r {
                Some(q) => pos_int(q) == step(d, pos_int(p)) && self.in_bounds(pos_int(q)),
                None => !self.in_bounds(step(d, pos_int(p))),
            },
    {
        let rows = self.map.len();
        let cols = self.map[0].len();
        match d {
            Direction::North => if p.0 >= 1 && p.0 - 1 < rows && p.1 < cols {
                Some((p.0 - 1, p.1))
            } else {
                None
            },
            Direction::South => if p.0 < rows - 1 && p.1 < cols {
                Some((p.0 + 1, p.1))
            } else {
                None
            },
            Direction::East => if p.0 < rows && cols >= 1 && p.1 < cols - 1 {
                Some((p.0, p.1 + 1))
            } else {
                None
            },
            Direction::West => if p.0 < rows && p.1 >= 1 && p.1 - 1 < cols {
                Some((p.0, p.1 - 1))
            } else {
                None
            },
            Direction::StayPut => if p.0 < rows && p.1 < cols {
                Some(p)
            } else {
                None
            },
        }
    }
}

impl Direction {
    /// The tile one step from `position` in this direction.
    pub fn fetch_mappoint(self, map: &AirportMap, position: (usize, usize)) -> (r: &MapPoint)
        requires
            map.wf(),
            map.in_bounds(step(self, pos_int(position))),
        ensures
            r@ == map.cell(step(self, pos_int(position))),
    {
        let (x, y) = self.go(position);
        &map.map[x][y]
    }
}

pub open spec fn is_runway(c: Cell) -> bool {
    c is Runway
}

pub open spec fn is_taxiway(c: Cell) -> bool {
    c is Taxiway
}

pub open spec fn is_gate_taxi_line(c: Cell) -> bool {
    c is GateTaxiLine
}

/// Whether `c` is a gate labelled `gate`.
pub open spec fn is_gate(c: Cell, gate: Seq<char>) -> bool {
    c == Cell::Gate(gate)
}

impl MapPoint {
    pub fn check_if_runway(&self) -> (r: bool)
        ensures
            r == is_runway(self@),
    {
        match self {
            MapPoint::Runway(_, _) => true,
            _ => false,
        }
    }

    pub fn check_if_taxiway(&self) -> (r: bool)
        ensures
            r == is_taxiway(self@),
    {
        match self {
            MapPoint::Taxiway(_, _) => true,
            _ => false,
        }
    }

    pub fn check_if_gate_taxi_line(&self) -> (r: bool)
        ensures
            r == is_gate_taxi_line(self@),
    {
        match self {
            MapPoint::GateTaxiLine(_, _) => true,
            _ => false,
        }
    }

    pub fn check_if_gate(&self, gate: &str) -> (r: bool)
        ensures
            r == is_gate(self@, gate@),
    {
        match self {
            MapPoint::Gate(number) => str_eq(number.as_str(), gate),
            _ => false,
        }
    }
}


/// The point `k` steps from `p` in direction `d`.
pub open spec fn ray_point(p: (int, int), d: Direction, k: int) -> (int, int) {
    match d {
        Direction::North => (p.0 - k, p.1),
        Direction::South => (p.0 + k, p.1),
        Direction::East => (p.0, p.1 + k),
        Direction::West => (p.0, p.1 - k),
        Direction::StayPut => p,
    }
}

/// Whether the neighbour of `p` toward `d` lies on the grid and satisfies
/// the cell kind test `kind`.
pub open spec fn neighbor_is(map: AirportMap, p: (int, int), d: Direction, kind: spec_fn(Cell) -> bool) -> bool {
    map.in_bounds(step(d, p)) && kind(map.cell(step(d, p)))
}

/// The first of north, south, east and west whose neighbour is a taxiway.
pub open spec fn taxiway_dir(map: AirportMap, p: (int, int)) -> Option<Direction> {
    let t = |c: Cell| is_taxiway(c);
    if neighbor_is(map, p, Direction::North, t) {
        Some(Direction::North)
    } else if neighbor_is(map, p, Direction::South, t) {
        Some(Direction::South)
    } else if neighbor_is(map, p, Direction::East, t) {
        Some(Direction::East)
    } else if neighbor_is(map, p, Direction::West, t) {
        Some(Direction::West)
    } else {
        None
    }
}

/// The pair that a search reports: whether something was found, and where.
pub open spec fn found_pair(o: Option<Direction>) -> (bool, Direction) {
    match o {
        Some(d) => (true, d),
        None => (false, Direction::StayPut),
    }
}

/// Walking from `p` toward `d`, the first `k - 1` cells are gate taxi lines
/// and the `k`-th is a gate labelled `gate`, all on the grid.
pub open spec fn ray_hits_gate_at(map: AirportMap, p: (int, int), d: Direction, gate: Seq<char>, k: int) -> bool {
    &&& k >= 1
    &&& forall|i: int| 1 <= i <= k ==> map.in_bounds(#[trigger] ray_point(p, d, i))
    &&& forall|i: int| 1 <= i < k ==> is_gate_taxi_line(map.cell(#[trigger] ray_point(p, d, i)))
    &&& is_gate(map.cell(ray_point(p, d, k)), gate)
}

/// A straight run of gate taxi lines from `p` toward `d` ends at a gate
/// labelled `gate`.
pub open spec fn ray_reaches_gate(map: AirportMap, p: (int, int), d: Direction, gate: Seq<char>) -> bool {
    exists|k: int| ray_hits_gate_at(map, p, d, gate, k)
}

/// Whether the search toward `d` succeeds: with `shallow`, an adjacent gate
/// taxi line of any gate counts too.
pub open spec fn gate_line_toward(map: AirportMap, p: (int, int), d: Direction, gate: Seq<char>, shallow: bool) -> bool {
    (shallow && neighbor_is(map, p, d, |c: Cell| is_gate_taxi_line(c))) || ray_reaches_gate(map, p, d, gate)
}

/// The first of north, south, east and west toward which a gate search succeeds.
pub open spec fn gate_line_dir(map: AirportMap, p: (int, int), gate: Seq<char>, shallow: bool) -> Option<Direction> {
    if gate_line_toward(map, p, Direction::North, gate, shallow) {
        Some(Direction::North)
    } else if gate_line_toward(map, p, Direction::South, gate, shallow) {
        Some(Direction::South)
    } else if gate_line_toward(map, p, Direction::East, gate, shallow) {
        Some(Direction::East)
    } else if gate_line_toward(map, p, Direction::West, gate, shallow) {
        Some(Direction::West)
    } else {
        None
    }
}

/// The four headings that the neighbour searches try, in order.
fn compass() -> (r: Vec<Direction>)
    ensures
        r@ == seq![Direction::North, Direction::South, Direction::East, Direction::West],
{
    let r = vec![Direction::North, Direction::South, Direction::East, Direction::West];
    assert(r@ =~= seq![Direction::North, Direction::South, Direction::East, Direction::West]);
    r
}

impl AirportMap {
    /// Whether the neighbour of `p` toward `d` is on the grid and a taxiway.
    fn taxiway_toward(&self, d: Direction, p: (usize, usize)) -> (r: bool)
        requires
            self.wf(),
        ensures
            r == neighbor_is(*self, pos_int(p), d, |c: Cell| is_taxiway(c)),
    {
        match self.neighbor(d, p) {
            Some(q) => self.point_at(q).check_if_taxiway(),
            None => false,
        }
    }

    /// Whether the neighbour of `p` toward `d` is on the grid and a gate taxi line.
    fn gate_taxi_line_toward(&self, d: Direction, p: (usize, usize)) -> (r: bool)
        requires
            self.wf(),
        ensures
            r == neighbor_is(*self, pos_int(p), d, |c: Cell| is_gate_taxi_line(c)),
    {
        match self.neighbor(d, p) {
            Some(q) => self.point_at(q).check_if_gate_taxi_line(),
            None => false,
        }
    }

    /// Searches north, south, east and west of `position`, in that order,
    /// for a neighbouring taxiway.
    pub fn check_for_taxiway(&self, position: (usize, usize)) -> (r: (bool, Direction))
        requires
            self.wf(),
        ensures
            r == found_pair(taxiway_dir(*self, pos_int(position))),
    {
        let dirs = compass();
        let mut i: usize = 0;
        while i < 4
            invariant
                self.wf(),
                i <= 4,
                dirs@ == seq![Direction::North, Direction::South, Direction::East, Direction::West],
                forall|j: int| 0 <= j < i ==> !neighbor_is(*self, pos_int(position), #[trigger] dirs@[j], |c: Cell| is_taxiway(c)),
            decreases 4 - i,
        {
            let d = dirs[i];
            if self.taxiway_toward(d, position) {
                return (true, d);
            }
            i = i + 1;
        }
        (false, Direction::StayPut)
    }

    /// Follows a straight run of gate taxi lines from `position` toward
    /// `direction` and tells whether it ends at a gate labelled `gate`.
    pub fn check_for_gate_taxi_line(&self, position: (usize, usize), gate: &str, direction: Direction) -> (r: bool)
        requires
            self.wf(),
            direction != Direction::StayPut,
        ensures
            r == ray_reaches_gate(*self, pos_int(position), direction, gate@),
    {
        let ghost p = pos_int(position);
        let mut cur = position;
        let ghost mut k: int = 0;
        let rows = self.map.len();
        let cols = self.map[0].len();
        loop
            invariant
                self.wf(),
                rows == self.rows(),
                cols == self.cols(),
                direction != Direction::StayPut,
                k >= 0,
                p == pos_int(position),
                pos_int(cur) == ray_point(p, direction, k),
                forall|i: int| 1 <= i <= k ==> self.in_bounds(#[trigger] ray_point(p, direction, i)),
                forall|i: int| 1 <= i <= k ==> is_gate_taxi_line(self.cell(#[trigger] ray_point(p, direction, i))),
            decreases
                (match direction {
                    Direction::North => cur.0 as int,
                    Direction::South => rows - cur.0,
                    Direction::East => cols - cur.1,
                    _ => cur.1 as int,
                }),
        {
            assert(ray_point(p, direction, k + 1) == step(direction, pos_int(cur)));
            match self.neighbor(direction, cur) {
                None => {
                    assert forall|j: int| !ray_hits_gate_at(*self, p, direction, gate@, j) by {
                        if j > k && ray_hits_gate_at(*self, p, direction, gate@, j) {
                            assert(self.in_bounds(ray_point(p, direction, k + 1)));
                        }
                        if 1 <= j <= k {
                            assert(is_gate_taxi_line(self.cell(ray_point(p, direction, j))));
                        }
                    }
                    return false;
                },
                Some(q) => {
                    let pt = self.point_at(q);
                    if pt.check_if_gate_taxi_line() {
                        cur = q;
                        proof {
                            k = k + 1;
                        }
                    } else {
                        let r = pt.check_if_gate(gate);
                        if r {
                            assert(ray_hits_gate_at(*self, p, direction, gate@, k + 1));
                        } else {
                            assert forall|j: int| !ray_hits_gate_at(*self, p, direction, gate@, j) by {
                                if j > k + 1 && ray_hits_gate_at(*self, p, direction, gate@, j) {
                                    assert(is_gate_taxi_line(self.cell(ray_point(p, direction, k + 1))));
                                }
                                if 1 <= j <= k {
                                    assert(is_gate_taxi_line(self.cell(ray_point(p, direction, j))));
                                }
                            }
                        }
                        return r;
                    }
                },
            }
        }
    }

    /// Searches north, south, east and west of `position`, in that order,
    /// for a run of gate taxi lines that ends at a gate labelled `gate`;
    /// with `do_not_go_deep`, an adjacent gate taxi line of any gate counts
    /// as found too.
    pub fn check_for_gate_taxi_line_all_directions(
        &self,
        position: (usize, usize),
        gate: &str,
        do_not_go_deep: bool,
    ) -> (r: (bool, Direction))
        requires
            self.wf(),
        ensures
            r == found_pair(gate_line_dir(*self, pos_int(position), gate@, do_not_go_deep)),
    {
        let dirs = compass();
        let mut i: usize = 0;
        while i < 4
            invariant
                self.wf(),
                i <= 4,
                dirs@ == seq![Direction::North, Direction::South, Direction::East, Direction::West],
                forall|j: int| 0 <= j < i ==> !gate_line_toward(*self, pos_int(position), #[trigger] dirs@[j], gate@, do_not_go_deep),
            decreases 4 - i,
        {
            let d = dirs[i];
            if do_not_go_deep && self.gate_taxi_line_toward(d, position) {
                return (true, d);
            }
            if self.check_for_gate_taxi_line(position, gate, d) {
                return (true, d);
            }
            i = i + 1;
        }
        (false, Direction::StayPut)
    }
}

} // verus!
