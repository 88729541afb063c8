use vstd::prelude::*;
use crate::aircraft::{Action, ActionView, AtGateAction, Plane, PlaneView, Runway};
use crate::clearance::{AIRLINE_COUNT, airline_code_list, airline_codes, clearance_text, create_atc_clearance};
use crate::command::{CommandError, find_runway, input_outcome, parse_user_input, runway_from};
use crate::grid::{AirportMap, Spacing};
use crate::map_file::{build_airport_map, map_outcome};
use crate::movement::{TopologyFault, advance, advance_aircraft, advance_all, advance_fleet, planes_view};
use crate::registry::{
    ConfigurationFault, Gate, GateView, check_topology, gate_labels_unique, topology_legal, gate_registry, gates_view, runway_registry,
};
use crate::text::{decimal, decimal_string};
use crate::weather::{
    SECOND_DRAW_RANGE, Weather, WeatherCondition, WeatherNotice, first_draw_range, notice_for, random_below,
    simulate_weather, weather_after,
};

verus! {

/// The airport: its map, the indices derived from it, the weather and the
/// fleet.
#[derive(Debug)]
pub struct Airport {
    pub runways: Vec<Runway>,
    pub gates: Vec<Gate>,
    pub map: AirportMap,
    pub weather: Weather,
    pub planes: Vec<Plane>,
}

/// Departures completed and collisions seen.
#[derive(Clone, Copy, Debug)]
pub struct Score {
    pub takeoff: usize,
    pub crash: usize,
}

/// How many aircraft of `ps` have left the map.
pub open spec fn exited_count(ps: Seq<PlaneView>) -> nat
    decreases ps.len(),
{
    if ps.len() == 0 {
        0
    } else {
        exited_count(ps.drop_last()) + if ps.last().out_of_map { 1nat } else { 0nat }
    }
}

/// Aircraft `i` and `j` of `ps` (in that order) are two distinct aircraft
/// on the map at the same position.
pub open spec fn collide(ps: Seq<PlaneView>, i: int, j: int) -> bool {
    &&& 0 <= i < j < ps.len()
    &&& ps[i].position == ps[j].position
    &&& ps[i].id != ps[j].id
    &&& !ps[i].out_of_map
    &&& !ps[j].out_of_map
}

/// `(i, j)` is the first colliding pair of `ps`, by `i` and then by `j`.
pub open spec fn first_collision(ps: Seq<PlaneView>, i: int, j: int) -> bool {
    &&& collide(ps, i, j)
    &&& forall|a: int, b: int| #[trigger] collide(ps, a, b) ==> i < a || (i == a && j <= b)
}

/// `r` is what the collision scan of `ps` reports: the ids of the first
/// colliding pair, or `None` when no two aircraft collide.
pub open spec fn detects(ps: Seq<PlaneView>, r: Option<(usize, usize)>) -> bool {
    match r {
        Some((x, y)) => exists|i: int, j: int| #[trigger] first_collision(ps, i, j) && x == ps[i].id && y == ps[j].id,
        None => forall|i: int, j: int| !#[trigger] collide(ps, i, j),
    }
}

/// `ps` with every aircraft whose id is `q`'s replaced by `q`.
pub open spec fn replace_by_id(ps: Seq<PlaneView>, q: PlaneView) -> Seq<PlaneView> {
    ps.map_values(|p: PlaneView| if p.id == q.id { q } else { p })
}

/// Advances every aircraft of the fleet by one tick.
pub fn update_aircraft_position(airport: &mut Airport) -> (r: Result<(), TopologyFault>)
    requires
        old(airport).map.wf(),
    ensures
        final(airport).map == old(airport).map,
        final(airport).runways == old(airport).runways,
        final(airport).weather == old(airport).weather,
        match advance_fleet(old(airport).map, gates_view(old(airport).gates@), planes_view(old(airport).planes@)) {
            Ok((ps, gs)) => r is Ok && planes_view(final(airport).planes@) == ps && gates_view(final(airport).gates@) == gs,
            Err(f) => r == Err::<(), TopologyFault>(f),
        },
{
    advance_all(&airport.map, &mut airport.gates, &mut airport.planes)
}

/// Counts the departed aircraft into the score.
pub fn update_score(airport: &Airport, score: &mut Score)
    ensures
        final(score).takeoff == exited_count(planes_view(airport.planes@)),
        final(score).crash == old(score).crash,
{
    let ghost ps = planes_view(airport.planes@);
    let mut n: usize = 0;
    let mut i: usize = 0;
    while i < airport.planes.len()
        invariant
            i <= airport.planes@.len(),
            ps == planes_view(airport.planes@),
            n == exited_count(ps.take(i as int)),
            n <= i,
        decreases airport.planes@.len() - i,
    {
        assert(ps.take(i + 1).drop_last() =~= ps.take(i as int));
        if airport.planes[i].out_of_map {
            n = n + 1;
        }
        i = i + 1;
    }
    assert(ps.take(i as int) =~= ps);
    score.takeoff = n;
}

/// Scans the fleet for two aircraft on the map at the same position and
/// reports the ids of the first such pair.
pub fn detect_collision(planes: &Vec<Plane>) -> (r: Option<(usize, usize)>)
    ensures
        detects(planes_view(planes@), r),
{
    let ghost ps = planes_view(planes@);
    let n = planes.len();
    let mut i: usize = 0;
    while i < n
        invariant
            n == planes@.len(),
            ps == planes_view(planes@),
            i <= n,
            forall|a: int, b: int| #[trigger] collide(ps, a, b) ==> a >= i,
        decreases n - i,
    {
        let mut j: usize = i + 1;
        while j < n
            invariant
                n == planes@.len(),
                ps == planes_view(planes@),
                i < n,
                i + 1 <= j <= n,
                forall|a: int, b: int| #[trigger] collide(ps, a, b) ==> a > i || (a == i && b >= j),
            decreases n - j,
        {
            let p = &planes[i];
            let q = &planes[j];
            if p.position.0 == q.position.0 && p.position.1 == q.position.1 && p.id != q.id && !p.out_of_map && !q.out_of_map {
                assert(first_collision(ps, i as int, j as int));
                return Some((p.id, q.id));
            }
            j = j + 1;
        }
        i = i + 1;
    }
    None
}

/// Scans for a collision and counts it into the score.
pub fn detect_and_handle_collisions(airport: &Airport, score: &mut Score) -> (r: Option<(usize, usize)>)
    requires
        old(score).crash < usize::MAX,
    ensures
        detects(planes_view(airport.planes@), r),
        r is Some <==> exists|i: int, j: int| #[trigger] collide(planes_view(airport.planes@), i, j),
        final(score).crash == old(score).crash + if r is Some { 1int } else { 0int },
        final(score).takeoff == old(score).takeoff,
{
    let r = detect_collision(&airport.planes);
    if r.is_some() {
        score.crash = score.crash + 1;
    }
    r
}

/// When the only two aircraft on the map at one position are `a` and `b`,
/// the scan reports exactly that pair by their ids, whichever order the
/// fleet lists them in.
pub proof fn lemma_single_collision_reported(ps: Seq<PlaneView>, a: int, b: int, r: Option<(usize, usize)>)
    requires
        collide(ps, a, b) || collide(ps, b, a),
        forall|i: int, j: int| #[trigger] collide(ps, i, j) ==> (i == a && j == b) || (i == b && j == a),
        detects(ps, r),
    ensures
        r matches Some((x, y)) && ((x == ps[a].id && y == ps[b].id) || (x == ps[b].id && y == ps[a].id)),
        collide(ps, a, b) ==> r == Some((ps[a].id, ps[b].id)),
{
    if r is None {
        if collide(ps, a, b) {
            assert(!collide(ps, a, b));
        } else {
            assert(!collide(ps, b, a));
        }
    } else {
        let (x, y) = r->Some_0;
        let (i, j) = choose|i: int, j: int| #[trigger] first_collision(ps, i, j) && x == ps[i].id && y == ps[j].id;
        assert(collide(ps, i, j));
    }
}

/// A colliding pair of `ps1` is a colliding pair of any reordering `ps2`,
/// with the same two ids.
proof fn lemma_collision_transfers(ps1: Seq<PlaneView>, ps2: Seq<PlaneView>, i: int, j: int)
    requires
        ps1.to_multiset() == ps2.to_multiset(),
        collide(ps1, i, j),
    ensures
        exists|a: int, b: int| #[trigger] collide(ps2, a, b) && ((ps2[a].id == ps1[i].id && ps2[b].id == ps1[j].id)
            || (ps2[a].id == ps1[j].id && ps2[b].id == ps1[i].id)),
{
    ps1.to_multiset_ensures();
    ps2.to_multiset_ensures();
    assert(ps1.contains(ps1[i]));
    assert(ps1.contains(ps1[j]));
    assert(ps1.to_multiset().count(ps1[i]) > 0);
    assert(ps1.to_multiset().count(ps1[j]) > 0);
    assert(ps2.to_multiset().count(ps1[i]) > 0);
    assert(ps2.to_multiset().count(ps1[j]) > 0);
    assert(ps2.contains(ps1[i]));
    assert(ps2.contains(ps1[j]));
    let a = choose|a: int| 0 <= a < ps2.len() && ps2[a] == ps1[i];
    let b = choose|b: int| 0 <= b < ps2.len() && ps2[b] == ps1[j];
    if a < b {
        assert(collide(ps2, a, b));
    } else {
        assert(collide(ps2, b, a));
    }
}

/// The scan reports a collision for a fleet exactly when it reports one for
/// any reordering of that fleet: how many collisions a tick counts does not
/// depend on the order in which the fleet is listed.
pub proof fn lemma_collision_order_free(ps1: Seq<PlaneView>, ps2: Seq<PlaneView>, r1: Option<(usize, usize)>, r2: Option<(usize, usize)>)
    requires
        ps1.to_multiset() == ps2.to_multiset(),
        detects(ps1, r1),
        detects(ps2, r2),
    ensures
        r1 is Some <==> r2 is Some,
{
    if let Some((x, y)) = r1 {
        let (i, j) = choose|i: int, j: int| #[trigger] first_collision(ps1, i, j) && x == ps1[i].id && y == ps1[j].id;
        lemma_collision_transfers(ps1, ps2, i, j);
    }
    if let Some((x, y)) = r2 {
        let (i, j) = choose|i: int, j: int| #[trigger] first_collision(ps2, i, j) && x == ps2[i].id && y == ps2[j].id;
        lemma_collision_transfers(ps2, ps1, i, j);
    }
}

/// When `a` and `b` are the only two aircraft of a fleet on the map at one
/// position, the scan of any reordering of that fleet reports exactly their
/// two ids.
pub proof fn lemma_single_collision_any_order(ps1: Seq<PlaneView>, ps2: Seq<PlaneView>, a: int, b: int, r2: Option<(usize, usize)>)
    requires
        ps1.to_multiset() == ps2.to_multiset(),
        collide(ps1, a, b),
        forall|i: int, j: int| #[trigger] collide(ps1, i, j) ==> i == a && j == b,
        detects(ps2, r2),
    ensures
        r2 matches Some((x, y)) && ((x == ps1[a].id && y == ps1[b].id) || (x == ps1[b].id && y == ps1[a].id)),
{
    lemma_collision_transfers(ps1, ps2, a, b);
    if r2 is None {
        let (i, j) = choose|i: int, j: int| #[trigger] collide(ps2, i, j) && ((ps2[i].id == ps1[a].id && ps2[j].id == ps1[b].id)
            || (ps2[i].id == ps1[b].id && ps2[j].id == ps1[a].id));
        assert(!collide(ps2, i, j));
    } else {
        let (x, y) = r2->Some_0;
        let (i, j) = choose|i: int, j: int| #[trigger] first_collision(ps2, i, j) && x == ps2[i].id && y == ps2[j].id;
        lemma_collision_transfers(ps2, ps1, i, j);
    }
}

/// What became of an operator command.
#[derive(Debug)]
pub enum CommandOutcome {
    /// Granted: the aircraft as the command left it, before its move, and
    /// the clearance phrase for it.
    Cleared(Plane, Option<String>),
    /// Rejected, with the reason; the fleet is unchanged.
    Rejected(CommandError),
    /// Granted, but the move it starts hit a topology fault; the fleet is
    /// unchanged.
    Fault(TopologyFault),
}

/// Replaces every aircraft of `planes` whose id is `plane`'s by a copy of it.
fn merge_by_id(planes: &mut Vec<Plane>, plane: &Plane)
    ensures
        planes_view(final(planes)@) == replace_by_id(planes_view(old(planes)@), plane@),
{
    let ghost before = planes_view(planes@);
    let mut i: usize = 0;
    while i < planes.len()
        invariant
            i <= planes@.len(),
            planes@.len() == before.len(),
            before == planes_view(old(planes)@),
            forall|k: int| 0 <= k < i ==> #[trigger] planes@[k]@ == replace_by_id(before, plane@)[k],
            forall|k: int| i <= k < planes@.len() ==> #[trigger] planes@[k]@ == before[k],
        decreases planes@.len() - i,
    {
        assert(planes@[i as int]@ == before[i as int]);
        if planes[i].id == plane.id {
            planes.set(i, plane.copy());
        }
        i = i + 1;
    }
    assert(planes_view(planes@) =~= replace_by_id(before, plane@));
}

/// The fleet and gate records after the operator line `line`: unchanged
/// when it is rejected; else the commanded aircraft, moved once, merged
/// back by id; or the fault that move hits.
pub open spec fn command_result(
    map: AirportMap,
    rs: Seq<Runway>,
    w: Weather,
    gs: Seq<GateView>,
    ps: Seq<PlaneView>,
    line: Seq<char>,
) -> Result<(Seq<PlaneView>, Seq<GateView>), TopologyFault> {
    match input_outcome(line, ps, rs, w.condition) {
        Err(_) => Ok((ps, gs)),
        Ok(q) => match advance(map, gs, q) {
            Err(f) => Err(f),
            Ok((moved, gs2)) => Ok((replace_by_id(ps, moved), gs2)),
        },
    }
}

/// `o` reports what the operator line `line` did.
pub open spec fn outcome_reports(
    map: AirportMap,
    rs: Seq<Runway>,
    w: Weather,
    gs: Seq<GateView>,
    ps: Seq<PlaneView>,
    line: Seq<char>,
    o: CommandOutcome,
) -> bool {
    match input_outcome(line, ps, rs, w.condition) {
        Err(e) => o matches CommandOutcome::Rejected(x) && x@ == e,
        Ok(q) => match advance(map, gs, q) {
            Err(f) => o matches CommandOutcome::Fault(x) && x == f,
            Ok(_) => o matches CommandOutcome::Cleared(p, c) && p@ == q && match clearance_text(map, w, q) {
                Some(t) => c matches Some(s) && s@ == t,
                None => c is None,
            },
        },
    }
}

/// Applies one operator line: checks it, and when it is granted moves the
/// aircraft once under its new action (so the clearance takes effect this
/// tick) and merges it back into the fleet by id.
pub fn apply_user_input(airport: &mut Airport, command: &str) -> (r: CommandOutcome)
    requires
        old(airport).map.wf(),
    ensures
        final(airport).map == old(airport).map,
        final(airport).runways == old(airport).runways,
        final(airport).weather == old(airport).weather,
        match input_outcome(command@, planes_view(old(airport).planes@), old(airport).runways@, old(airport).weather.condition) {
            Err(e) => r matches CommandOutcome::Rejected(x) && x@ == e && final(airport).planes@ == old(airport).planes@
                && final(airport).gates@ == old(airport).gates@,
            Ok(q) => match advance(old(airport).map, gates_view(old(airport).gates@), q) {
                Err(f) => r matches CommandOutcome::Fault(x) && x == f && final(airport).planes@ == old(airport).planes@
                    && final(airport).gates@ == old(airport).gates@,
                Ok((moved, gs)) => {
                    &&& r matches CommandOutcome::Cleared(p, c) && p@ == q && match clearance_text(old(airport).map, old(airport).weather, q) {
                        Some(t) => c matches Some(s) && s@ == t,
                        None => c is None,
                    }
                    &&& planes_view(final(airport).planes@) == replace_by_id(planes_view(old(airport).planes@), moved)
                    &&& gates_view(final(airport).gates@) == gs
                },
            },
        },
{
    match parse_user_input(command, &airport.planes, &airport.runways, airport.weather.condition) {
        Err(e) => CommandOutcome::Rejected(e),
        Ok(plane) => {
            let mut moved = plane.copy();
            match advance_aircraft(&airport.map, &mut airport.gates, &mut moved) {
                Err(f) => CommandOutcome::Fault(f),
                Ok(()) => {
                    merge_by_id(&mut airport.planes, &moved);
                    let clearance = create_atc_clearance(&airport.map, &airport.weather, &plane);
                    CommandOutcome::Cleared(plane, clearance)
                },
            }
        },
    }
}


/// The aircraft that a spawn with these draws adds to a fleet of
/// `fleet_len`: flight code `airline` followed by `number`, on runway 1,
/// either at gate record `pick` in standby or approaching from the left
/// edge of the map's top margin row. `None` when there is no runway 1, no
/// such gate record, or no id left.
pub open spec fn spawn_result(
    fleet_len: nat,
    gs: Seq<GateView>,
    rs: Seq<Runway>,
    top: usize,
    at_gate: bool,
    airline: int,
    number: usize,
    pick: int,
) -> Option<PlaneView> {
    match runway_from(rs, "1"@, 0) {
        None => None,
        Some(rw) => if fleet_len + 1 > usize::MAX || (at_gate && !(0 <= pick < gs.len())) {
            None
        } else {
            Some(
                PlaneView {
                    id: (fleet_len + 1) as usize,
                    name: airline_code_list()[airline] + decimal(number as nat),
                    action: if at_gate {
                        ActionView::AtGate(gs[pick].number, AtGateAction::Standby)
                    } else {
                        ActionView::InAir
                    },
                    position: if at_gate { gs[pick].position } else { (top, 0) },
                    runway: rw,
                    out_of_map: false,
                },
            )
        },
    }
}

/// The aircraft that a spawn with these draws adds to the fleet.
pub fn plan_spawn(airport: &Airport, at_gate: bool, airline: usize, number: usize, pick: usize) -> (r: Option<Plane>)
    requires
        airline < AIRLINE_COUNT,
    ensures
        match spawn_result(
            airport.planes@.len(),
            gates_view(airport.gates@),
            airport.runways@,
            airport.map.spacing.top_bottom,
            at_gate,
            airline as int,
            number,
            pick as int,
        ) {
            Some(q) => r matches Some(p) && p@ == q,
            None => r is None,
        },
{
    proof {
        reveal_strlit("1");
    }
    let runway = match find_runway(&airport.runways, "1") {
        None => {
            return None;
        },
        Some(rw) => rw,
    };
    let count = airport.planes.len();
    if count == usize::MAX || (at_gate && pick >= airport.gates.len()) {
        return None;
    }
    let codes = airline_codes();
    let name = String::from_str(codes[airline]).concat(decimal_string(number).as_str());
    let (position, current_action) = if at_gate {
        let gate = &airport.gates[pick];
        (gate.position, Action::AtGate(gate.number.clone(), AtGateAction::Standby))
    } else {
        ((airport.map.spacing.top_bottom, 0), Action::InAir)
    };
    Some(Plane { id: count + 1, name, current_action, position, runway, out_of_map: false })
}

/// Adds an aircraft with a random flight code and number (100 to 399): at
/// a random gate in standby, or approaching runway 1. Says whether one was
/// added.
pub fn spawn_landing_aircraft(airport: &mut Airport, at_gate: bool) -> (r: bool)
    ensures
        final(airport).map == old(airport).map,
        final(airport).runways == old(airport).runways,
        final(airport).gates == old(airport).gates,
        final(airport).weather == old(airport).weather,
        exists|airline: int, number: usize, pick: int|
            0 <= airline < AIRLINE_COUNT && 100 <= number < 400
            && (at_gate && old(airport).gates@.len() > 0 ==> 0 <= pick < old(airport).gates@.len())
            && #[trigger] spawn_result(
                old(airport).planes@.len(),
                gates_view(old(airport).gates@),
                old(airport).runways@,
                old(airport).map.spacing.top_bottom,
                at_gate,
                airline,
                number,
                pick,
            ) == match r {
                true => Some(final(airport).planes@.last()@),
                false => None::<PlaneView>,
            },
        r ==> final(airport).planes@ == old(airport).planes@.push(final(airport).planes@.last()),
        !r ==> final(airport).planes@ == old(airport).planes@,
{
    let airline = random_below(AIRLINE_COUNT);
    let number = 100 + random_below(300);
    let pick = if at_gate && airport.gates.len() > 0 {
        random_below(airport.gates.len())
    } else {
        0
    };
    match plan_spawn(airport, at_gate, airline, number, pick) {
        None => false,
        Some(plane) => {
            airport.planes.push(plane);
            true
        },
    }
}

/// Adding an aircraft that is on the map leaves the departed count as it was.
proof fn lemma_exited_count_push(ps: Seq<PlaneView>, q: PlaneView)
    requires
        !q.out_of_map,
    ensures
        exited_count(ps.push(q)) == exited_count(ps),
{
    assert(ps.push(q).drop_last() =~= ps);
}

/// What the rest of a tick did once the fleet `ps` and gate records `gs`
/// stood after movement and command: the score counts departures; the
/// weather takes one step of its chain; with `spawn_plane`, an approaching
/// aircraft may be added; the final fleet is scanned for a collision, which
/// the score counts.
pub open spec fn tick_tail(
    map: AirportMap,
    rs: Seq<Runway>,
    w: Weather,
    ps: Seq<PlaneView>,
    gs: Seq<GateView>,
    spawn_plane: bool,
    crash_before: usize,
    final_planes: Seq<PlaneView>,
    final_gates: Seq<GateView>,
    final_weather: Weather,
    score: Score,
    notice: WeatherNotice,
    spawned: bool,
    collision: Option<(usize, usize)>,
) -> bool {
    &&& final_gates == gs
    &&& spawned ==> spawn_plane && final_planes == ps.push(final_planes.last())
    &&& !spawned ==> final_planes == ps
    &&& spawn_plane ==> exists|airline: int, number: usize|
        0 <= airline < AIRLINE_COUNT && 100 <= number < 400 && #[trigger] spawn_result(
            ps.len(),
            gs,
            rs,
            map.spacing.top_bottom,
            false,
            airline,
            number,
            0,
        ) == (if spawned { Some(final_planes.last()) } else { None::<PlaneView> })
    &&& exists|first: usize, second: usize|
        first < first_draw_range(w.condition) && second < SECOND_DRAW_RANGE
        && #[trigger] weather_after(w.condition, first, second) == final_weather.condition
    &&& notice == notice_for(w.condition, final_weather.condition)
    &&& detects(final_planes, collision)
    &&& score.takeoff == exited_count(final_planes)
    &&& score.crash == crash_before + if collision is Some { 1int } else { 0int }
}

/// The part of a tick after the command.
fn finish_tick(airport: &mut Airport, spawn_plane: bool, score: &mut Score) -> (r: (WeatherNotice, bool, Option<(usize, usize)>))
    requires
        old(score).crash < usize::MAX,
    ensures
        final(airport).map == old(airport).map,
        final(airport).runways == old(airport).runways,
        tick_tail(
            old(airport).map,
            old(airport).runways@,
            old(airport).weather,
            planes_view(old(airport).planes@),
            gates_view(old(airport).gates@),
            spawn_plane,
            old(score).crash,
            planes_view(final(airport).planes@),
            gates_view(final(airport).gates@),
            final(airport).weather,
            *final(score),
            r.0,
            r.1,
            r.2,
        ),
{
    let ghost ps = planes_view(airport.planes@);
    let ghost before = airport.planes@;
    update_score(airport, score);
    let notice = simulate_weather(&mut airport.weather);
    let spawned = if spawn_plane {
        spawn_landing_aircraft(airport, false)
    } else {
        false
    };
    proof {
        if spawn_plane {
            let (a, n, k) = choose|airline: int, number: usize, pick: int|
                0 <= airline < AIRLINE_COUNT && 100 <= number < 400
                && (false && before.len() > 0 ==> 0 <= pick < before.len())
                && #[trigger] spawn_result(
                    before.len(),
                    gates_view(airport.gates@),
                    airport.runways@,
                    airport.map.spacing.top_bottom,
                    false,
                    airline,
                    number,
                    pick,
                ) == (if spawned { Some(airport.planes@.last()@) } else { None::<PlaneView> });
            assert(spawn_result(before.len(), gates_view(airport.gates@), airport.runways@, airport.map.spacing.top_bottom, false, a, n, 0)
                == spawn_result(before.len(), gates_view(airport.gates@), airport.runways@, airport.map.spacing.top_bottom, false, a, n, k));
            if spawned {
                assert(planes_view(airport.planes@).last() == airport.planes@.last()@);
            }
        }
        if spawned {
            let q = airport.planes@.last();
            assert(airport.planes@ == before.push(q));
            assert(planes_view(airport.planes@) =~= ps.push(q@));
            lemma_exited_count_push(ps, q@);
        } else {
            assert(airport.planes@ == before);
        }
    }
    let collision = detect_and_handle_collisions(airport, score);
    (notice, spawned, collision)
}

/// The command step of a tick.
fn command_tick(airport: &mut Airport, command: Option<&str>) -> (r: Result<Option<CommandOutcome>, TopologyFault>)
    requires
        old(airport).map.wf(),
    ensures
        final(airport).map == old(airport).map,
        final(airport).runways == old(airport).runways,
        final(airport).weather == old(airport).weather,
        match command {
            None => r matches Ok(None) && final(airport).planes@ == old(airport).planes@ && final(airport).gates@ == old(airport).gates@,
            Some(line) => match command_result(
                old(airport).map,
                old(airport).runways@,
                old(airport).weather,
                gates_view(old(airport).gates@),
                planes_view(old(airport).planes@),
                line@,
            ) {
                Err(f) => r == Err::<Option<CommandOutcome>, TopologyFault>(f),
                Ok((ps, gs)) => r matches Ok(Some(o)) && outcome_reports(
                    old(airport).map,
                    old(airport).runways@,
                    old(airport).weather,
                    gates_view(old(airport).gates@),
                    planes_view(old(airport).planes@),
                    line@,
                    o,
                ) && planes_view(final(airport).planes@) == ps && gates_view(final(airport).gates@) == gs,
            },
        },
{
    match command {
        None => Ok(None),
        Some(line) => {
            let o = apply_user_input(airport, line);
            if let CommandOutcome::Fault(f) = o {
                return Err(f);
            }
            Ok(Some(o))
        },
    }
}

/// What happened during one tick.
#[derive(Debug)]
pub struct TickReport {
    /// The operator command of this tick, if one was pending.
    pub command: Option<CommandOutcome>,
    pub notice: WeatherNotice,
    /// Whether an aircraft was added.
    pub spawned: bool,
    /// The ids of the colliding pair, if there is one.
    pub collision: Option<(usize, usize)>,
}

/// One tick: every aircraft moves; the pending operator command, if any, is
/// applied; the score counts departures; the weather changes; an aircraft
/// may be added; and the fleet is scanned for a collision, which the score
/// counts. Only a topology fault stops the tick.
pub fn update_game_state(airport: &mut Airport, spawn_plane: bool, score: &mut Score, command: Option<&str>) -> (r: Result<TickReport, TopologyFault>)
    requires
        old(airport).map.wf(),
        old(score).crash < usize::MAX,
    ensures
        final(airport).map == old(airport).map,
        final(airport).runways == old(airport).runways,
        match advance_fleet(old(airport).map, gates_view(old(airport).gates@), planes_view(old(airport).planes@)) {
            Err(f) => r == Err::<TickReport, TopologyFault>(f),
            Ok((ps1, gs1)) => {
                let after = match command {
                    None => Ok::<(Seq<PlaneView>, Seq<GateView>), TopologyFault>((ps1, gs1)),
                    Some(line) => command_result(old(airport).map, old(airport).runways@, old(airport).weather, gs1, ps1, line@),
                };
                match after {
                    Err(f) => r == Err::<TickReport, TopologyFault>(f),
                    Ok((ps2, gs2)) => r matches Ok(report) && {
                        &&& match command {
                            None => report.command is None,
                            Some(line) => report.command matches Some(o) && outcome_reports(
                                old(airport).map,
                                old(airport).runways@,
                                old(airport).weather,
                                gs1,
                                ps1,
                                line@,
                                o,
                            ),
                        }
                        &&& tick_tail(
                            old(airport).map,
                            old(airport).runways@,
                            old(airport).weather,
                            ps2,
                            gs2,
                            spawn_plane,
                            old(score).crash,
                            planes_view(final(airport).planes@),
                            gates_view(final(airport).gates@),
                            final(airport).weather,
                            *final(score),
                            report.notice,
                            report.spawned,
                            report.collision,
                        )
                    },
                }
            },
        },
{
    match update_aircraft_position(airport) {
        Err(f) => {
            return Err(f);
        },
        Ok(()) => {},
    }
    let command_outcome = match command_tick(airport, command) {
        Err(f) => {
            return Err(f);
        },
        Ok(o) => o,
    };
    let (notice, spawned, collision) = finish_tick(airport, spawn_plane, score);
    Ok(TickReport { command: command_outcome, notice, spawned, collision })
}


/// Empty rows above and below the map as read.
pub const MARGIN_ROWS: usize = 2;

/// Empty columns left and right of the map as read.
pub const MARGIN_COLUMNS: usize = 20;

/// Wind direction before the first tick, in degrees.
pub const INITIAL_WIND_DIRECTION: usize = 360;

/// Builds the airport from the text of its map file: the map with its
/// margins, the runway and gate registries, clear weather and no aircraft.
/// Fails on a bad map file, on a path cell that leads nowhere, or on two
/// gates with one label.
pub fn construct_airport(map_text: &str) -> (r: Result<Airport, ConfigurationFault>)
    ensures
        ({
            let sp = Spacing { top_bottom: MARGIN_ROWS, left_right: MARGIN_COLUMNS };
            match r {
                Ok(a) => {
                    &&& map_outcome(map_text@, sp, Ok::<AirportMap, ConfigurationFault>(a.map))
                    &&& topology_legal(a.map)
                    &&& gate_labels_unique(a.map)
                    &&& runway_registry(a.map, a.runways@)
                    &&& gate_registry(a.map, gates_view(a.gates@))
                    &&& a.planes@.len() == 0
                    &&& a.weather == Weather {
                        condition: WeatherCondition::Clear,
                        wind_direction: INITIAL_WIND_DIRECTION,
                        wind_speed: 0,
                    }
                },
                Err(e) => {
                    ||| map_outcome(map_text@, sp, Err::<AirportMap, ConfigurationFault>(e))
                    ||| (exists|m: AirportMap| map_outcome(map_text@, sp, Ok::<AirportMap, ConfigurationFault>(m)) && !topology_legal(m))
                        && e is BadContinuation
                    ||| (exists|m: AirportMap|
                        map_outcome(map_text@, sp, Ok::<AirportMap, ConfigurationFault>(m)) && topology_legal(m)
                            && !gate_labels_unique(m)) && e is DuplicateGate
                },
            }
        }),
{
    let sp = Spacing { top_bottom: MARGIN_ROWS, left_right: MARGIN_COLUMNS };
    let map = match build_airport_map(map_text, sp) {
        Err(e) => {
            return Err(e);
        },
        Ok(m) => m,
    };
    match check_topology(&map) {
        Err(e) => {
            return Err(e);
        },
        Ok(()) => {},
    }
    let runways = Runway::new(&map);
    let gates = match Gate::new(&map) {
        Err(e) => {
            return Err(e);
        },
        Ok(g) => g,
    };
    let weather = Weather { condition: WeatherCondition::Clear, wind_direction: INITIAL_WIND_DIRECTION, wind_speed: 0 };
    Ok(Airport { runways, gates, map, weather, planes: Vec::new() })
}

} // verus!
