use vstd::prelude::*;
use crate::direction::Direction;

verus! {

/// The turnaround steps of a parked aircraft, in the order they happen.
#[derive(Clone, Copy, Debug, PartialEq, Eq, Structural)]
pub enum AtGateAction {
    ShutdownProcedure,
    DeboardPassengers,
    DeboardCargo,
    UnloadBaggage,
    UnloadCargo,
    Refuel,
    Repair,
    Clean,
    LoadCargo,
    CrewChange,
    MaintenanceCheck,
    LoadBaggage,
    LoadPassengers,
    BoardPassengers,
    LoadAdditionalCargo,
    Standby,
}

/// Number of turnaround steps.
pub const TURNAROUND_STEPS: usize = 16;

/// The place of `a` in the turnaround sequence, from 0.
pub open spec fn turnaround_index(a: AtGateAction) -> nat {
    match a {
        AtGateAction::ShutdownProcedure => 0,
        AtGateAction::DeboardPassengers => 1,
        AtGateAction::DeboardCargo => 2,
        AtGateAction::UnloadBaggage => 3,
        AtGateAction::UnloadCargo => 4,
        AtGateAction::Refuel => 5,
        AtGateAction::Repair => 6,
        AtGateAction::Clean => 7,
        AtGateAction::LoadCargo => 8,
        AtGateAction::CrewChange => 9,
        AtGateAction::MaintenanceCheck => 10,
        AtGateAction::LoadBaggage => 11,
        AtGateAction::LoadPassengers => 12,
        AtGateAction::BoardPassengers => 13,
        AtGateAction::LoadAdditionalCargo => 14,
        AtGateAction::Standby => 15,
    }
}

/// The turnaround step at place `i`; places past the end give the last step.
pub open spec fn turnaround_at(i: nat) -> AtGateAction {
    if i == 0 {
        AtGateAction::ShutdownProcedure
    } else if i == 1 {
        AtGateAction::DeboardPassengers
    } else if i == 2 {
        AtGateAction::DeboardCargo
    } else if i == 3 {
        AtGateAction::UnloadBaggage
    } else if i == 4 {
        AtGateAction::UnloadCargo
    } else if i == 5 {
        AtGateAction::Refuel
    } else if i == 6 {
        AtGateAction::Repair
    } else if i == 7 {
        AtGateAction::Clean
    } else if i == 8 {
        AtGateAction::LoadCargo
    } else if i == 9 {
        AtGateAction::CrewChange
    } else if i == 10 {
        AtGateAction::MaintenanceCheck
    } else if i == 11 {
        AtGateAction::LoadBaggage
    } else if i == 12 {
        AtGateAction::LoadPassengers
    } else if i == 13 {
        AtGateAction::BoardPassengers
    } else if i == 14 {
        AtGateAction::LoadAdditionalCargo
    } else {
        AtGateAction::Standby
    }
}

/// The step after `a`; the last step is followed by itself.
pub open spec fn next_turnaround(a: AtGateAction) -> AtGateAction {
    turnaround_at(turnaround_index(a) + 1)
}

impl AtGateAction {
    /// The step that follows this one; `Standby` stays `Standby`.
    pub fn next(self) -> (r: AtGateAction)
        ensures
            r == next_turnaround(self),
    {
        match self {
            AtGateAction::ShutdownProcedure => AtGateAction::DeboardPassengers,
            AtGateAction::DeboardPassengers => AtGateAction::DeboardCargo,
            AtGateAction::DeboardCargo => AtGateAction::UnloadBaggage,
            AtGateAction::UnloadBaggage => AtGateAction::UnloadCargo,
            AtGateAction::UnloadCargo => AtGateAction::Refuel,
            AtGateAction::Refuel => AtGateAction::Repair,
            AtGateAction::Repair => AtGateAction::Clean,
            AtGateAction::Clean => AtGateAction::LoadCargo,
            AtGateAction::LoadCargo => AtGateAction::CrewChange,
            AtGateAction::CrewChange => AtGateAction::MaintenanceCheck,
            AtGateAction::MaintenanceCheck => AtGateAction::LoadBaggage,
            AtGateAction::LoadBaggage => AtGateAction::LoadPassengers,
            AtGateAction::LoadPassengers => AtGateAction::BoardPassengers,
            AtGateAction::BoardPassengers => AtGateAction::LoadAdditionalCargo,
            AtGateAction::LoadAdditionalCargo => AtGateAction::Standby,
            AtGateAction::Standby => AtGateAction::Standby,
        }
    }
}

/// What an aircraft is doing: the state of its state machine.
#[derive(Clone, Debug)]
pub enum Action {
    InAir,
    Land,
    Takeoff,
    HoldPosition,
    TaxiOntoRunway(usize),
    HoldShort,
    TaxiToGate(String),
    Pushback,
    /// Parked: the label of its gate and the current turnaround step.
    AtGate(String, AtGateAction),
}

/// An action, with gate labels as character sequences.
pub enum ActionView {
    InAir,
    Land,
    Takeoff,
    HoldPosition,
    TaxiOntoRunway(usize),
    HoldShort,
    TaxiToGate(Seq<char>),
    Pushback,
    AtGate(Seq<char>, AtGateAction),
}

impl View for Action {
    type V = ActionView;

    open spec fn view(&self) -> ActionView {
        match self {
            Action::InAir => ActionView::InAir,
            Action::Land => ActionView::Land,
            Action::Takeoff => ActionView::Takeoff,
            Action::HoldPosition => ActionView::HoldPosition,
            Action::TaxiOntoRunway(n) => ActionView::TaxiOntoRunway(*n),
            Action::HoldShort => ActionView::HoldShort,
            Action::TaxiToGate(g) => ActionView::TaxiToGate(g@),
            Action::Pushback => ActionView::Pushback,
            Action::AtGate(g, a) => ActionView::AtGate(g@, *a),
        }
    }
}

impl Action {
    /// A copy of this action.
    pub fn copy(&self) -> (r: Action)
        ensures
            r@ == self@,
    {
        match self {
            Action::InAir => Action::InAir,
            Action::Land => Action::Land,
            Action::Takeoff => Action::Takeoff,
            Action::HoldPosition => Action::HoldPosition,
            Action::TaxiOntoRunway(n) => Action::TaxiOntoRunway(*n),
            Action::HoldShort => Action::HoldShort,
            Action::TaxiToGate(g) => Action::TaxiToGate(g.clone()),
            Action::Pushback => Action::Pushback,
            Action::AtGate(g, a) => Action::AtGate(g.clone(), *a),
        }
    }
}

/// A runway record: its name and the direction of travel when landing or
/// departing on it.
#[derive(Clone, Copy, Debug, PartialEq, Eq, Structural)]
pub struct Runway {
    pub name: usize,
    pub side: Direction,
}

/// An aircraft of the fleet.
#[derive(Debug)]
pub struct Plane {
    pub id: usize,
    pub name: String,
    pub current_action: Action,
    /// Row and column on the grid.
    pub position: (usize, usize),
    pub runway: Runway,
    /// Set once the aircraft has departed over the edge of the grid.
    pub out_of_map: bool,
}

/// An aircraft, with its strings as character sequences.
pub struct PlaneView {
    pub id: usize,
    pub name: Seq<char>,
    pub action: ActionView,
    pub position: (usize, usize),
    pub runway: Runway,
    pub out_of_map: bool,
}

impl View for Plane {
    type V = PlaneView;

    open spec fn view(&self) -> PlaneView {
        PlaneView {
            id: self.id,
            name: self.name@,
            action: self.current_action@,
            position: self.position,
            runway: self.runway,
            out_of_map: self.out_of_map,
        }
    }
}

impl Plane {
    /// A copy of this aircraft.
    pub fn copy(&self) -> (r: Plane)
        ensures
            r@ == self@,
    {
        Plane {
            id: self.id,
            name: self.name.clone(),
            current_action: self.current_action.copy(),
            position: self.position,
            runway: self.runway,
            out_of_map: self.out_of_map,
        }
    }
}

} // verus!
