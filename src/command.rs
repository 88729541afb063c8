use vstd::prelude::*;
use crate::aircraft::{Action, ActionView, AtGateAction, Plane, PlaneView, Runway};
use crate::movement::planes_view;
use crate::text::{decimal, decimal_string, lower_of, lowercase, split_words, str_eq, words_of};
use crate::weather::WeatherCondition;

verus! {

/// Which kind of action an aircraft is in, for a rejection's reason.
#[derive(Clone, Copy, Debug, PartialEq, Eq, Structural)]
pub enum StateKind {
    InAir,
    Land,
    Takeoff,
    HoldPosition,
    TaxiOntoRunway,
    HoldShort,
    TaxiToGate,
    Pushback,
    AtGate,
}

/// Why an operator command was rejected. The fleet is left as it was.
#[derive(Debug)]
pub enum CommandError {
    /// The line has fewer than two or more than three words.
    WrongLength,
    /// No aircraft has that name, ignoring case.
    PlaneNotFound,
    /// The keyword is not a command.
    InvalidCommand(String),
    /// The command needs a runway or gate and none was given.
    MissingDestination,
    /// The command takes no runway or gate and one was given.
    UnexpectedDestination,
    /// The named runway does not exist.
    RunwayNotFound,
    /// The requested action may not follow the aircraft's current one.
    NotValidWhen(StateKind),
    /// No takeoff clearance during inclement weather.
    TakeoffInclementWeather,
    /// No pushback during inclement weather.
    PushbackInclementWeather,
    /// Pushback before the turnaround has reached standby.
    TurnaroundNotFinished,
}

/// A rejection, with the keyword as a character sequence.
pub enum Rejection {
    WrongLength,
    PlaneNotFound,
    InvalidCommand(Seq<char>),
    MissingDestination,
    UnexpectedDestination,
    RunwayNotFound,
    NotValidWhen(StateKind),
    TakeoffInclementWeather,
    PushbackInclementWeather,
    TurnaroundNotFinished,
}

impl View for CommandError {
    type V = Rejection;

    open spec fn view(&self) -> Rejection {
        match self {
            CommandError::WrongLength => Rejection::WrongLength,
            CommandError::PlaneNotFound => Rejection::PlaneNotFound,
            CommandError::InvalidCommand(k) => Rejection::InvalidCommand(k@),
            CommandError::MissingDestination => Rejection::MissingDestination,
            CommandError::UnexpectedDestination => Rejection::UnexpectedDestination,
            CommandError::RunwayNotFound => Rejection::RunwayNotFound,
            CommandError::NotValidWhen(s) => Rejection::NotValidWhen(*s),
            CommandError::TakeoffInclementWeather => Rejection::TakeoffInclementWeather,
            CommandError::PushbackInclementWeather => Rejection::PushbackInclementWeather,
            CommandError::TurnaroundNotFinished => Rejection::TurnaroundNotFinished,
        }
    }
}

pub open spec fn kind_of(a: ActionView) -> StateKind {
    match a {
        ActionView::InAir => StateKind::InAir,
        ActionView::Land => StateKind::Land,
        ActionView::Takeoff => StateKind::Takeoff,
        ActionView::HoldPosition => StateKind::HoldPosition,
        ActionView::TaxiOntoRunway(_) => StateKind::TaxiOntoRunway,
        ActionView::HoldShort => StateKind::HoldShort,
        ActionView::TaxiToGate(_) => StateKind::TaxiToGate,
        ActionView::Pushback => StateKind::Pushback,
        ActionView::AtGate(_, _) => StateKind::AtGate,
    }
}

/// Whether `requested` may follow `current` under weather `w`: `None` when
/// it may, else the reason it may not.
pub open spec fn transition_error(current: ActionView, requested: ActionView, w: WeatherCondition) -> Option<Rejection> {
    let refuse = Some(Rejection::NotValidWhen(kind_of(current)));
    let takeoff = if w == WeatherCondition::InclementWeather {
        Some(Rejection::TakeoffInclementWeather)
    } else {
        None
    };
    match current {
        ActionView::HoldPosition => match requested {
            ActionView::TaxiToGate(_) | ActionView::HoldShort | ActionView::TaxiOntoRunway(_) => None,
            _ => refuse,
        },
        ActionView::TaxiOntoRunway(_) => match requested {
            ActionView::HoldPosition | ActionView::HoldShort | ActionView::TaxiToGate(_) => None,
            ActionView::Takeoff => takeoff,
            _ => refuse,
        },
        ActionView::HoldShort => match requested {
            ActionView::HoldPosition | ActionView::TaxiOntoRunway(_) => None,
            ActionView::Takeoff => takeoff,
            _ => refuse,
        },
        ActionView::TaxiToGate(_) => match requested {
            ActionView::HoldPosition => None,
            _ => refuse,
        },
        ActionView::AtGate(_, sub) => match requested {
            ActionView::Pushback => if sub != AtGateAction::Standby {
                Some(Rejection::TurnaroundNotFinished)
            } else if w == WeatherCondition::InclementWeather {
                Some(Rejection::PushbackInclementWeather)
            } else {
                None
            },
            _ => refuse,
        },
        _ => refuse,
    }
}

/// The command keywords.
pub open spec fn keyword_known(k: Seq<char>) -> bool {
    ||| k == "hp"@
    ||| k == "p"@
    ||| k == "l"@
    ||| k == "t"@
    ||| k == "tor"@
    ||| k == "hs"@
    ||| k == "t2g"@
}

/// Every keyword but `hp` and `p` needs a destination.
pub open spec fn takes_destination(k: Seq<char>) -> bool {
    k != "hp"@ && k != "p"@
}

/// The keywords whose destination is a runway.
pub open spec fn names_runway(k: Seq<char>) -> bool {
    takes_destination(k) && k != "t2g"@
}

/// The first runway from place `i` of `rs` on whose name `dest` is written
/// in decimal.
pub open spec fn runway_from(rs: Seq<Runway>, dest: Seq<char>, i: int) -> Option<Runway>
    decreases rs.len() - i,
{
    if i < 0 || i >= rs.len() {
        None
    } else if decimal(rs[i].name as nat) == dest {
        Some(rs[i])
    } else {
        runway_from(rs, dest, i + 1)
    }
}

/// The action that keyword `k` with destination `dest` requests.
pub open spec fn requested_action(k: Seq<char>, dest: Seq<char>, rw: Runway) -> ActionView {
    if k == "l"@ {
        ActionView::Land
    } else if k == "t"@ {
        ActionView::Takeoff
    } else if k == "hp"@ {
        ActionView::HoldPosition
    } else if k == "p"@ {
        ActionView::Pushback
    } else if k == "tor"@ {
        ActionView::TaxiOntoRunway(rw.name)
    } else if k == "hs"@ {
        ActionView::HoldShort
    } else {
        ActionView::TaxiToGate(dest)
    }
}

/// The outcome of the command `words` for aircraft `pl`: the aircraft with
/// its new action (and, for a runway command, its new runway), or why the
/// command is rejected.
pub open spec fn command_outcome(words: Seq<Seq<char>>, pl: PlaneView, rs: Seq<Runway>, w: WeatherCondition) -> Result<PlaneView, Rejection> {
    let k = words[0];
    if !keyword_known(k) {
        Err(Rejection::InvalidCommand(k))
    } else if takes_destination(k) && words.len() != 3 {
        Err(Rejection::MissingDestination)
    } else if !takes_destination(k) && words.len() == 3 {
        Err(Rejection::UnexpectedDestination)
    } else {
        let dest = if takes_destination(k) { words[2] } else { Seq::empty() };
        let found = runway_from(rs, dest, 0);
        if names_runway(k) && found is None {
            Err(Rejection::RunwayNotFound)
        } else {
            let rw = if names_runway(k) { found->Some_0 } else { pl.runway };
            let req = requested_action(k, dest, rw);
            match transition_error(pl.action, req, w) {
                Some(e) => Err(e),
                None => Ok(PlaneView { action: req, runway: rw, ..pl }),
            }
        }
    }
}

/// The first aircraft from place `i` of `ps` whose lowercase name is `target`.
pub open spec fn plane_named_from(ps: Seq<PlaneView>, target: Seq<char>, i: int) -> Option<int>
    decreases ps.len() - i,
{
    if i < 0 || i >= ps.len() {
        None
    } else if lower_of(ps[i].name) == target {
        Some(i)
    } else {
        plane_named_from(ps, target, i + 1)
    }
}

/// A found aircraft lies within the fleet.
proof fn lemma_plane_named_in_range(ps: Seq<PlaneView>, target: Seq<char>, i: int)
    ensures
        plane_named_from(ps, target, i) matches Some(j) ==> i <= j < ps.len(),
    decreases ps.len() - i,
{
    if 0 <= i < ps.len() && lower_of(ps[i].name) != target {
        lemma_plane_named_in_range(ps, target, i + 1);
    }
}

/// The outcome of the operator line `line`.
pub open spec fn input_outcome(line: Seq<char>, ps: Seq<PlaneView>, rs: Seq<Runway>, w: WeatherCondition) -> Result<PlaneView, Rejection> {
    let words = words_of(line);
    if words.len() < 2 || words.len() > 3 {
        Err(Rejection::WrongLength)
    } else {
        match plane_named_from(ps, lower_of(words[1]), 0) {
            None => Err(Rejection::PlaneNotFound),
            Some(i) => command_outcome(words, ps[i], rs, w),
        }
    }
}

/// The words of a command, as character sequences.
pub open spec fn words_view(words: Seq<String>) -> Seq<Seq<char>> {
    words.map_values(|s: String| s@)
}

fn state_kind(a: &Action) -> (r: StateKind)
    ensures
        r == kind_of(a@),
{
    match a {
        Action::InAir => StateKind::InAir,
        Action::Land => StateKind::Land,
        Action::Takeoff => StateKind::Takeoff,
        Action::HoldPosition => StateKind::HoldPosition,
        Action::TaxiOntoRunway(_) => StateKind::TaxiOntoRunway,
        Action::HoldShort => StateKind::HoldShort,
        Action::TaxiToGate(_) => StateKind::TaxiToGate,
        Action::Pushback => StateKind::Pushback,
        Action::AtGate(_, _) => StateKind::AtGate,
    }
}

/// Checks the transition from `current` to `requested` under `w`.
pub fn check_transition(current: &Action, requested: &Action, w: WeatherCondition) -> (r: Option<CommandError>)
    ensures
        match transition_error(current@, requested@, w) {
            Some(e) => r matches Some(x) && x@ == e,
            None => r is None,
        },
{
    let takeoff = if w == WeatherCondition::InclementWeather {
        Some(CommandError::TakeoffInclementWeather)
    } else {
        None
    };
    let allowed = match current {
        Action::HoldPosition => match requested {
            Action::TaxiToGate(_) | Action::HoldShort | Action::TaxiOntoRunway(_) => true,
            _ => false,
        },
        Action::TaxiOntoRunway(_) => match requested {
            Action::HoldPosition | Action::HoldShort | Action::TaxiToGate(_) => true,
            Action::Takeoff => {
                return takeoff;
            },
            _ => false,
        },
        Action::HoldShort => match requested {
            Action::HoldPosition | Action::TaxiOntoRunway(_) => true,
            Action::Takeoff => {
                return takeoff;
            },
            _ => false,
        },
        Action::TaxiToGate(_) => match requested {
            Action::HoldPosition => true,
            _ => false,
        },
        Action::AtGate(_, sub) => match requested {
            Action::Pushback => {
                if *sub != AtGateAction::Standby {
                    return Some(CommandError::TurnaroundNotFinished);
                } else if w == WeatherCondition::InclementWeather {
                    return Some(CommandError::PushbackInclementWeather);
                } else {
                    return None;
                }
            },
            _ => false,
        },
        _ => false,
    };
    if allowed {
        None
    } else {
        Some(CommandError::NotValidWhen(state_kind(current)))
    }
}

/// The first runway of `runways` on whose name `dest` is written in decimal.
pub fn find_runway(runways: &Vec<Runway>, dest: &str) -> (r: Option<Runway>)
    ensures
        r == runway_from(runways@, dest@, 0),
{
    let mut i: usize = 0;
    while i < runways.len()
        invariant
            i <= runways@.len(),
            runway_from(runways@, dest@, 0) == runway_from(runways@, dest@, i as int),
        decreases runways@.len() - i,
    {
        let label = decimal_string(runways[i].name);
        if str_eq(label.as_str(), dest) {
            return Some(runways[i]);
        }
        i = i + 1;
    }
    None
}

/// The first aircraft of `planes` whose lowercase name is `target`.
pub fn find_aircraft(planes: &Vec<Plane>, target: &str) -> (r: Option<usize>)
    ensures
        match r {
            Some(i) => plane_named_from(planes_view(planes@), target@, 0) == Some(i as int),
            None => plane_named_from(planes_view(planes@), target@, 0) is None,
        },
{
    let ghost ps = planes_view(planes@);
    let mut i: usize = 0;
    while i < planes.len()
        invariant
            i <= planes@.len(),
            ps == planes_view(planes@),
            plane_named_from(ps, target@, 0) == plane_named_from(ps, target@, i as int),
        decreases planes@.len() - i,
    {
        let lowered = lowercase(planes[i].name.as_str());
        if str_eq(lowered.as_str(), target) {
            return Some(i);
        }
        i = i + 1;
    }
    None
}

/// Decides the command `words` for `plane`: the aircraft with its new action
/// (and, for a runway command, its new runway), or why it is rejected.
pub fn validate_command(words: &Vec<String>, plane: &Plane, runways: &Vec<Runway>, weather: WeatherCondition) -> (r: Result<Plane, CommandError>)
    requires
        2 <= words@.len() <= 3,
    ensures
        match command_outcome(words_view(words@), plane@, runways@, weather) {
            Ok(q) => r matches Ok(p) && p@ == q,
            Err(e) => r matches Err(x) && x@ == e,
        },
{
    let ghost wv = words_view(words@);
    assert(wv[0] == words@[0]@);
    let k = words[0].as_str();
    proof {
        reveal_strlit("hp");
        reveal_strlit("p");
        reveal_strlit("l");
        reveal_strlit("t");
        reveal_strlit("tor");
        reveal_strlit("hs");
        reveal_strlit("t2g");
    }
    let is_hp = str_eq(k, "hp");
    let is_p = str_eq(k, "p");
    let is_l = str_eq(k, "l");
    let is_t = str_eq(k, "t");
    let is_tor = str_eq(k, "tor");
    let is_hs = str_eq(k, "hs");
    let is_t2g = str_eq(k, "t2g");
    if !(is_hp || is_p || is_l || is_t || is_tor || is_hs || is_t2g) {
        return Err(CommandError::InvalidCommand(words[0].clone()));
    }
    let takes_dest = !is_hp && !is_p;
    if takes_dest && words.len() != 3 {
        return Err(CommandError::MissingDestination);
    }
    if !takes_dest && words.len() == 3 {
        return Err(CommandError::UnexpectedDestination);
    }
    let dest: &str = if takes_dest {
        assert(wv[2] == words@[2]@);
        words[2].as_str()
    } else {
        ""
    };
    proof {
        reveal_strlit("");
    }
    let mut runway = plane.runway;
    if takes_dest && !is_t2g {
        match find_runway(runways, dest) {
            None => {
                return Err(CommandError::RunwayNotFound);
            },
            Some(rw) => {
                runway = rw;
            },
        }
    }
    let requested = if is_l {
        Action::Land
    } else if is_t {
        Action::Takeoff
    } else if is_hp {
        Action::HoldPosition
    } else if is_p {
        Action::Pushback
    } else if is_tor {
        Action::TaxiOntoRunway(runway.name)
    } else if is_hs {
        Action::HoldShort
    } else {
        Action::TaxiToGate(String::from_str(dest))
    };
    match check_transition(&plane.current_action, &requested, weather) {
        Some(e) => Err(e),
        None => Ok(
            Plane {
                id: plane.id,
                name: plane.name.clone(),
                current_action: requested,
                position: plane.position,
                runway,
                out_of_map: plane.out_of_map,
            },
        ),
    }
}

/// Parses and checks one operator line against the fleet: the aircraft it
/// names, with its new action (and, for a runway command, its new runway),
/// or why it is rejected. Nothing is changed.
pub fn parse_user_input(command: &str, planes: &Vec<Plane>, runways: &Vec<Runway>, weather: WeatherCondition) -> (r: Result<Plane, CommandError>)
    ensures
        match input_outcome(command@, planes_view(planes@), runways@, weather) {
            Ok(q) => r matches Ok(p) && p@ == q,
            Err(e) => r matches Err(x) && x@ == e,
        },
{
    let words = split_words(command);
    if words.len() > 3 || words.len() < 2 {
        return Err(CommandError::WrongLength);
    }
    proof {
        assert(words_view(words@) =~= words_of(command@));
    }
    let target = lowercase(words[1].as_str());
    proof {
        lemma_plane_named_in_range(planes_view(planes@), target@, 0);
        assert(planes_view(planes@).len() == planes@.len());
        assert(target@ == lower_of(words_of(command@)[1]));
    }
    match find_aircraft(planes, target.as_str()) {
        None => {
            assert(input_outcome(command@, planes_view(planes@), runways@, weather) == Err::<PlaneView, Rejection>(Rejection::PlaneNotFound));
            Err(CommandError::PlaneNotFound)
        },
        Some(i) => {
            proof {
                assert(words@[1]@ == words_of(command@)[1]);
                assert(planes_view(planes@)[i as int] == planes@[i as int]@);
                let ps = planes_view(planes@);
                assert(words_view(words@) == words_of(command@));
                assert(plane_named_from(ps, lower_of(words_of(command@)[1]), 0) == Some(i as int));
                assert(ps[i as int] == planes@[i as int]@);
            }
            validate_command(&words, &planes[i], runways, weather)
        },
    }
}


/// The reason given for rejection `e`.
pub open spec fn rejection_text(e: Rejection) -> Seq<char> {
    match e {
        Rejection::WrongLength => "Wrong user input length."@,
        Rejection::PlaneNotFound => "Plane not found"@,
        Rejection::InvalidCommand(k) => "Invalid command: "@ + k,
        Rejection::MissingDestination => "Must contain a runway/gate/terminal number"@,
        Rejection::UnexpectedDestination => "Must not contain a runway/gate/terminal number"@,
        Rejection::RunwayNotFound => "Runway not found"@,
        Rejection::NotValidWhen(s) => match s {
            StateKind::InAir => "Not a valid action when plane is in the air"@,
            StateKind::Land => "Not a valid action when in the process of landing"@,
            StateKind::Takeoff => "Not a valid action when in the process of takeoff"@,
            StateKind::HoldPosition => "Not a valid action when holding position"@,
            StateKind::TaxiOntoRunway => "Not a valid action when taxiing onto runway"@,
            StateKind::HoldShort => "Not a valid action when holding short"@,
            StateKind::TaxiToGate => "Not a valid action when taxiing to gate"@,
            StateKind::Pushback => "Not a valid action when in the process of pushback"@,
            StateKind::AtGate => "Not a valid action when at gate"@,
        },
        Rejection::TakeoffInclementWeather => "Cannot takeoff during inclement weather, return back to the "@ + "gate"@,
        Rejection::PushbackInclementWeather => "Cannot pushback during inclement weather"@,
        Rejection::TurnaroundNotFinished => "Wait for the plane to finish its turnaround process"@,
    }
}

impl CommandError {
    /// The reason, for the operator.
    pub fn message(&self) -> (r: String)
        ensures
            r@ == rejection_text(self@),
    {
        match self {
            CommandError::WrongLength => String::from_str("Wrong user input length."),
            CommandError::PlaneNotFound => String::from_str("Plane not found"),
            CommandError::InvalidCommand(k) => String::from_str("Invalid command: ").concat(k.as_str()),
            CommandError::MissingDestination => String::from_str("Must contain a runway/gate/terminal number"),
            CommandError::UnexpectedDestination => String::from_str("Must not contain a runway/gate/terminal number"),
            CommandError::RunwayNotFound => String::from_str("Runway not found"),
            CommandError::NotValidWhen(s) => String::from_str(
                match s {
                    StateKind::InAir => "Not a valid action when plane is in the air",
                    StateKind::Land => "Not a valid action when in the process of landing",
                    StateKind::Takeoff => "Not a valid action when in the process of takeoff",
                    StateKind::HoldPosition => "Not a valid action when holding position",
                    StateKind::TaxiOntoRunway => "Not a valid action when taxiing onto runway",
                    StateKind::HoldShort => "Not a valid action when holding short",
                    StateKind::TaxiToGate => "Not a valid action when taxiing to gate",
                    StateKind::Pushback => "Not a valid action when in the process of pushback",
                    StateKind::AtGate => "Not a valid action when at gate",
                },
            ),
            CommandError::TakeoffInclementWeather => String::from_str(
                "Cannot takeoff during inclement weather, return back to the ",
            ).concat("gate"),
            CommandError::PushbackInclementWeather => String::from_str("Cannot pushback during inclement weather"),
            CommandError::TurnaroundNotFinished => String::from_str("Wait for the plane to finish its turnaround process"),
        }
    }
}

} // verus!
