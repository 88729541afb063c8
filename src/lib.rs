//! Ground and near-field air traffic control at a single airport: a tile
//! grid of runways, taxiways, gate lines and gates, a fleet of aircraft that
//! each follow a discrete action state machine, and an operator command
//! channel that grants legal transitions.

pub mod direction;
pub mod text;
pub mod grid;
pub mod aircraft;
pub mod registry;
pub mod movement;
pub mod weather;
pub mod command;
pub mod clearance;
pub mod airport;
pub mod map_file;
