//! A discrete-time elevator simulation: a building model that owns floor and
//! car state and applies commands, a passenger model whose people call and
//! ride the cars, and a dispatcher policy that assigns cars to requests.
//!
//! Positions and durations are fixed-point integers in thousandths of a floor
//! (cars travel at one floor per time unit, so a duration and the distance
//! covered in it share the scale).

/// Shared identifier and direction types.
pub mod types;

/// The building model: floor and car state, command application, and the
/// physical clock.
pub mod elevator;

/// The passenger model: the people, their spawn timer, and their personal
/// decision state machines.
pub mod people;

/// The dispatcher: a policy that turns a building snapshot into car
/// assignment commands.
pub mod control;
