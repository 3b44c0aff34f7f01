//! Presence tracking for a rail commuter: from the distances between a person,
//! the stations of a catalog and the trains of a live feed, decide whether the
//! person is not travelling, waiting at a station or riding a train.
//!
//! - `geofence`: radii, dwell times and the containment test.
//! - `catalog`: the stations, by their place in the operator's list of stops.
//! - `encounters`: what a person at a station has seen of each train.
//! - `state`: the presence and its mathematical model.
//! - `machine`: the transition at one tick.
//! - `laws`: what holds of every tick.
//! - `shared`: the published presence and the two lines drawn from it.
//! - `poll`: one iteration of the polling loop.
//! - `render`: renderer traits and the drawing commands.
pub mod catalog;
pub mod encounters;
pub mod geofence;
pub mod laws;
pub mod machine;
pub mod poll;
pub mod render;
pub mod shared;
pub mod state;
