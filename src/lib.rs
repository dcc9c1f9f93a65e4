//! A thermostat daemon's core: a hot-reloadable configuration store, the
//! threshold decision, and the decisions of the poll loop that drives a plug
//! from a hub's temperature sensor.
pub mod address;
pub mod config;
pub mod control;
pub mod text;

pub use control::{
    decide, first_sensor_reading, thermostat, Action, ChildDevice, Command, ControlLoop, Phase,
};
