//! Controller input: the two standard pads and their shift registers at `$4016` and `$4017`.
pub mod controller;

pub use controller::{Controller, ControllerButton, ControllerHandler, ControllerPort, ControllerState, StrobeLatch};
