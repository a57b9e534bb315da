//! Drivers for the devices attached to the controller.

pub mod ezo;
