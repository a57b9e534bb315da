//! Monitoring core of a hydroponics controller.
//!
//! The crate holds the rules of the controller and leaves every transfer to
//! its caller: the sensor protocol driver says what to put on the bus and
//! decodes what came back, the polling tasks classify readings into the
//! shared state, and the request dispatcher renders that state for network
//! clients.

pub mod buffers;
pub mod hardware;
pub mod tasks;
pub mod text;
