//! The polling tasks, the state they share and the server that reports it.

pub mod measurement;
pub mod networking;
pub mod state;
