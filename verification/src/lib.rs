//! Verified core logic of the Gravitium N-body gravity simulator.
pub mod bootstrap;
pub mod model;
pub mod simulation;
pub mod url;
pub mod view;
