//! Netcode core for a small client-server 2D platformer.
//!
//! The library holds the integer logic of the synchronisation engine: the
//! airtime-state rules of the physics step, the client's input history with
//! its reconciliation, prediction and interpolation plan, the server's roster
//! of clients with their acknowledgments, and the client and server settings.
//! Floating-point simulation and all I/O live outside the library.

pub mod client;
pub mod model;
pub mod netcode;
pub mod physics;
pub mod server;
pub mod sys;
