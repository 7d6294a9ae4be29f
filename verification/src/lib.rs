//! A controllable Game of Life engine on a toroidal grid.
//!
//! The engine evolves a rectangular world of binary cells under the standard
//! rule, splitting each turn's recomputation into contiguous row bands — one
//! per worker — and reassembling them into a world that provably never
//! depends on the worker count. Around the turn engine stand a control state
//! machine (pause, resume, save, quit), a single-slot I/O handshake that
//! never reports idle while a save is draining, a snapshot codec for the
//! plain bitmap format, and an ordered stream of domain events.

pub mod args;
pub mod cell;
pub mod controller;
pub mod errors;
pub mod event;
pub mod grid;
pub mod io_gateway;
pub mod params;
pub mod pgm;
pub mod remote;
pub mod runner;
pub mod text;
pub mod worker;
