//! Core of a single-player grid-placement puzzle: polyomino pieces from a
//! fixed catalog are placed onto an N×N board without overlap, fully occupied
//! rows and columns are cleared simultaneously and score points, and a queue
//! of three pieces is replenished atomically once every slot has been used.
//!
//! The crate is a pure, synchronous library: the host supplies the freshly
//! drawn shapes for every queue refill (the random source is an external
//! collaborator) and renders the state through read-only queries.

pub mod board;
pub mod laws;
pub mod lines;
pub mod session;
pub mod shapes;
