//! Core of a menu-bar break-reminder utility: a pause/resume stopwatch with
//! drift-correct elapsed-time accounting, a phase-cycling countdown engine
//! with per-subscriber tick queues, and a settings record with an on-disk
//! codec. All timing logic is written over explicit millisecond timestamps
//! handed in by the caller, so every state change is a pure, verified step.

pub mod codec;
pub mod config;
pub mod engine;
pub mod engine_laws;
pub mod idle;
pub mod store;
pub mod stopwatch;
