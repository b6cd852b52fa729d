//! The interaction core of a small real-time 3D simulation: a controllable
//! player that walks, jumps and picks up nearby objects, over an
//! entity-component store.
//!
//! The crate holds the simulation state and the per-frame rules that change
//! it. Physics, rendering and input devices stay outside: they hand in
//! collision events and key states, and read the state back.
pub mod assets;
pub mod candidates;
pub mod combine;
pub mod events;
pub mod keyboard;
pub mod math;
pub mod player;
pub mod schedule;
pub mod world;
