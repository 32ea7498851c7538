//! Device registration and command relay for a small home-automation network.
//!
//! A coordinating node and its peripheral devices exchange short textual
//! commands. Each command travels as an envelope `[verb: [args]]` inside a
//! length-prefixed frame. This crate holds the framing codec, the command
//! values and their routing rules, the connection registry, the registration
//! handshake, and the room and device bookkeeping of the coordinator.
use vstd::prelude::*;

pub mod devices;
pub mod network;
pub mod place;
pub mod services;
pub mod stages;
pub mod stores;
pub mod text;

verus! {

} // verus!
