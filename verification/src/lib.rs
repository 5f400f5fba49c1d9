//! Core of an authoritative real-time multiplayer simulation server.
//!
//! The server owns the only true copy of every game world. Clients connect
//! over a bidirectional byte stream, submit control inputs, and receive
//! periodic binary snapshots. This crate holds the verified heart of that
//! design: the wire protocol, the snapshot encoding, the session registry
//! with its matchmaking rules, the per-session tick bookkeeping, and the
//! per-message routing decisions. The unverified shell around it does the
//! socket I/O and the floating-point physics arithmetic, handing this crate
//! plain values (bytes, integers, IEEE-754 bit patterns) and taking plain
//! values back.

use vstd::prelude::*;

pub mod codec;
pub mod kinematics;
pub mod message;
pub mod registry;
pub mod router;
pub mod session;
pub mod snapshot;

verus! {

/// Kind tag identifying the soccer world variant on the wire and in sessions.
pub const SOCCER_KIND: u8 = 1;

/// Number of movable pucks a soccer world owns (fixed for its lifetime).
pub const PUCK_COUNT: usize = 10;

/// Number of pucks each participant slot controls.
pub const PUCKS_PER_PLAYER: usize = 5;

/// Participant capacity of a soccer session.
pub const MAX_PLAYERS: usize = 2;

} // verus!
