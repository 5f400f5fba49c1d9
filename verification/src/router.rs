//! Per-message routing decisions of a connection handler.
//!
//! The unverified shell reads one frame from the transport, decodes it
//! with `WsMessage::from_bytes`, and asks this module what to do; it then
//! performs the action — sending a reply, applying an input to the
//! session's world, or closing the connection. Every rule of the
//! protocol's message handling lives here: a ping is answered with a
//! pong, a state request is served only when the session's world kind
//! matches, a move is decoded and addressed to the sender's puck, a
//! malformed move closes the connection, and anything else is ignored.

use vstd::prelude::*;

use crate::codec::u32_of_le_bytes;
use crate::message::MessageType;
use crate::message::SoccerMoveMessage;
use crate::message::WsMessage;
use crate::MAX_PLAYERS;
use crate::PUCKS_PER_PLAYER;
use crate::PUCK_COUNT;
use crate::SOCCER_KIND;

verus! {

/// What a connection handler must do with one inbound message.
#[derive(Clone, Copy, Debug, PartialEq, Eq, Structural)]
pub enum RouteAction {
    /// Answer with an empty pong frame (and record the ping time).
    ReplyPong,
    /// Answer with a state frame carrying the world's snapshot.
    ReplyState,
    /// Overwrite the velocity of the puck at `puck_index` with the given
    /// components (bit patterns of IEEE-754 single-precision values).
    ApplyMove { puck_index: usize, vx_bits: u32, vy_bits: u32 },
    /// Drop the message and carry on.
    Ignore,
    /// Drop the message and close the connection.
    CloseConnection,
}

/// Decides what to do with one decoded frame, for a connection resolved
/// to participant slot `player_index` of a session whose world kind is
/// `game_type`.
///
/// A ping is answered with a pong. A state request is served when the
/// session's world is of the soccer kind, and ignored otherwise — a kind
/// mismatch fails silently, it never closes the connection. A pong is
/// ignored. A move with an undersized payload is malformed and closes
/// the connection; a well-formed move on a mismatched world kind is
/// ignored; one whose addressed puck does not exist is dropped rather
/// than let stale input corrupt the world; otherwise the move's velocity
/// is applied verbatim — no maximum speed is enforced — to the puck at
/// `player_index` pucks-per-player positions plus the move's own target.
pub fn route_message(msg: &WsMessage, game_type: u8, player_index: usize) -> (r: RouteAction)
    requires
        player_index < MAX_PLAYERS,
    ensures
        msg.msg_type == MessageType::Ping ==> r == RouteAction::ReplyPong,
        msg.msg_type == MessageType::Pong ==> r == RouteAction::Ignore,
        msg.msg_type == MessageType::State ==> r == (if game_type == SOCCER_KIND {
            RouteAction::ReplyState
        } else {
            RouteAction::Ignore
        }),
        msg.msg_type == MessageType::SoccerMove ==> {
            if msg.payload@.len() < 9 {
                r == RouteAction::CloseConnection
            } else if game_type != SOCCER_KIND {
                r == RouteAction::Ignore
            } else if player_index * PUCKS_PER_PLAYER + msg.payload@[8] >= PUCK_COUNT {
                r == RouteAction::Ignore
            } else {
                r matches RouteAction::ApplyMove { puck_index, vx_bits, vy_bits } && puck_index
                    == player_index * PUCKS_PER_PLAYER + msg.payload@[8] && vx_bits
                    == u32_of_le_bytes(
                    msg.payload@[0],
                    msg.payload@[1],
                    msg.payload@[2],
                    msg.payload@[3],
                ) && vy_bits == u32_of_le_bytes(
                    msg.payload@[4],
                    msg.payload@[5],
                    msg.payload@[6],
                    msg.payload@[7],
                )
            }
        },
{
    match msg.msg_type {
        MessageType::Ping => RouteAction::ReplyPong,
        MessageType::Pong => RouteAction::Ignore,
        MessageType::State => {
            if game_type == SOCCER_KIND {
                RouteAction::ReplyState
            } else {
                RouteAction::Ignore
            }
        },
        MessageType::SoccerMove => {
            let m = match SoccerMoveMessage::from_payload(payload_slice(msg)) {
                None => {
                    return RouteAction::CloseConnection;
                },
                Some(m) => m,
            };
            if game_type != SOCCER_KIND {
                return RouteAction::Ignore;
            }
            let puck_index = player_index * PUCKS_PER_PLAYER + m.target as usize;
            proof {
                crate::codec::lemma_u32_le_round_trip(m.vx_bits);
                crate::codec::lemma_u32_le_round_trip(m.vy_bits);
                assert forall|k: int| 0 <= k < 9 implies crate::message::move_payload_bytes(m)[k]
                    == msg.payload@[k] by {
                    assert(msg.payload@.subrange(0, 9)[k] == msg.payload@[k]);
                }
                assert forall|k: int|
                    0 <= k < 4 implies crate::codec::le_bytes_of_u32(m.vx_bits)[k]
                    == msg.payload@[k] by {
                    assert(crate::message::move_payload_bytes(m)[k] == crate::codec::le_bytes_of_u32(
                        m.vx_bits,
                    )[k]);
                }
                assert forall|k: int|
                    0 <= k < 4 implies crate::codec::le_bytes_of_u32(m.vy_bits)[k]
                    == msg.payload@[4 + k] by {
                    assert(crate::message::move_payload_bytes(m)[4 + k]
                        == crate::codec::le_bytes_of_u32(m.vy_bits)[k]);
                }
                assert(m.vx_bits == u32_of_le_bytes(
                    msg.payload@[0],
                    msg.payload@[1],
                    msg.payload@[2],
                    msg.payload@[3],
                ));
                assert(m.vy_bits == u32_of_le_bytes(
                    msg.payload@[4],
                    msg.payload@[5],
                    msg.payload@[6],
                    msg.payload@[7],
                ));
            }
            if puck_index >= PUCK_COUNT {
                RouteAction::Ignore
            } else {
                RouteAction::ApplyMove { puck_index, vx_bits: m.vx_bits, vy_bits: m.vy_bits }
            }
        },
    }
}

/// The payload of a message, as a borrowed byte slice.
fn payload_slice(msg: &WsMessage) -> (r: &[u8])
    ensures
        r@ == msg.payload@,
{
    msg.payload.as_slice()
}

} // verus!
