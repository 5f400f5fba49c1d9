//! Wire protocol: message framing and the enumerated message kinds.
//!
//! A frame is one leading tag byte followed by a kind-specific payload with
//! no length prefix; the payload is the remainder of the frame. Unknown tags
//! are not an error: decoding yields `None` and the caller ignores the frame.

use vstd::prelude::*;

use crate::codec::le_bytes_of_u32;
use crate::codec::push_u32_le;
use crate::codec::read_u32_le;

verus! {

/// The enumerated message kinds carried on the wire.
#[derive(Clone, Copy, Debug, PartialEq, Eq, Structural)]
pub enum MessageType {
    Ping,
    Pong,
    State,
    SoccerMove,
}

/// The tag byte that stands for a message kind on the wire.
pub open spec fn spec_tag(t: MessageType) -> u8 {
    match t {
        MessageType::Ping => 0,
        MessageType::Pong => 1,
        MessageType::State => 2,
        MessageType::SoccerMove => 3,
    }
}

impl MessageType {
    /// The tag byte written on the wire for this kind.
    pub fn as_u8(self) -> (tag: u8)
        ensures
            tag == spec_tag(self),
    {
        match self {
            MessageType::Ping => 0,
            MessageType::Pong => 1,
            MessageType::State => 2,
            MessageType::SoccerMove => 3,
        }
    }

    /// Decodes a tag byte; `None` exactly on the tags no kind owns.
    pub fn from_u8(tag: u8) -> (r: Option<MessageType>)
        ensures
            tag <= 3 ==> (r matches Some(t) && spec_tag(t) == tag),
            tag > 3 ==> r is None,
    {
        match tag {
            0 => Some(MessageType::Ping),
            1 => Some(MessageType::Pong),
            2 => Some(MessageType::State),
            3 => Some(MessageType::SoccerMove),
            _ => None,
        }
    }
}

/// One framed wire message: a kind and its raw payload bytes.
pub struct WsMessage {
    pub msg_type: MessageType,
    pub payload: Vec<u8>,
}

/// The exact byte image of a framed message: tag byte, then the payload.
pub open spec fn frame_bytes(t: MessageType, payload: Seq<u8>) -> Seq<u8> {
    seq![spec_tag(t)] + payload
}

impl WsMessage {
    /// Encodes the frame: one tag byte followed by the payload verbatim.
    pub fn to_bytes(&self) -> (bytes: Vec<u8>)
        ensures
            bytes@ == frame_bytes(self.msg_type, self.payload@),
            bytes@.len() == 1 + self.payload@.len(),
    {
        let mut bytes: Vec<u8> = Vec::new();
        bytes.push(self.msg_type.as_u8());
        let mut i: usize = 0;
        while i < self.payload.len()
            invariant
                i <= self.payload@.len(),
                bytes@ == seq![spec_tag(self.msg_type)] + self.payload@.subrange(0, i as int),
            decreases self.payload@.len() - i,
        {
            bytes.push(self.payload[i]);
            i = i + 1;
            proof {
                assert(bytes@ =~= seq![spec_tag(self.msg_type)]
                    + self.payload@.subrange(0, i as int));
            }
        }
        proof {
            assert(self.payload@.subrange(0, self.payload@.len() as int) =~= self.payload@);
        }
        bytes
    }

    /// Decodes a frame. Succeeds exactly on a non-empty input whose first
    /// byte is a known tag; the payload is everything after that byte.
    pub fn from_bytes(data: &[u8]) -> (r: Option<WsMessage>)
        ensures
            r matches Some(m) ==> {
                &&& data@.len() >= 1
                &&& spec_tag(m.msg_type) == data@[0]
                &&& m.payload@ == data@.subrange(1, data@.len() as int)
                &&& data@ == frame_bytes(m.msg_type, m.payload@)
            },
            r is None <==> (data@.len() == 0 || data@[0] > 3),
    {
        if data.len() == 0 {
            return None;
        }
        let msg_type = match MessageType::from_u8(data[0]) {
            Some(t) => t,
            None => {
                return None;
            },
        };
        let mut payload: Vec<u8> = Vec::new();
        let mut i: usize = 1;
        while i < data.len()
            invariant
                1 <= i <= data@.len(),
                payload@ == data@.subrange(1, i as int),
            decreases data@.len() - i,
        {
            payload.push(data[i]);
            i = i + 1;
            proof {
                assert(payload@ =~= data@.subrange(1, i as int));
            }
        }
        proof {
            assert(data@ =~= seq![data@[0]] + data@.subrange(1, data@.len() as int));
        }
        Some(WsMessage { msg_type, payload })
    }
}

/// A soccer move input: the velocity to overwrite a puck with, each
/// component as the bit pattern of an IEEE-754 single-precision value,
/// and the index of the targeted puck among the sender's own pucks.
#[derive(Clone, Copy, Debug, PartialEq, Eq, Structural)]
pub struct SoccerMoveMessage {
    pub vx_bits: u32,
    pub vy_bits: u32,
    pub target: u8,
}

/// The nine payload bytes of a move: vx and vy little-endian, then the
/// target byte.
pub open spec fn move_payload_bytes(m: SoccerMoveMessage) -> Seq<u8> {
    le_bytes_of_u32(m.vx_bits) + le_bytes_of_u32(m.vy_bits) + seq![m.target]
}

impl SoccerMoveMessage {
    /// Encodes the fixed-size move payload: nine bytes.
    pub fn to_payload(&self) -> (bytes: Vec<u8>)
        ensures
            bytes@ == move_payload_bytes(*self),
            bytes@.len() == 9,
    {
        let mut bytes: Vec<u8> = Vec::new();
        push_u32_le(&mut bytes, self.vx_bits);
        push_u32_le(&mut bytes, self.vy_bits);
        bytes.push(self.target);
        proof {
            assert(bytes@ =~= move_payload_bytes(*self));
        }
        bytes
    }

    /// Decodes a move payload. Succeeds exactly when at least nine bytes
    /// are there, reading the first nine and ignoring any trailing
    /// bytes; an undersized payload is malformed.
    pub fn from_payload(data: &[u8]) -> (r: Option<SoccerMoveMessage>)
        ensures
            r is Some <==> data@.len() >= 9,
            r matches Some(m) ==> {
                &&& move_payload_bytes(m) == data@.subrange(0, 9)
                &&& m.target == data@[8]
            },
    {
        if data.len() < 9 {
            return None;
        }
        let vx_bits = read_u32_le(data, 0);
        let vy_bits = read_u32_le(data, 4);
        let target = data[8];
        let m = SoccerMoveMessage { vx_bits, vy_bits, target };
        proof {
            assert(move_payload_bytes(m) =~= data@.subrange(0, 9));
        }
        Some(m)
    }
}

/// Move payload round trip: two moves with the same nine payload bytes
/// are the same move, so decoding an encoded move gives it back exactly.
pub proof fn lemma_move_payload_round_trip(m1: SoccerMoveMessage, m2: SoccerMoveMessage)
    requires
        move_payload_bytes(m1) == move_payload_bytes(m2),
    ensures
        m1 == m2,
{
    assert(le_bytes_of_u32(m1.vx_bits) =~= le_bytes_of_u32(m2.vx_bits)) by {
        assert forall|k: int| 0 <= k < 4 implies le_bytes_of_u32(m1.vx_bits)[k] == le_bytes_of_u32(
            m2.vx_bits,
        )[k] by {
            assert(move_payload_bytes(m1)[k] == le_bytes_of_u32(m1.vx_bits)[k]);
            assert(move_payload_bytes(m2)[k] == le_bytes_of_u32(m2.vx_bits)[k]);
        }
    }
    assert(le_bytes_of_u32(m1.vy_bits) =~= le_bytes_of_u32(m2.vy_bits)) by {
        assert forall|k: int| 0 <= k < 4 implies le_bytes_of_u32(m1.vy_bits)[k] == le_bytes_of_u32(
            m2.vy_bits,
        )[k] by {
            assert(move_payload_bytes(m1)[4 + k] == le_bytes_of_u32(m1.vy_bits)[k]);
            assert(move_payload_bytes(m2)[4 + k] == le_bytes_of_u32(m2.vy_bits)[k]);
        }
    }
    crate::codec::lemma_le_bytes_injective(m1.vx_bits, m2.vx_bits);
    crate::codec::lemma_le_bytes_injective(m1.vy_bits, m2.vy_bits);
    assert(m1.target == move_payload_bytes(m1)[8]);
    assert(m2.target == move_payload_bytes(m2)[8]);
}

/// Framing round trip: decoding an encoded frame gives back the same
/// message kind and payload, whatever they were.
pub proof fn lemma_frame_round_trip(t: MessageType, payload: Seq<u8>)
    ensures
        frame_bytes(t, payload).len() >= 1,
        frame_bytes(t, payload)[0] == spec_tag(t),
        frame_bytes(t, payload).subrange(1, frame_bytes(t, payload).len() as int) == payload,
{
    assert(frame_bytes(t, payload).subrange(1, frame_bytes(t, payload).len() as int)
        =~= payload);
}

} // verus!
