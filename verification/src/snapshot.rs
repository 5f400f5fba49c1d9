//! Snapshot serialization for the soccer world.
//!
//! A snapshot is the fixed-layout byte image of the world's positions that
//! a state reply carries: each puck's (x, y) in slot order, then the
//! ball's (x, y), each coordinate as the four little-endian bytes of an
//! IEEE-754 single-precision value. The length is exactly eight bytes per
//! body — `8 * (puck count + 1)` in all. This layout is the wire contract
//! for state replies and round-trips bit for bit.

use vstd::prelude::*;

use crate::codec::le_bytes_of_u32;
use crate::codec::lemma_le_bytes_injective;
use crate::codec::push_u32_le;
use crate::codec::read_u32_le;

verus! {

/// One body's position, each coordinate as the bit pattern of an IEEE-754
/// single-precision value.
#[derive(Clone, Copy, Debug, PartialEq, Eq, Structural)]
pub struct BodyPosition {
    pub x_bits: u32,
    pub y_bits: u32,
}

/// The eight snapshot bytes of one body: x then y, little-endian.
pub open spec fn body_bytes(b: BodyPosition) -> Seq<u8> {
    le_bytes_of_u32(b.x_bits) + le_bytes_of_u32(b.y_bits)
}

/// The snapshot bytes of a sequence of bodies, in order.
pub open spec fn bodies_bytes(bs: Seq<BodyPosition>) -> Seq<u8>
    decreases bs.len(),
{
    if bs.len() == 0 {
        Seq::empty()
    } else {
        bodies_bytes(bs.drop_last()) + body_bytes(bs.last())
    }
}

/// The full snapshot image: every puck in slot order, then the ball.
pub open spec fn snapshot_bytes(pucks: Seq<BodyPosition>, ball: BodyPosition) -> Seq<u8> {
    bodies_bytes(pucks.push(ball))
}

/// A sequence of bodies serializes to exactly eight bytes per body.
pub proof fn lemma_bodies_bytes_len(bs: Seq<BodyPosition>)
    ensures
        bodies_bytes(bs).len() == 8 * bs.len(),
    decreases bs.len(),
{
    if bs.len() > 0 {
        lemma_bodies_bytes_len(bs.drop_last());
    }
}

/// Serializes the snapshot of a soccer world: each puck's position in slot
/// order, then the ball's, eight bytes per body, `8 * (pucks + 1)` in all.
pub fn serialize_snapshot(pucks: &Vec<BodyPosition>, ball: &BodyPosition) -> (data: Vec<u8>)
    ensures
        data@ == snapshot_bytes(pucks@, *ball),
        data@.len() == 8 * (pucks@.len() + 1),
{
    let mut data: Vec<u8> = Vec::new();
    let mut i: usize = 0;
    while i < pucks.len()
        invariant
            i <= pucks@.len(),
            data@ == bodies_bytes(pucks@.subrange(0, i as int)),
        decreases pucks@.len() - i,
    {
        push_u32_le(&mut data, pucks[i].x_bits);
        push_u32_le(&mut data, pucks[i].y_bits);
        i = i + 1;
        proof {
            assert(pucks@.subrange(0, i as int).drop_last() =~= pucks@.subrange(0, i - 1));
            assert(data@ =~= bodies_bytes(pucks@.subrange(0, i as int)));
        }
    }
    push_u32_le(&mut data, ball.x_bits);
    push_u32_le(&mut data, ball.y_bits);
    proof {
        assert(pucks@.subrange(0, pucks@.len() as int) =~= pucks@);
        assert(pucks@.push(*ball).drop_last() =~= pucks@);
        assert(data@ =~= bodies_bytes(pucks@.push(*ball)));
        lemma_bodies_bytes_len(pucks@.push(*ball));
    }
    data
}

/// Decodes a snapshot back into puck positions and a ball position.
/// Succeeds exactly on a byte sequence of nonzero length divisible by
/// eight; everything before the final eight bytes is the pucks, in slot
/// order, and the final eight bytes are the ball.
pub fn decode_snapshot(data: &[u8]) -> (r: Option<(Vec<BodyPosition>, BodyPosition)>)
    ensures
        r is Some <==> (data@.len() >= 8 && data@.len() % 8 == 0),
        r matches Some(d) ==> {
            &&& data@ == snapshot_bytes(d.0@, d.1)
            &&& d.0@.len() == data@.len() / 8 - 1
        },
{
    if data.len() < 8 || data.len() % 8 != 0 {
        return None;
    }
    let count: usize = data.len() / 8;
    let mut bodies: Vec<BodyPosition> = Vec::new();
    let mut i: usize = 0;
    while i < count
        invariant
            i <= count,
            count == data@.len() / 8,
            data@.len() >= 8,
            data@.len() % 8 == 0,
            bodies@.len() == i,
            bodies_bytes(bodies@) == data@.subrange(0, 8 * i as int),
        decreases count - i,
    {
        let n: usize = data.len();
        assert(8 * i + 8 <= n) by (nonlinear_arith)
            requires
                i < count,
                count == n / 8,
                n % 8 == 0,
        ;
        let x_bits = read_u32_le(data, 8 * i);
        let y_bits = read_u32_le(data, 8 * i + 4);
        let b = BodyPosition { x_bits, y_bits };
        let ghost prev = bodies@;
        bodies.push(b);
        i = i + 1;
        proof {
            assert(prev.push(b).drop_last() =~= prev);
            assert(body_bytes(b) =~= data@.subrange(8 * (i - 1), 8 * i as int));
            assert(data@.subrange(0, 8 * (i - 1)) + data@.subrange(8 * (i - 1), 8 * i as int)
                =~= data@.subrange(0, 8 * i as int));
        }
    }
    proof {
        assert(data@.subrange(0, 8 * count as int) =~= data@) by {
            assert(8 * count == data@.len()) by (nonlinear_arith)
                requires
                    count == data@.len() / 8,
                    data@.len() % 8 == 0,
            ;
        }
    }
    let ghost all = bodies@;
    let ball = bodies.pop().unwrap();
    proof {
        assert(bodies@.push(ball) =~= all);
    }
    Some((bodies, ball))
}

/// Bodies with the same byte image are the same bodies: the snapshot
/// encoding is injective, so a snapshot round-trips bit for bit.
pub proof fn lemma_bodies_bytes_injective(s1: Seq<BodyPosition>, s2: Seq<BodyPosition>)
    requires
        bodies_bytes(s1) == bodies_bytes(s2),
    ensures
        s1 == s2,
    decreases s1.len(),
{
    lemma_bodies_bytes_len(s1);
    lemma_bodies_bytes_len(s2);
    if s1.len() == 0 {
        assert(s1 =~= s2);
    } else {
        let b1 = s1.last();
        let b2 = s2.last();
        let r1 = bodies_bytes(s1.drop_last());
        let r2 = bodies_bytes(s2.drop_last());
        lemma_bodies_bytes_len(s1.drop_last());
        lemma_bodies_bytes_len(s2.drop_last());
        assert(r1 =~= r2) by {
            assert forall|k: int| 0 <= k < r1.len() implies r1[k] == r2[k] by {
                assert(r1[k] == bodies_bytes(s1)[k]);
                assert(r2[k] == bodies_bytes(s2)[k]);
            }
        }
        assert(body_bytes(b1) =~= body_bytes(b2)) by {
            assert forall|k: int| 0 <= k < 8 implies body_bytes(b1)[k] == body_bytes(b2)[k] by {
                assert(body_bytes(b1)[k] == bodies_bytes(s1)[r1.len() + k]);
                assert(body_bytes(b2)[k] == bodies_bytes(s2)[r2.len() + k]);
            }
        }
        assert(le_bytes_of_u32(b1.x_bits) =~= le_bytes_of_u32(b2.x_bits)) by {
            assert forall|k: int| 0 <= k < 4 implies le_bytes_of_u32(b1.x_bits)[k]
                == le_bytes_of_u32(b2.x_bits)[k] by {
                assert(le_bytes_of_u32(b1.x_bits)[k] == body_bytes(b1)[k]);
                assert(le_bytes_of_u32(b2.x_bits)[k] == body_bytes(b2)[k]);
            }
        }
        assert(le_bytes_of_u32(b1.y_bits) =~= le_bytes_of_u32(b2.y_bits)) by {
            assert forall|k: int| 0 <= k < 4 implies le_bytes_of_u32(b1.y_bits)[k]
                == le_bytes_of_u32(b2.y_bits)[k] by {
                assert(le_bytes_of_u32(b1.y_bits)[k] == body_bytes(b1)[4 + k]);
                assert(le_bytes_of_u32(b2.y_bits)[k] == body_bytes(b2)[4 + k]);
            }
        }
        lemma_le_bytes_injective(b1.x_bits, b2.x_bits);
        lemma_le_bytes_injective(b1.y_bits, b2.y_bits);
        lemma_bodies_bytes_injective(s1.drop_last(), s2.drop_last());
        assert(s1 =~= s1.drop_last().push(b1));
        assert(s2 =~= s2.drop_last().push(b2));
    }
}

/// Snapshot round trip: two worlds with the same snapshot bytes hold
/// exactly the same positions, puck for puck and for the ball. Together
/// with the exact byte image that `serialize_snapshot` and
/// `decode_snapshot` state, decoding an encoded snapshot reproduces the
/// encoded positions bit for bit.
pub proof fn lemma_snapshot_round_trip(
    p1: Seq<BodyPosition>,
    b1: BodyPosition,
    p2: Seq<BodyPosition>,
    b2: BodyPosition,
)
    requires
        snapshot_bytes(p1, b1) == snapshot_bytes(p2, b2),
    ensures
        p1 == p2,
        b1 == b2,
{
    lemma_bodies_bytes_injective(p1.push(b1), p2.push(b2));
    lemma_bodies_bytes_len(p1.push(b1));
    lemma_bodies_bytes_len(p2.push(b2));
    assert(p1 =~= p2) by {
        assert(p1.push(b1).drop_last() =~= p1);
        assert(p2.push(b2).drop_last() =~= p2);
    }
    assert(b1 == p1.push(b1).last());
    assert(b2 == p2.push(b2).last());
}

} // verus!
