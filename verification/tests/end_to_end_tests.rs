//! One client exchange traced through the library's decisions: a move is
//! routed to a puck, a tick's elapsed time is booked, the world is
//! stepped by the kernel formula, and the snapshot shows the advanced
//! position. The floating-point integration itself lives outside the
//! library, so this test performs that one step here, exactly as the
//! kernel states it: position advances by velocity times the time scale,
//! then velocity is damped and dead-zone clamped.

use soccer_server::kinematics::clamp_f64;
use soccer_server::message::MessageType;
use soccer_server::message::SoccerMoveMessage;
use soccer_server::message::WsMessage;
use soccer_server::registry::JoinOutcome;
use soccer_server::registry::Registry;
use soccer_server::router::route_message;
use soccer_server::router::RouteAction;
use soccer_server::snapshot::decode_snapshot;
use soccer_server::snapshot::serialize_snapshot;
use soccer_server::snapshot::BodyPosition;
use soccer_server::PUCK_COUNT;
use soccer_server::SOCCER_KIND;

const FRICTION: f64 = 0.999;

#[derive(Clone, Copy)]
struct Body {
    x: f64,
    y: f64,
    vx: f64,
    vy: f64,
}

fn integrate(b: &mut Body, elapsed_ms: f64) {
    let s = 1000.0 / elapsed_ms;
    b.x += b.vx * s;
    b.y += b.vy * s;
    b.vx = f64::from_bits(clamp_f64((b.vx * s * FRICTION).to_bits()));
    b.vy = f64::from_bits(clamp_f64((b.vy * s * FRICTION).to_bits()));
}

#[test]
fn a_move_then_a_tick_shows_up_in_the_snapshot() {
    // Matchmaking: the client joins a fresh session.
    let mut reg = Registry::new();
    let joined = reg.find_or_create(None, 1, 1_000);
    let slot = match joined {
        JoinOutcome::Joined { slot, .. } => slot,
        other => panic!("join failed: {:?}", other),
    };
    assert_eq!(slot, 0);

    // The world: pucks at rest, positions irrelevant beyond puck zero.
    let mut pucks = [Body {
        x: -200.0,
        y: -200.0,
        vx: 0.0,
        vy: 0.0,
    }; PUCK_COUNT];
    let ball = Body {
        x: 0.0,
        y: 0.0,
        vx: 0.0,
        vy: 0.0,
    };
    let x_before = pucks[0].x;

    // The client sends a move for its first puck.
    let mv = SoccerMoveMessage {
        vx_bits: 5.0f32.to_bits(),
        vy_bits: 0.0f32.to_bits(),
        target: 0,
    };
    let frame = WsMessage {
        msg_type: MessageType::SoccerMove,
        payload: mv.to_payload(),
    }
    .to_bytes();
    let decoded = WsMessage::from_bytes(&frame).unwrap();
    match route_message(&decoded, SOCCER_KIND, slot) {
        RouteAction::ApplyMove {
            puck_index,
            vx_bits,
            vy_bits,
        } => {
            pucks[puck_index].vx = f32::from_bits(vx_bits) as f64;
            pucks[puck_index].vy = f32::from_bits(vy_bits) as f64;
        }
        other => panic!("unexpected action: {:?}", other),
    }

    // One tick, sixteen milliseconds after the session was created.
    let elapsed = reg.tick(1, 1_016).unwrap().unwrap();
    assert_eq!(elapsed, 16);
    for p in pucks.iter_mut() {
        integrate(p, elapsed as f64);
    }

    // The snapshot shows the first puck advanced by velocity times the
    // time scale: 5 * (1000 / 16).
    let positions: Vec<BodyPosition> = pucks
        .iter()
        .map(|p| BodyPosition {
            x_bits: (p.x as f32).to_bits(),
            y_bits: (p.y as f32).to_bits(),
        })
        .collect();
    let ball_pos = BodyPosition {
        x_bits: (ball.x as f32).to_bits(),
        y_bits: (ball.y as f32).to_bits(),
    };
    let snapshot = serialize_snapshot(&positions, &ball_pos);
    assert_eq!(snapshot.len(), 8 * (PUCK_COUNT + 1));
    let (back, _) = decode_snapshot(&snapshot).unwrap();
    let x_after = f32::from_bits(back[0].x_bits);
    let expected = x_before + 5.0 * (1000.0 / 16.0);
    assert!((x_after as f64 - expected).abs() < 1e-3);

    // The damped velocity is far above the dead zone, so it survives the
    // clamp with unchanged magnitude.
    assert_eq!(pucks[0].vx, 5.0 * (1000.0 / 16.0) * FRICTION);
}
