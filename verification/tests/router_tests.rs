use soccer_server::message::MessageType;
use soccer_server::message::SoccerMoveMessage;
use soccer_server::message::WsMessage;
use soccer_server::router::route_message;
use soccer_server::router::RouteAction;
use soccer_server::SOCCER_KIND;

fn move_frame(vx: f32, vy: f32, target: u8) -> WsMessage {
    let m = SoccerMoveMessage {
        vx_bits: vx.to_bits(),
        vy_bits: vy.to_bits(),
        target,
    };
    WsMessage {
        msg_type: MessageType::SoccerMove,
        payload: m.to_payload(),
    }
}

#[test]
fn a_ping_is_answered_with_a_pong() {
    let msg = WsMessage {
        msg_type: MessageType::Ping,
        payload: vec![],
    };
    assert_eq!(route_message(&msg, SOCCER_KIND, 0), RouteAction::ReplyPong);
}

#[test]
fn a_pong_is_ignored() {
    let msg = WsMessage {
        msg_type: MessageType::Pong,
        payload: vec![],
    };
    assert_eq!(route_message(&msg, SOCCER_KIND, 0), RouteAction::Ignore);
}

#[test]
fn a_state_request_is_served_on_a_matching_world_kind() {
    let msg = WsMessage {
        msg_type: MessageType::State,
        payload: vec![],
    };
    assert_eq!(route_message(&msg, SOCCER_KIND, 1), RouteAction::ReplyState);
}

#[test]
fn a_kind_mismatch_fails_silently_not_fatally() {
    let state = WsMessage {
        msg_type: MessageType::State,
        payload: vec![],
    };
    assert_eq!(route_message(&state, 2, 0), RouteAction::Ignore);
    let mv = move_frame(1.0, 1.0, 0);
    assert_eq!(route_message(&mv, 2, 0), RouteAction::Ignore);
}

#[test]
fn a_move_reaches_the_senders_own_puck() {
    let msg = move_frame(5.0, 0.0, 0);
    assert_eq!(
        route_message(&msg, SOCCER_KIND, 0),
        RouteAction::ApplyMove {
            puck_index: 0,
            vx_bits: 5.0f32.to_bits(),
            vy_bits: 0.0f32.to_bits(),
        }
    );
    // The second participant's pucks start five slots later.
    let msg = move_frame(-2.0, 3.5, 4);
    assert_eq!(
        route_message(&msg, SOCCER_KIND, 1),
        RouteAction::ApplyMove {
            puck_index: 9,
            vx_bits: (-2.0f32).to_bits(),
            vy_bits: 3.5f32.to_bits(),
        }
    );
}

#[test]
fn velocities_are_applied_verbatim_with_no_speed_cap() {
    let msg = move_frame(1.0e30, -1.0e30, 1);
    assert_eq!(
        route_message(&msg, SOCCER_KIND, 0),
        RouteAction::ApplyMove {
            puck_index: 1,
            vx_bits: 1.0e30f32.to_bits(),
            vy_bits: (-1.0e30f32).to_bits(),
        }
    );
}

#[test]
fn a_malformed_move_closes_the_connection() {
    let msg = WsMessage {
        msg_type: MessageType::SoccerMove,
        payload: vec![1, 2, 3],
    };
    assert_eq!(
        route_message(&msg, SOCCER_KIND, 0),
        RouteAction::CloseConnection
    );
}

#[test]
fn a_move_addressing_no_puck_is_dropped() {
    // Slot 1 starts at puck five; a target of five points past the last
    // puck and the message is dropped rather than crash the session.
    let msg = move_frame(1.0, 0.0, 5);
    assert_eq!(route_message(&msg, SOCCER_KIND, 1), RouteAction::Ignore);
    let msg = move_frame(1.0, 0.0, 250);
    assert_eq!(route_message(&msg, SOCCER_KIND, 0), RouteAction::Ignore);
}
