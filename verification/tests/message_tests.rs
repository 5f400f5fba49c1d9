use soccer_server::message::MessageType;
use soccer_server::message::SoccerMoveMessage;
use soccer_server::message::WsMessage;

#[test]
fn tag_bytes_match_the_wire_assignment() {
    assert_eq!(MessageType::Ping.as_u8(), 0);
    assert_eq!(MessageType::Pong.as_u8(), 1);
    assert_eq!(MessageType::State.as_u8(), 2);
    assert_eq!(MessageType::SoccerMove.as_u8(), 3);
}

#[test]
fn tag_decoding_accepts_known_and_rejects_unknown() {
    assert!(matches!(MessageType::from_u8(0), Some(MessageType::Ping)));
    assert!(matches!(MessageType::from_u8(1), Some(MessageType::Pong)));
    assert!(matches!(MessageType::from_u8(2), Some(MessageType::State)));
    assert!(matches!(
        MessageType::from_u8(3),
        Some(MessageType::SoccerMove)
    ));
    assert!(MessageType::from_u8(4).is_none());
    assert!(MessageType::from_u8(255).is_none());
}

#[test]
fn frame_encoding_prefixes_one_tag_byte() {
    let msg = WsMessage {
        msg_type: MessageType::State,
        payload: vec![9, 8, 7],
    };
    assert_eq!(msg.to_bytes(), vec![2, 9, 8, 7]);
}

#[test]
fn empty_payload_frames_are_one_byte() {
    let pong = WsMessage {
        msg_type: MessageType::Pong,
        payload: vec![],
    };
    assert_eq!(pong.to_bytes(), vec![1]);
}

#[test]
fn frame_round_trip_preserves_kind_and_payload() {
    let msg = WsMessage {
        msg_type: MessageType::SoccerMove,
        payload: vec![0, 1, 2, 3, 4, 5, 6, 7, 8],
    };
    let bytes = msg.to_bytes();
    let back = WsMessage::from_bytes(&bytes).unwrap();
    assert_eq!(back.msg_type.as_u8(), MessageType::SoccerMove.as_u8());
    assert_eq!(back.payload, vec![0, 1, 2, 3, 4, 5, 6, 7, 8]);
}

#[test]
fn empty_frames_and_unknown_tags_are_ignored() {
    assert!(WsMessage::from_bytes(&[]).is_none());
    assert!(WsMessage::from_bytes(&[4]).is_none());
    assert!(WsMessage::from_bytes(&[200, 1, 2]).is_none());
}

#[test]
fn known_tag_with_no_payload_decodes() {
    let m = WsMessage::from_bytes(&[0]).unwrap();
    assert_eq!(m.msg_type.as_u8(), 0);
    assert!(m.payload.is_empty());
}

#[test]
fn move_payload_is_nine_little_endian_bytes() {
    let m = SoccerMoveMessage {
        vx_bits: 5.0f32.to_bits(),
        vy_bits: 0.0f32.to_bits(),
        target: 2,
    };
    let bytes = m.to_payload();
    assert_eq!(bytes.len(), 9);
    let mut expected = Vec::new();
    expected.extend_from_slice(&5.0f32.to_le_bytes());
    expected.extend_from_slice(&0.0f32.to_le_bytes());
    expected.push(2);
    assert_eq!(bytes, expected);
}

#[test]
fn move_payload_round_trip_is_exact() {
    let m = SoccerMoveMessage {
        vx_bits: (-3.25f32).to_bits(),
        vy_bits: 1234.5f32.to_bits(),
        target: 9,
    };
    let back = SoccerMoveMessage::from_payload(&m.to_payload()).unwrap();
    assert_eq!(back, m);
    assert_eq!(f32::from_bits(back.vx_bits), -3.25f32);
    assert_eq!(f32::from_bits(back.vy_bits), 1234.5f32);
}

#[test]
fn undersized_move_payload_is_malformed() {
    assert!(SoccerMoveMessage::from_payload(&[]).is_none());
    assert!(SoccerMoveMessage::from_payload(&[0; 8]).is_none());
}

#[test]
fn trailing_move_payload_bytes_are_ignored() {
    let m = SoccerMoveMessage {
        vx_bits: 2.5f32.to_bits(),
        vy_bits: (-0.5f32).to_bits(),
        target: 0,
    };
    let mut bytes = m.to_payload();
    bytes.push(77);
    bytes.push(78);
    let back = SoccerMoveMessage::from_payload(&bytes).unwrap();
    assert_eq!(back, m);
}
