use soccer_server::snapshot::decode_snapshot;
use soccer_server::snapshot::serialize_snapshot;
use soccer_server::snapshot::BodyPosition;
use soccer_server::PUCK_COUNT;

fn body(x: f32, y: f32) -> BodyPosition {
    BodyPosition {
        x_bits: x.to_bits(),
        y_bits: y.to_bits(),
    }
}

#[test]
fn soccer_snapshot_length_is_eight_bytes_per_body() {
    let pucks = vec![body(0.0, 0.0); PUCK_COUNT];
    let ball = body(0.0, 0.0);
    let data = serialize_snapshot(&pucks, &ball);
    assert_eq!(data.len(), 8 * (PUCK_COUNT + 1));
}

#[test]
fn snapshot_layout_is_little_endian_floats_in_slot_order() {
    let pucks = vec![body(-200.0, -200.0), body(-50.0, 150.0)];
    let ball = body(0.5, -1.25);
    let data = serialize_snapshot(&pucks, &ball);
    let mut expected = Vec::new();
    for b in [(-200.0f32, -200.0f32), (-50.0, 150.0), (0.5, -1.25)] {
        expected.extend_from_slice(&b.0.to_le_bytes());
        expected.extend_from_slice(&b.1.to_le_bytes());
    }
    assert_eq!(data, expected);
}

#[test]
fn snapshot_round_trip_is_bit_for_bit() {
    let pucks = vec![
        body(-200.0, -200.0),
        body(-200.0, 0.0),
        body(-200.0, 200.0),
        body(-50.0, -150.0),
        body(-50.0, 150.0),
        body(200.0, -200.0),
        body(200.0, 0.0),
        body(200.0, 200.0),
        body(50.0, 150.0),
        body(50.0, -150.0),
    ];
    let ball = body(0.0, 0.0);
    let data = serialize_snapshot(&pucks, &ball);
    let (back_pucks, back_ball) = decode_snapshot(&data).unwrap();
    assert_eq!(back_pucks, pucks);
    assert_eq!(back_ball, ball);
}

#[test]
fn snapshot_round_trip_keeps_awkward_values_exactly() {
    let pucks = vec![body(312.5, 1.0e-10), body(-0.0, f32::MIN_POSITIVE)];
    let ball = body(f32::MAX, -f32::MAX);
    let data = serialize_snapshot(&pucks, &ball);
    let (back_pucks, back_ball) = decode_snapshot(&data).unwrap();
    assert_eq!(back_pucks[0].x_bits, 312.5f32.to_bits());
    assert_eq!(back_pucks[1].x_bits, (-0.0f32).to_bits());
    assert_eq!(back_pucks, pucks);
    assert_eq!(back_ball, ball);
}

#[test]
fn a_ball_alone_is_eight_bytes() {
    let data = serialize_snapshot(&vec![], &body(3.0, 4.0));
    assert_eq!(data.len(), 8);
    let (back_pucks, back_ball) = decode_snapshot(&data).unwrap();
    assert!(back_pucks.is_empty());
    assert_eq!(back_ball, body(3.0, 4.0));
}

#[test]
fn malformed_snapshots_do_not_decode() {
    assert!(decode_snapshot(&[]).is_none());
    assert!(decode_snapshot(&[0; 7]).is_none());
    assert!(decode_snapshot(&[0; 9]).is_none());
    assert!(decode_snapshot(&[0; 12]).is_none());
    assert!(decode_snapshot(&[0; 16]).is_some());
}
