use pointer_session::codec::encode;
use pointer_session::command::Command;
use pointer_session::command::Mouse;
use pointer_session::session::CLIENT_TIMEOUT_MS;
use pointer_session::session::Frame;
use pointer_session::session::Session;
use pointer_session::session::SinkCall;

fn frame(s: &str) -> Vec<u8> {
    s.as_bytes().to_vec()
}

#[test]
fn ping_refreshes_liveness_and_echoes_payload() {
    let mut s = Session::new(0);
    let out = s.handle(Frame::Ping(vec![1, 2, 3]), 42);
    assert_eq!(s.last_heartbeat, 42);
    assert_eq!(out.pong_reply, Some(vec![1, 2, 3]));
    assert!(out.sink.is_none());
    assert!(!out.stop);
}

#[test]
fn pong_refreshes_liveness_only() {
    let mut s = Session::new(0);
    let out = s.handle(Frame::Pong, 17);
    assert_eq!(s.last_heartbeat, 17);
    assert!(out.pong_reply.is_none());
    assert!(out.sink.is_none());
    assert!(!out.stop);
}

#[test]
fn silent_session_is_terminated_by_next_check() {
    let s = Session::new(1000);
    assert!(!s.liveness_check(1000 + CLIENT_TIMEOUT_MS));
    assert!(s.liveness_check(1000 + CLIENT_TIMEOUT_MS + 1));
}

#[test]
fn recent_pong_survives_check() {
    // A pong just before the deadline keeps the session alive through the
    // next check inside the timeout window.
    let mut s = Session::new(0);
    let t_pong = CLIENT_TIMEOUT_MS - 1;
    s.handle(Frame::Pong, t_pong);
    assert!(!s.liveness_check(t_pong + CLIENT_TIMEOUT_MS));
    assert!(s.liveness_check(t_pong + CLIENT_TIMEOUT_MS + 1));
}

#[test]
fn move_frame_reaches_the_sink() {
    let mut s = Session::new(0);
    let out = s.handle(Frame::Text(encode(&Command::Move { x: 12, y: -7 })), 5);
    assert_eq!(out.sink, Some(SinkCall::MoveRelative(12, -7)));
    assert!(out.pong_reply.is_none());
    assert!(!out.stop);
    // Text frames do not refresh the liveness timestamp.
    assert_eq!(s.last_heartbeat, 0);
}

#[test]
fn click_frame_produces_exactly_one_sink_call() {
    let mut s = Session::new(0);
    let out = s.handle(Frame::Text(frame("{\"type\":\"click_left\"}")), 5);
    assert_eq!(out.sink, Some(SinkCall::ClickButton(Mouse::Left)));
    assert!(out.pong_reply.is_none());
    assert!(!out.stop);
    let out = s.handle(Frame::Text(frame("{\"type\":\"click_right\"}")), 6);
    assert_eq!(out.sink, Some(SinkCall::ClickButton(Mouse::Right)));
}

#[test]
fn malformed_frame_is_dropped_and_session_continues() {
    let mut s = Session::new(0);
    let out = s.handle(Frame::Text(frame("{\"type\": \"move\", \"x\": \"oops\"}")), 5);
    assert!(out.sink.is_none());
    assert!(!out.stop);
    assert_eq!(s.last_heartbeat, 0);
    // The next valid frame is still processed normally.
    let out = s.handle(Frame::Text(encode(&Command::Move { x: 1, y: 2 })), 6);
    assert_eq!(out.sink, Some(SinkCall::MoveRelative(1, 2)));
    assert!(!out.stop);
}

#[test]
fn unknown_discriminant_is_silently_ignored() {
    let mut s = Session::new(0);
    let out = s.handle(Frame::Text(frame("{\"type\":\"wheel\",\"delta\":3}")), 5);
    assert!(out.sink.is_none());
    assert!(!out.stop);
}

#[test]
fn binary_frame_is_ignored() {
    let mut s = Session::new(0);
    let out = s.handle(Frame::Binary(vec![0, 159, 146, 150]), 5);
    assert!(out.sink.is_none());
    assert!(out.pong_reply.is_none());
    assert!(!out.stop);
    assert_eq!(s.last_heartbeat, 0);
}

#[test]
fn close_and_error_terminate_immediately() {
    let mut s = Session::new(0);
    let out = s.handle(Frame::Close, 5);
    assert!(out.stop);
    let mut s = Session::new(0);
    let out = s.handle(Frame::ProtocolError, 5);
    assert!(out.stop);
}

#[test]
fn sender_frames_drive_the_receiver_sink() {
    // Full round trip over the pair of state machines.
    let mut tx = pointer_session::transmitter::Transmitter::new();
    tx.link.on_open();
    tx.activate();
    tx.update(2000, -2000, true);
    let out = tx.start_move();
    let bytes = out.frame.expect("tick should emit");
    let mut rx = Session::new(0);
    let handled = rx.handle(Frame::Text(bytes), 1);
    assert_eq!(handled.sink, Some(SinkCall::MoveRelative(100, -100)));
}
