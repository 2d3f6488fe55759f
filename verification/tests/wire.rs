use pointer_session::codec::Decoded;
use pointer_session::codec::decode;
use pointer_session::codec::encode;
use pointer_session::command::Command;
use pointer_session::command::Mouse;

fn frame(s: &str) -> Vec<u8> {
    s.as_bytes().to_vec()
}

#[test]
fn encode_move_exact_bytes() {
    let bytes = encode(&Command::Move { x: 12, y: -7 });
    assert_eq!(bytes, frame("{\"type\":\"move\",\"x\":12,\"y\":-7}"));
}

#[test]
fn encode_click_left_exact_bytes() {
    let bytes = encode(&Command::Click(Mouse::Left));
    assert_eq!(bytes, frame("{\"type\":\"click_left\"}"));
}

#[test]
fn encode_click_right_exact_bytes() {
    let bytes = encode(&Command::Click(Mouse::Right));
    assert_eq!(bytes, frame("{\"type\":\"click_right\"}"));
}

#[test]
fn round_trip_move() {
    let bytes = encode(&Command::Move { x: 12, y: -7 });
    assert_eq!(decode(&bytes), Decoded::Cmd(Command::Move { x: 12, y: -7 }));
}

#[test]
fn round_trip_move_extremes() {
    for &(x, y) in &[(i32::MIN, i32::MAX), (0, 0), (-1, 1), (1000000, -1000000)] {
        let bytes = encode(&Command::Move { x, y });
        assert_eq!(decode(&bytes), Decoded::Cmd(Command::Move { x, y }));
    }
}

#[test]
fn round_trip_clicks() {
    for &b in &[Mouse::Left, Mouse::Right] {
        let bytes = encode(&Command::Click(b));
        assert_eq!(decode(&bytes), Decoded::Cmd(Command::Click(b)));
    }
}

#[test]
fn decode_tolerates_whitespace_and_member_order() {
    let bytes = frame(" { \"x\" : -5 , \"y\" : 7 , \"type\" : \"move\" } ");
    assert_eq!(decode(&bytes), Decoded::Cmd(Command::Move { x: -5, y: 7 }));
}

#[test]
fn decode_move_with_string_offset_is_malformed() {
    let bytes = frame("{\"type\": \"move\", \"x\": \"oops\"}");
    assert_eq!(decode(&bytes), Decoded::Malformed);
}

#[test]
fn decode_move_missing_axis_is_malformed() {
    let bytes = frame("{\"type\":\"move\",\"x\":1}");
    assert_eq!(decode(&bytes), Decoded::Malformed);
}

#[test]
fn decode_move_overflowing_axis_is_malformed() {
    let bytes = frame("{\"type\":\"move\",\"x\":2147483648,\"y\":0}");
    assert_eq!(decode(&bytes), Decoded::Malformed);
    let bytes = frame("{\"type\":\"move\",\"x\":0,\"y\":-2147483649}");
    assert_eq!(decode(&bytes), Decoded::Malformed);
    let bytes = frame("{\"type\":\"move\",\"x\":2147483647,\"y\":-2147483648}");
    assert_eq!(
        decode(&bytes),
        Decoded::Cmd(Command::Move { x: i32::MAX, y: i32::MIN })
    );
}

#[test]
fn decode_leading_zero_is_malformed() {
    let bytes = frame("{\"type\":\"move\",\"x\":01,\"y\":2}");
    assert_eq!(decode(&bytes), Decoded::Malformed);
    let bytes = frame("{\"type\":\"move\",\"x\":0,\"y\":2}");
    assert_eq!(decode(&bytes), Decoded::Cmd(Command::Move { x: 0, y: 2 }));
}

#[test]
fn decode_non_object_is_malformed() {
    assert_eq!(decode(&frame("not json")), Decoded::Malformed);
    assert_eq!(decode(&frame("")), Decoded::Malformed);
    assert_eq!(decode(&frame("42")), Decoded::Malformed);
    assert_eq!(decode(&frame("{\"type\":\"click_left\"")), Decoded::Malformed);
    assert_eq!(decode(&frame("{\"type\":\"click_left\"}x")), Decoded::Malformed);
}

#[test]
fn decode_unknown_discriminant_is_ignored() {
    assert_eq!(decode(&frame("{\"type\":\"wheel\"}")), Decoded::Unknown);
    assert_eq!(decode(&frame("{}")), Decoded::Unknown);
    assert_eq!(decode(&frame("{\"type\":5}")), Decoded::Unknown);
    assert_eq!(decode(&frame("{\"kind\":\"move\"}")), Decoded::Unknown);
}
