use pointer_session::codec::Decoded;
use pointer_session::codec::decode;
use pointer_session::command::Command;
use pointer_session::command::Mouse;
use pointer_session::controller::Controller;
use pointer_session::controller::StartOutcome;
use pointer_session::layout::Element;
use pointer_session::layout::Layout;
use pointer_session::link::ChannelState;
use pointer_session::link::LinkManager;
use pointer_session::transform::adapt;
use pointer_session::transform::clamp;
use pointer_session::transmitter::Transmitter;

#[test]
fn transform_exact_values() {
    // adapt(v) = sign(v) * (|v| * 10)^2 / 2000^2, truncated.
    assert_eq!(adapt(0), 0);
    assert_eq!(adapt(199), 0);
    assert_eq!(adapt(200), 1);
    assert_eq!(adapt(310), 2);
    assert_eq!(adapt(500), 6);
    assert_eq!(adapt(2000), 100);
}

#[test]
fn transform_is_odd() {
    for &v in &[1, 7, 199, 200, 500, 12345, i32::MAX, i32::MIN + 1] {
        assert_eq!(adapt(-v), -adapt(v));
    }
}

#[test]
fn clamp_saturates_symmetrically() {
    assert_eq!(clamp(3_000_000_000), i32::MAX);
    assert_eq!(clamp(-3_000_000_000), -i32::MAX);
    assert_eq!(clamp(41), 41);
    assert_eq!(clamp(-41), -41);
}

#[test]
fn reconnect_is_idempotent_while_open() {
    let mut link = LinkManager::new();
    assert_eq!(link.state, ChannelState::Connecting);
    assert_eq!(link.generation, 1);
    link.on_open();
    link.reconnect();
    link.reconnect();
    assert_eq!(link.state, ChannelState::Open);
    assert_eq!(link.generation, 1);
}

#[test]
fn reconnect_replaces_closed_handle() {
    let mut link = LinkManager::new();
    link.on_open();
    link.on_close();
    link.reconnect();
    assert_eq!(link.state, ChannelState::Connecting);
    assert_eq!(link.generation, 2);
}

#[test]
fn update_overwrites_unconditionally() {
    let mut t = Transmitter::new();
    t.update(3, 4, true);
    assert_eq!(t.coordinates.x, 3);
    assert_eq!(t.coordinates.y, 4);
    assert!(t.should_emit);
    t.update(-9, 0, false);
    assert_eq!(t.coordinates.x, -9);
    assert_eq!(t.coordinates.y, 0);
    assert!(!t.should_emit);
}

#[test]
fn tick_emits_only_when_active_enabled_and_open() {
    let mut t = Transmitter::new();
    t.update(500, -500, true);
    // Channel still connecting: no frame.
    t.activate();
    assert!(t.start_move().frame.is_none());
    // Open but not activated: no frame, no reschedule.
    t.link.on_open();
    t.deactivate();
    let out = t.start_move();
    assert!(out.frame.is_none());
    assert!(!out.reschedule);
    // Open, activated, emission enabled: the curved frame.
    t.activate();
    let out = t.start_move();
    assert!(out.reschedule);
    let frame = out.frame.expect("tick should emit");
    assert_eq!(decode(&frame), Decoded::Cmd(Command::Move { x: 6, y: -6 }));
}

#[test]
fn tick_sends_nothing_with_emission_disabled() {
    let mut t = Transmitter::new();
    t.link.on_open();
    t.activate();
    t.update(500, 500, false);
    let out = t.start_move();
    assert!(out.frame.is_none());
    assert!(out.reschedule);
}

#[test]
fn click_is_immediate_and_independent_of_gesture() {
    let t = Transmitter::new();
    // Not activated, emission disabled, channel merely connecting.
    let frame = t.click(Mouse::Left).expect("click should encode");
    assert_eq!(decode(&frame), Decoded::Cmd(Command::Click(Mouse::Left)));
}

#[test]
fn click_on_closed_channel_is_noop() {
    let mut t = Transmitter::new();
    t.link.on_close();
    assert!(t.click(Mouse::Right).is_none());
}

#[test]
fn deactivate_heals_closed_channel_lazily() {
    let mut t = Transmitter::new();
    t.link.on_open();
    t.deactivate();
    assert_eq!(t.link.generation, 1);
    assert_eq!(t.link.state, ChannelState::Open);
    t.link.on_close();
    t.deactivate();
    assert_eq!(t.link.state, ChannelState::Connecting);
    assert_eq!(t.link.generation, 2);
}

#[test]
fn layout_of_square_canvas() {
    let lay = Layout::new(1000, 1000);
    assert_eq!(lay.center.x, 500);
    assert_eq!(lay.center.y, 390);
    assert_eq!(lay.center_radius, 110);
    assert_eq!(lay.button_left.coordinates.x, 175);
    assert_eq!(lay.button_left.coordinates.y, 600);
    assert_eq!(lay.button_left.width, 300);
    assert_eq!(lay.button_left.height, 150);
    assert_eq!(lay.button_right.coordinates.x, 525);
    assert_eq!(lay.button_right.coordinates.y, 600);
}

#[test]
fn element_hit_distinguishes_surface() {
    let lay = Layout::new(1000, 1000);
    assert_eq!(lay.element_hit(500, 390), Some(Element::Center));
    assert_eq!(lay.element_hit(500, 499), Some(Element::Center));
    assert_eq!(lay.element_hit(200, 650), Some(Element::ButtonLeft));
    assert_eq!(lay.element_hit(600, 650), Some(Element::ButtonRight));
    assert_eq!(lay.element_hit(0, 0), None);
    assert_eq!(lay.element_hit(500, 501), None);
}

#[test]
fn dead_zone_touch_never_emits() {
    // Touch start inside the dead zone, gesture stays inside: no frame on
    // any tick, whatever the activation flag says.
    let mut c = Controller::new(1000, 1000);
    c.transmitter.link.on_open();
    let start = c.on_touch_start(500, 390);
    assert!(matches!(start, StartOutcome::Gesture));
    assert!(c.transmitter.activated);
    assert!(!c.transmitter.should_emit);
    assert!(c.on_tick().frame.is_none());
    c.on_touch_move(505, 395);
    assert!(!c.transmitter.should_emit);
    assert!(c.on_tick().frame.is_none());
}

#[test]
fn gesture_inside_dead_zone_sends_nothing_even_after_late_exit() {
    // The whole gesture stays inside the dead zone; a stray move leaves it
    // only after the touch end already stopped the loop.
    let mut c = Controller::new(1000, 1000);
    c.transmitter.link.on_open();
    assert!(matches!(c.on_touch_start(500, 390), StartOutcome::Gesture));
    assert!(c.on_tick().frame.is_none());
    c.on_touch_move(510, 400);
    let out = c.on_tick();
    assert!(out.frame.is_none());
    assert!(out.reschedule);
    c.on_touch_end();
    assert!(!c.transmitter.activated);
    // A late move escapes the dead zone, but the gesture is over.
    c.on_touch_move(900, 900);
    assert!(c.transmitter.should_emit);
    let out = c.on_tick();
    assert!(out.frame.is_none());
    assert!(!out.reschedule);
}

#[test]
fn gesture_outside_dead_zone_emits_curved_offsets() {
    let mut c = Controller::new(1000, 1000);
    c.transmitter.link.on_open();
    assert!(matches!(c.on_touch_start(500, 390), StartOutcome::Gesture));
    c.on_touch_move(700, 390);
    // Offset is (200 + 110, 0 + 110); adapt gives (2, 0).
    assert_eq!(c.transmitter.coordinates.x, 310);
    assert_eq!(c.transmitter.coordinates.y, 110);
    let out = c.on_tick();
    let frame = out.frame.expect("tick should emit");
    assert_eq!(decode(&frame), Decoded::Cmd(Command::Move { x: 2, y: 0 }));
}

#[test]
fn touch_start_on_button_clicks() {
    let mut c = Controller::new(1000, 1000);
    match c.on_touch_start(200, 650) {
        StartOutcome::ClickFrame(Some(frame)) => {
            assert_eq!(decode(&frame), Decoded::Cmd(Command::Click(Mouse::Left)));
        },
        _ => panic!("expected a click frame"),
    }
    assert!(!c.transmitter.activated);
    match c.on_touch_start(600, 650) {
        StartOutcome::ClickFrame(Some(frame)) => {
            assert_eq!(decode(&frame), Decoded::Cmd(Command::Click(Mouse::Right)));
        },
        _ => panic!("expected a click frame"),
    }
}

#[test]
fn touch_start_on_nothing_is_ignored() {
    let mut c = Controller::new(1000, 1000);
    assert!(matches!(c.on_touch_start(0, 0), StartOutcome::Ignored));
    assert!(!c.transmitter.activated);
}
