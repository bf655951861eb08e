use sneaky_reader::config::{Control, ControlBasic, ControlBasicMode};
use sneaky_reader::control::{Button, InputEvent, Key, KeyButton, UpDown};
use sneaky_reader::fsm::{Fsm, FsmState, Gesture};
use sneaky_reader::listener::{FrontendListenState, Listener};

fn setup(mode: ControlBasicMode) -> (Listener, FrontendListenState, Fsm) {
    let mut fsm = Fsm::new();
    fsm.set_with_control(&Control {
        is_advanced: false,
        basic: ControlBasic {
            mode,
            show_hide: KeyButton::Key(Key::ControlLeft),
            next_page: KeyButton::WheelDown,
            prev_page: KeyButton::WheelUp,
        },
    });
    let state = FrontendListenState { name: String::new(), allow_wheel: false };
    (Listener::new(), state, fsm)
}

#[test]
fn repeated_press_is_forwarded_once() {
    let (mut l, mut s, mut fsm) = setup(ControlBasicMode::Simple);
    let press = InputEvent::KeyPress(Key::ControlLeft);
    assert_eq!(l.callback(press, &mut s, &mut fsm, 0).command, Some(Gesture::Show));
    // auto-repeat of a held key: dropped, so it does not hide
    assert_eq!(l.callback(press, &mut s, &mut fsm, 10).command, None);
    assert_eq!(fsm.state(), FsmState::Active);
    assert_eq!(l.direction(KeyButton::Key(Key::ControlLeft)), UpDown::Down);
    l.callback(InputEvent::KeyRelease(Key::ControlLeft), &mut s, &mut fsm, 20);
    assert_eq!(l.direction(KeyButton::Key(Key::ControlLeft)), UpDown::Up);
    assert_eq!(l.callback(press, &mut s, &mut fsm, 30).command, Some(Gesture::Hide));
}

#[test]
fn release_of_unseen_key_is_dropped() {
    let (mut l, mut s, mut fsm) = setup(ControlBasicMode::Safe);
    let out = l.callback(InputEvent::KeyRelease(Key::KeyA), &mut s, &mut fsm, 0);
    assert!(out.command.is_none() && out.captured.is_none());
    assert_eq!(l.direction(KeyButton::Key(Key::KeyA)), UpDown::Up);
}

#[test]
fn wheel_ticks_always_pass() {
    let (mut l, mut s, mut fsm) = setup(ControlBasicMode::Safe);
    l.callback(InputEvent::KeyPress(Key::ControlLeft), &mut s, &mut fsm, 0);
    let tick = InputEvent::Wheel { delta_x: 0, delta_y: -1 };
    assert_eq!(l.callback(tick, &mut s, &mut fsm, 10).command, Some(Gesture::NextPage));
    assert_eq!(l.callback(tick, &mut s, &mut fsm, 20).command, Some(Gesture::NextPage));
    let back = InputEvent::Wheel { delta_x: 3, delta_y: 2 };
    assert_eq!(l.callback(back, &mut s, &mut fsm, 30).command, Some(Gesture::PrevPage));
}

#[test]
fn unmapped_events_are_dropped() {
    assert_eq!(KeyButton::from_event(InputEvent::KeyPress(Key::Escape)), None);
    assert_eq!(KeyButton::from_event(InputEvent::MouseMove), None);
    assert_eq!(KeyButton::from_event(InputEvent::Wheel { delta_x: 5, delta_y: 0 }), None);
    assert_eq!(
        KeyButton::from_event(InputEvent::ButtonRelease(Button::Unknown(8))),
        Some(KeyButton::Button(Button::Unknown(8)))
    );
    assert_eq!(InputEvent::ButtonRelease(Button::Left).direction(), UpDown::Up);
    assert_eq!(InputEvent::Wheel { delta_x: 0, delta_y: -4 }.direction(), UpDown::Down);
}

#[test]
fn press_answers_binding_request_once() {
    let (mut l, mut s, mut fsm) = setup(ControlBasicMode::Safe);
    s.name = String::from("next_page");
    let out = l.callback(InputEvent::KeyPress(Key::KeyQ), &mut s, &mut fsm, 0);
    let info = out.captured.expect("captured");
    assert_eq!(info.name, "next_page");
    assert_eq!(info.key_button, KeyButton::Key(Key::KeyQ));
    assert!(s.name.is_empty());
    let out = l.callback(InputEvent::KeyPress(Key::KeyW), &mut s, &mut fsm, 10);
    assert!(out.captured.is_none());
}

#[test]
fn left_button_and_unallowed_wheel_do_not_answer() {
    let (mut l, mut s, mut fsm) = setup(ControlBasicMode::Safe);
    s.name = String::from("show_hide");
    let out = l.callback(InputEvent::ButtonPress(Button::Left), &mut s, &mut fsm, 0);
    assert!(out.captured.is_none());
    let out = l.callback(InputEvent::Wheel { delta_x: 0, delta_y: 1 }, &mut s, &mut fsm, 10);
    assert!(out.captured.is_none());
    assert_eq!(s.name, "show_hide");
    s.allow_wheel = true;
    let out = l.callback(InputEvent::Wheel { delta_x: 0, delta_y: 1 }, &mut s, &mut fsm, 20);
    assert_eq!(out.captured.map(|i| i.key_button), Some(KeyButton::WheelUp));
    assert!(s.allow_wheel);
}

#[test]
fn release_does_not_answer_binding_request() {
    let (mut l, mut s, mut fsm) = setup(ControlBasicMode::Safe);
    l.callback(InputEvent::KeyPress(Key::KeyZ), &mut s, &mut fsm, 0);
    s.name = String::from("prev_page");
    let out = l.callback(InputEvent::KeyRelease(Key::KeyZ), &mut s, &mut fsm, 10);
    assert!(out.captured.is_none());
    assert_eq!(s.name, "prev_page");
}
