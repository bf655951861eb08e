use sneaky_reader::config::{Control, ControlBasic, ControlBasicMode};
use sneaky_reader::control::{Key, KeyButton, KeyButtonAction, UpDown};
use sneaky_reader::fsm::{Fsm, FsmState, Gesture};

const CTRL: KeyButton = KeyButton::Key(Key::ControlLeft);
const ALT: KeyButton = KeyButton::Key(Key::Alt);
const SHIFT: KeyButton = KeyButton::Key(Key::ShiftLeft);

fn basic(mode: ControlBasicMode) -> Fsm {
    let mut fsm = Fsm::new();
    fsm.set_with_control(&Control {
        is_advanced: false,
        basic: ControlBasic { mode, show_hide: CTRL, next_page: ALT, prev_page: SHIFT },
    });
    fsm
}

fn down(kb: KeyButton) -> KeyButtonAction {
    KeyButtonAction(kb, UpDown::Down)
}

fn up(kb: KeyButton) -> KeyButtonAction {
    KeyButtonAction(kb, UpDown::Up)
}

fn feed(fsm: &mut Fsm, a: KeyButtonAction, now: u64) -> Option<Gesture> {
    fsm.try_next_state(a.0, a.1, now)
}

#[test]
fn simple_mode_toggles_with_one_key() {
    let mut fsm = basic(ControlBasicMode::Simple);
    assert_eq!(fsm.state(), FsmState::Idle);
    assert_eq!(feed(&mut fsm, down(CTRL), 0), Some(Gesture::Show));
    assert_eq!(fsm.state(), FsmState::Active);
    assert_eq!(feed(&mut fsm, down(CTRL), 100), Some(Gesture::Hide));
    assert_eq!(fsm.state(), FsmState::Idle);
}

#[test]
fn safe_mode_shows_while_held() {
    let mut fsm = basic(ControlBasicMode::Safe);
    assert_eq!(feed(&mut fsm, down(CTRL), 0), Some(Gesture::Show));
    assert_eq!(fsm.state(), FsmState::Active);
    assert_eq!(feed(&mut fsm, up(CTRL), 5000), Some(Gesture::Hide));
    assert_eq!(fsm.state(), FsmState::Idle);
}

#[test]
fn very_safe_mode_needs_double_tap_and_hold() {
    let mut fsm = basic(ControlBasicMode::VerySafe);
    assert_eq!(feed(&mut fsm, down(CTRL), 0), None);
    assert_eq!(fsm.state(), FsmState::Approaching(Gesture::Show, 0));
    assert_eq!(feed(&mut fsm, up(CTRL), 100), None);
    assert_eq!(fsm.state(), FsmState::Approaching(Gesture::Show, 1));
    assert_eq!(feed(&mut fsm, down(CTRL), 200), Some(Gesture::Show));
    assert_eq!(fsm.state(), FsmState::Active);
    assert_eq!(feed(&mut fsm, up(CTRL), 300), Some(Gesture::Hide));
    assert_eq!(fsm.state(), FsmState::Idle);
}

#[test]
fn very_safe_mode_late_action_is_read_from_idle() {
    let mut fsm = basic(ControlBasicMode::VerySafe);
    assert_eq!(feed(&mut fsm, down(CTRL), 0), None);
    assert_eq!(fsm.state(), FsmState::Approaching(Gesture::Show, 0));
    // not the first action of show: nothing happens
    assert_eq!(feed(&mut fsm, up(CTRL), 300), None);
    assert_eq!(fsm.state(), FsmState::Idle);

    let mut fsm = basic(ControlBasicMode::VerySafe);
    assert_eq!(feed(&mut fsm, down(CTRL), 0), None);
    // the first action of show: the combo starts again
    assert_eq!(feed(&mut fsm, down(CTRL), 300), None);
    assert_eq!(fsm.state(), FsmState::Approaching(Gesture::Show, 0));
}

#[test]
fn combo_window_is_inclusive_of_its_bound() {
    let mut fsm = basic(ControlBasicMode::VerySafe);
    feed(&mut fsm, down(CTRL), 1000);
    assert_eq!(feed(&mut fsm, up(CTRL), 1250), None);
    assert_eq!(fsm.state(), FsmState::Approaching(Gesture::Show, 1));
    assert_eq!(feed(&mut fsm, down(CTRL), 1501), None);
    assert_eq!(fsm.state(), FsmState::Approaching(Gesture::Show, 0));
}

#[test]
fn mismatch_mid_combo_returns_to_stable_state() {
    let mut fsm = basic(ControlBasicMode::VerySafe);
    feed(&mut fsm, down(CTRL), 0);
    assert_eq!(feed(&mut fsm, down(ALT), 10), None);
    assert_eq!(fsm.state(), FsmState::Idle);
    assert_eq!(fsm.stable_state(), FsmState::Idle);
}

#[test]
fn page_gestures_only_when_active() {
    let mut fsm = basic(ControlBasicMode::Safe);
    assert_eq!(feed(&mut fsm, down(ALT), 0), None);
    assert_eq!(fsm.state(), FsmState::Idle);
    feed(&mut fsm, down(CTRL), 10);
    assert_eq!(feed(&mut fsm, down(ALT), 20), Some(Gesture::NextPage));
    assert_eq!(feed(&mut fsm, down(SHIFT), 30), Some(Gesture::PrevPage));
    assert_eq!(fsm.state(), FsmState::Active);
}

#[test]
fn advanced_gestures_complete_and_land() {
    let mut fsm = basic(ControlBasicMode::Safe);
    let next = vec![down(ALT), up(ALT), down(ALT)];
    fsm.set_edges(Gesture::NextPage, next.clone());
    assert_eq!(fsm.edges(Gesture::NextPage), &next);
    feed(&mut fsm, down(CTRL), 0);
    assert_eq!(feed(&mut fsm, down(ALT), 100), None);
    assert_eq!(fsm.state(), FsmState::Approaching(Gesture::NextPage, 0));
    assert_eq!(feed(&mut fsm, up(ALT), 200), None);
    assert_eq!(feed(&mut fsm, down(ALT), 300), Some(Gesture::NextPage));
    assert_eq!(fsm.state(), FsmState::Active);
    assert_eq!(fsm.stable_state(), FsmState::Active);
}

#[test]
fn hide_is_tried_before_next_page() {
    let mut fsm = basic(ControlBasicMode::Simple);
    fsm.set_edges(Gesture::NextPage, vec![down(CTRL)]);
    feed(&mut fsm, down(CTRL), 0);
    assert_eq!(feed(&mut fsm, down(CTRL), 10), Some(Gesture::Hide));
}

#[test]
fn paused_automaton_ignores_actions() {
    let mut fsm = basic(ControlBasicMode::Simple);
    feed(&mut fsm, down(CTRL), 0);
    fsm.reset_and_pause();
    assert!(fsm.is_paused());
    assert_eq!(fsm.state(), FsmState::Idle);
    for t in 1..20 {
        assert_eq!(feed(&mut fsm, down(CTRL), t * 10), None);
        assert_eq!(fsm.state(), FsmState::Idle);
        assert_eq!(fsm.stable_state(), FsmState::Idle);
    }
    fsm.continue_from_pause();
    assert!(!fsm.is_paused());
    assert_eq!(feed(&mut fsm, down(CTRL), 1000), Some(Gesture::Show));
}

#[test]
fn reconfiguring_drops_combo_in_progress() {
    let mut fsm = basic(ControlBasicMode::VerySafe);
    feed(&mut fsm, down(CTRL), 0);
    fsm.set_next_page_with_basic_control(KeyButton::WheelDown);
    assert_eq!(fsm.state(), FsmState::Idle);
    assert_eq!(fsm.edges(Gesture::NextPage), &vec![down(KeyButton::WheelDown)]);
}

#[test]
fn basic_tables_of_each_mode() {
    let mut fsm = Fsm::new();
    fsm.set_show_hide_with_basic_control(ControlBasicMode::VerySafe, CTRL);
    assert_eq!(fsm.edges(Gesture::Show), &vec![down(CTRL), up(CTRL), down(CTRL)]);
    assert_eq!(fsm.edges(Gesture::Hide), &vec![up(CTRL)]);
    fsm.set_show_hide_with_basic_control(ControlBasicMode::Simple, CTRL);
    assert_eq!(fsm.edges(Gesture::Hide), &vec![down(CTRL)]);
    fsm.set_prev_page_with_basic_control(SHIFT);
    assert_eq!(fsm.edges(Gesture::PrevPage), &vec![down(SHIFT)]);
}

#[test]
fn advanced_configuration_keeps_tables() {
    let mut fsm = basic(ControlBasicMode::Safe);
    fsm.set_with_control(&Control {
        is_advanced: true,
        basic: ControlBasic {
            mode: ControlBasicMode::Simple,
            show_hide: ALT,
            next_page: ALT,
            prev_page: ALT,
        },
    });
    assert_eq!(fsm.edges(Gesture::Show), &vec![down(CTRL)]);
    assert_eq!(fsm.edges(Gesture::Hide), &vec![up(CTRL)]);
}
