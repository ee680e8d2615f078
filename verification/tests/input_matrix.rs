use character_controller::config::Config;
use character_controller::input::{
    input_matrix, movement_axis, Button, Controls, Input, InputEvent, InputMatrix, InputState,
};
use character_controller::keys::{KeyCode, MouseButton};
use character_controller::single::Single;

fn config() -> Config {
    Config {
        sens: Single::from_bits(2.2f32.to_bits()),
        zoom_sens: Single::from_bits(1.0f32.to_bits()),
        movement: [KeyCode::W, KeyCode::A, KeyCode::S, KeyCode::D],
        specials: [KeyCode::E, KeyCode::F],
        jump: KeyCode::Space,
        dash: KeyCode::LShift,
        net_mode: None,
    }
}

fn keyboard(pressed: Vec<KeyCode>, just_pressed: Vec<KeyCode>, just_released: Vec<KeyCode>) -> Input<KeyCode> {
    Input { pressed, just_pressed, just_released }
}

fn mouse(pressed: Vec<MouseButton>, just_pressed: Vec<MouseButton>, just_released: Vec<MouseButton>) -> Input<MouseButton> {
    Input { pressed, just_pressed, just_released }
}

fn button(pressed: bool, just_pressed: bool, just_released: bool) -> Button {
    Button { pressed, just_pressed, just_released }
}

fn idle() -> Controls {
    let up = button(false, false, false);
    Controls {
        forward: up,
        left: up,
        back: up,
        right: up,
        jump: up,
        dash: up,
        spec1: up,
        spec2: up,
        click: up,
    }
}

fn quiet() -> InputMatrix {
    idle().matrix()
}

#[test]
fn button_states() {
    assert_eq!(button(false, false, false).state(), InputState::Unpressed);
    assert_eq!(button(true, false, false).state(), InputState::Held);
    assert_eq!(button(true, true, false).state(), InputState::JustPressed);
    assert_eq!(button(false, false, true).state(), InputState::JustReleased);
    // Pressed and released within one tick: the press counts.
    assert_eq!(button(false, true, true).state(), InputState::JustPressed);
    assert_eq!(button(true, false, true).state(), InputState::JustReleased);
}

#[test]
fn state_queries() {
    assert!(InputState::Held.is_down());
    assert!(InputState::JustPressed.is_down());
    assert!(!InputState::JustReleased.is_down());
    assert!(!InputState::Unpressed.is_down());
    assert!(InputState::JustPressed.is_just_pressed());
    assert!(!InputState::Held.is_just_pressed());
    assert!(InputState::Held.is_held());
    assert!(!InputState::JustPressed.is_held());
}

#[test]
fn matrix_reads_every_control() {
    let mut controls = idle();
    controls.back = button(true, false, false);
    controls.forward = button(true, true, false);
    controls.left = button(false, false, true);
    controls.dash = button(true, true, false);
    controls.spec2 = button(true, false, false);
    controls.click = button(true, true, false);
    let m = controls.matrix();
    assert_eq!(m.back, InputState::Held);
    assert_eq!(m.forward, InputState::JustPressed);
    assert_eq!(m.left, InputState::JustReleased);
    assert_eq!(m.right, InputState::Unpressed);
    assert_eq!(m.dash, InputState::JustPressed);
    assert_eq!(m.spec1, InputState::Unpressed);
    assert_eq!(m.spec2, InputState::Held);
    assert_eq!(m.click, InputState::JustPressed);
}

#[test]
fn nothing_pressed_triggers_nothing() {
    assert_eq!(quiet().event(), None);
}

#[test]
fn click_while_strafing() {
    let mut m = quiet();
    m.click = InputState::JustPressed;
    assert_eq!(m.event(), None);
    m.left = InputState::Held;
    assert_eq!(m.event(), Some(InputEvent::LRClick));
    m.left = InputState::Unpressed;
    m.right = InputState::JustPressed;
    assert_eq!(m.event(), Some(InputEvent::LRClick));
    m.click = InputState::Held;
    assert_eq!(m.event(), None);
}

#[test]
fn click_while_backing() {
    let mut m = quiet();
    m.click = InputState::JustPressed;
    m.back = InputState::Held;
    assert_eq!(m.event(), Some(InputEvent::BClick));
    m.back = InputState::JustReleased;
    assert_eq!(m.event(), None);
    // Sideways wins over backwards.
    m.back = InputState::JustPressed;
    m.right = InputState::Held;
    assert_eq!(m.event(), Some(InputEvent::LRClick));
}

#[test]
fn special_while_moving_forward() {
    let mut m = quiet();
    m.spec1 = InputState::JustPressed;
    assert_eq!(m.event(), None);
    m.forward = InputState::JustPressed;
    assert_eq!(m.event(), Some(InputEvent::FSpec1));
    m.forward = InputState::Held;
    assert_eq!(m.event(), Some(InputEvent::FSpec1));
    m.spec1 = InputState::Held;
    assert_eq!(m.event(), None);
}

#[test]
fn fresh_dash_with_forward_held_swallows_the_special() {
    let mut m = quiet();
    m.spec1 = InputState::JustPressed;
    m.forward = InputState::Held;
    m.dash = InputState::JustPressed;
    assert_eq!(m.event(), None);
    m.forward = InputState::JustPressed;
    assert_eq!(m.event(), Some(InputEvent::FSpec1));
}

#[test]
fn controls_give_the_intent() {
    let mut controls = idle();
    controls.forward = button(true, false, false);
    controls.left = button(true, true, false);
    let v = controls.intent();
    assert_eq!(f32::from_bits(v.x.to_bits()), -1.0);
    assert_eq!(f32::from_bits(v.y.to_bits()), 1.0);
    controls.back = button(true, false, false);
    controls.right = button(true, false, false);
    let v = controls.intent();
    assert_eq!((v.x.to_bits(), v.y.to_bits()), (0, 0));
    // A key that went up in this tick no longer counts.
    let mut controls = idle();
    controls.right = button(false, false, true);
    assert_eq!(controls.intent().x.to_bits(), 0);
}

#[test]
fn device_reports() {
    let keys = keyboard(vec![KeyCode::W, KeyCode::Space], vec![KeyCode::Space], vec![KeyCode::Q]);
    assert!(keys.pressed(KeyCode::W));
    assert!(keys.pressed(KeyCode::Space));
    assert!(!keys.pressed(KeyCode::Q));
    assert!(keys.just_pressed(KeyCode::Space));
    assert!(!keys.just_pressed(KeyCode::W));
    assert!(keys.just_released(KeyCode::Q));
    assert!(!keys.just_released(KeyCode::Space));
    assert_eq!(keys.button(KeyCode::Space), button(true, true, false));
    assert_eq!(keys.button(KeyCode::Q), button(false, false, true));
    assert_eq!(keys.button(KeyCode::Z), button(false, false, false));

    let m = mouse(vec![MouseButton::Other(4)], vec![], vec![MouseButton::Left]);
    assert!(m.pressed(MouseButton::Other(4)));
    assert!(!m.pressed(MouseButton::Other(5)));
    assert!(!m.pressed(MouseButton::Left));
    assert!(!m.just_pressed(MouseButton::Other(4)));
    assert!(m.just_released(MouseButton::Left));
    assert_eq!(m.button(MouseButton::Left), button(false, false, true));
}

#[test]
fn matrix_follows_the_bindings() {
    let keys = keyboard(
        vec![KeyCode::W, KeyCode::D, KeyCode::LShift, KeyCode::E],
        vec![KeyCode::LShift, KeyCode::E],
        vec![KeyCode::S, KeyCode::F],
    );
    let m = mouse(vec![MouseButton::Left], vec![MouseButton::Left], vec![]);
    let matrix = input_matrix(&config(), &keys, &m);
    assert_eq!(matrix.forward, InputState::Held);
    assert_eq!(matrix.left, InputState::Unpressed);
    assert_eq!(matrix.back, InputState::JustReleased);
    assert_eq!(matrix.right, InputState::Held);
    assert_eq!(matrix.dash, InputState::JustPressed);
    assert_eq!(matrix.spec1, InputState::JustPressed);
    assert_eq!(matrix.spec2, InputState::JustReleased);
    assert_eq!(matrix.click, InputState::JustPressed);
    assert_eq!(matrix.event(), Some(InputEvent::LRClick));

    // Other bindings, same keys.
    let mut other = config();
    other.movement = [KeyCode::Up, KeyCode::Left, KeyCode::Down, KeyCode::Right];
    other.dash = KeyCode::E;
    let matrix = input_matrix(&other, &keys, &mouse(vec![], vec![], vec![]));
    assert_eq!(matrix.forward, InputState::Unpressed);
    assert_eq!(matrix.right, InputState::Unpressed);
    assert_eq!(matrix.dash, InputState::JustPressed);
    assert_eq!(matrix.click, InputState::Unpressed);
    assert_eq!(matrix.event(), None);
}

#[test]
fn controls_follow_the_bindings() {
    let keys = keyboard(vec![KeyCode::A, KeyCode::Space], vec![KeyCode::Space], vec![]);
    let m = mouse(vec![MouseButton::Right], vec![MouseButton::Right], vec![]);
    let controls = Controls::read(&config(), &keys, &m);
    assert_eq!(controls.left, button(true, false, false));
    assert_eq!(controls.jump, button(true, true, false));
    assert_eq!(controls.forward, button(false, false, false));
    assert_eq!(controls.click, button(false, false, false));
    let v = controls.intent();
    assert_eq!(f32::from_bits(v.x.to_bits()), -1.0);
    assert_eq!(v.y.to_bits(), 0);
}

#[test]
fn axis_of_two_keys() {
    let value = |keys: &Input<KeyCode>| {
        f32::from_bits(movement_axis(keys, KeyCode::D, KeyCode::A).to_bits())
    };
    assert_eq!(value(&keyboard(vec![], vec![], vec![])), 0.0);
    assert_eq!(value(&keyboard(vec![KeyCode::D], vec![], vec![])), 1.0);
    assert_eq!(value(&keyboard(vec![KeyCode::A], vec![], vec![])), -1.0);
    assert_eq!(value(&keyboard(vec![KeyCode::A, KeyCode::D], vec![], vec![])), 0.0);
    assert_eq!(value(&keyboard(vec![KeyCode::W], vec![KeyCode::D], vec![KeyCode::A])), 0.0);
}
