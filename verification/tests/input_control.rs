use spitfire::control::AppControl;
use spitfire::input::{InputAction, InputCharacters, InputConsume};

#[test]
fn input_action_lifecycle() {
    let idle = InputAction::default();
    assert_eq!(idle, InputAction::Idle);
    let pressed = idle.change(true);
    assert_eq!(pressed, InputAction::Pressed);
    let hold = pressed.change(true);
    assert_eq!(hold, InputAction::Hold);
    let released = hold.change(false);
    assert_eq!(released, InputAction::Released);
    assert_eq!(released.change(false), InputAction::Idle);
    assert_eq!(released.change(true), InputAction::Pressed);
}

#[test]
fn input_action_update_decays_transients() {
    assert_eq!(InputAction::Pressed.update(), InputAction::Hold);
    assert_eq!(InputAction::Released.update(), InputAction::Idle);
    assert_eq!(InputAction::Idle.update(), InputAction::Idle);
    assert_eq!(InputAction::Hold.update(), InputAction::Hold);
}

#[test]
fn input_action_predicates() {
    assert!(InputAction::Idle.is_idle());
    assert!(InputAction::Pressed.is_pressed());
    assert!(InputAction::Hold.is_hold());
    assert!(InputAction::Released.is_released());
    assert!(InputAction::Idle.is_up());
    assert!(InputAction::Released.is_up());
    assert!(InputAction::Pressed.is_down());
    assert!(InputAction::Hold.is_down());
    assert!(InputAction::Pressed.is_changing());
    assert!(InputAction::Released.is_changing());
    assert!(InputAction::Idle.is_continuing());
    assert!(InputAction::Hold.is_continuing());
    assert!(!InputAction::Hold.is_changing());
    assert!(!InputAction::Pressed.is_continuing());
}

#[test]
fn input_characters_accumulate_and_take() {
    let mut characters = InputCharacters::default();
    assert_eq!(characters.read(), "");
    characters.write().push('h');
    characters.write().push('i');
    assert_eq!(characters.read(), "hi");
    let taken = characters.take();
    assert_eq!(taken, "hi");
    assert_eq!(characters.read(), "");
}

#[test]
fn input_consume_defaults_to_pass() {
    assert_eq!(InputConsume::default(), InputConsume::Pass);
    assert_ne!(InputConsume::Hit, InputConsume::All);
}

#[test]
fn app_control_setters_raise_dirty_flags_only_on_change() {
    let mut control = AppControl::new(10, 20, 800, 600, false, false);
    assert_eq!(control.position(), (10, 20));
    assert_eq!(control.size(), (800, 600));
    // Setting the same values is a no-op.
    control.set_position(10, 20);
    assert_eq!(control.take_dirty_position(), None);
    control.set_size(800, 600);
    assert_eq!(control.take_dirty_size(), None);
    // A real change raises the flag once.
    control.set_position(30, 40);
    assert_eq!(control.position(), (30, 40));
    assert_eq!(control.take_dirty_position(), Some((30, 40)));
    assert_eq!(control.take_dirty_position(), None);
    control.set_size(1024, 768);
    assert_eq!(control.take_dirty_size(), Some((1024, 768)));
    assert_eq!(control.take_dirty_size(), None);
}

#[test]
fn app_control_mode_flags() {
    let mut control = AppControl::new(0, 0, 640, 480, false, true);
    assert!(!control.minimized());
    assert!(control.maximized());
    control.set_maximized(true);
    assert_eq!(control.take_dirty_maximized(), None);
    control.set_minimized(true);
    assert!(control.minimized());
    assert_eq!(control.take_dirty_minimized(), Some(true));
    control.set_maximized(false);
    assert_eq!(control.take_dirty_maximized(), Some(false));
    assert!(!control.close_requested);
    control.close_requested = true;
    assert!(control.close_requested);
}
