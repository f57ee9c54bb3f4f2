use engine_core::input::{
    update_mouse, CursorDelta, CursorPosition, ElementState, Input, KeyCode, Keyboard,
    KeyboardInput, KeyboardKey, Mouse, MovementAxes,
};

fn event(key: KeyCode, state: ElementState) -> KeyboardInput {
    KeyboardInput { virtual_keycode: Some(key), state }
}

#[test]
fn key_held_from_press_to_release() {
    let mut input = Input::new();
    let k = KeyCode::Other(42);
    input.process_keyboard(&event(k, ElementState::Pressed));
    assert!(input.key_held(k));
    for other in [KeyCode::W, KeyCode::Other(7), KeyCode::Escape, KeyCode::Other(43)] {
        input.process_keyboard(&event(other, ElementState::Pressed));
        assert!(input.key_held(k));
        input.process_keyboard(&event(other, ElementState::Released));
        assert!(input.key_held(k));
    }
    input.process_keyboard(&event(k, ElementState::Released));
    assert!(!input.key_held(k));
}

#[test]
fn unseen_key_is_not_held() {
    let input = Input::default();
    assert!(!input.key_held(KeyCode::A));
    assert!(!input.key_held(KeyCode::Other(0)));
}

#[test]
fn release_of_unseen_key_leaves_it_up() {
    let mut input = Input::new();
    input.process_keyboard(&event(KeyCode::D, ElementState::Released));
    assert!(!input.key_held(KeyCode::D));
}

#[test]
fn repeated_press_keeps_key_held() {
    let mut input = Input::new();
    input.process_keyboard(&event(KeyCode::S, ElementState::Pressed));
    input.process_keyboard(&event(KeyCode::S, ElementState::Pressed));
    assert!(input.key_held(KeyCode::S));
    input.process_keyboard(&event(KeyCode::S, ElementState::Released));
    assert!(!input.key_held(KeyCode::S));
}

#[test]
fn edges_are_not_reported() {
    let mut input = Input::new();
    input.process_keyboard(&event(KeyCode::W, ElementState::Pressed));
    assert!(!input.key_pressed(KeyCode::W));
    input.process_keyboard(&event(KeyCode::W, ElementState::Released));
    assert!(!input.key_released(KeyCode::W));
}

#[test]
fn keyboard_tracks_held_keys() {
    let mut keyboard = Keyboard::new();
    keyboard.set_key(KeyCode::A, true);
    keyboard.set_key(KeyCode::D, true);
    keyboard.set_key(KeyCode::A, false);
    assert!(!keyboard.key_held(KeyCode::A));
    assert!(keyboard.key_held(KeyCode::D));
}

#[test]
fn new_key_is_up() {
    assert_eq!(KeyboardKey::new(), KeyboardKey::new());
}

#[test]
fn mouse_acceleration_refresh() {
    let mut input = Input::new();
    assert_eq!(input.mouse, Mouse::new());
    input.mouse.position = CursorPosition { x: 3, y: 4 };
    update_mouse(&mut input);
    assert_eq!(input.mouse.acceleration, CursorDelta { x: 3, y: 4 });
    assert_eq!(input.mouse.old_position, CursorPosition { x: 3, y: 4 });
    update_mouse(&mut input);
    assert_eq!(input.mouse.acceleration, CursorDelta { x: 0, y: 0 });
    assert_eq!(input.mouse.position, CursorPosition { x: 3, y: 4 });
}

#[test]
fn mouse_acceleration_at_the_extremes() {
    let mut input = Input::new();
    input.mouse.old_position = CursorPosition { x: i32::MIN, y: i32::MAX };
    input.mouse.position = CursorPosition { x: i32::MAX, y: i32::MIN };
    update_mouse(&mut input);
    assert_eq!(
        input.mouse.acceleration,
        CursorDelta { x: i32::MAX as i64 - i32::MIN as i64, y: i32::MIN as i64 - i32::MAX as i64 }
    );
}

#[test]
fn movement_axes_follow_held_keys() {
    let mut input = Input::new();
    assert_eq!(input.movement_axes(), MovementAxes { x: 0, y: 0 });
    input.process_keyboard(&event(KeyCode::W, ElementState::Pressed));
    assert_eq!(input.movement_axes(), MovementAxes { x: 0, y: -1 });
    input.process_keyboard(&event(KeyCode::D, ElementState::Pressed));
    assert_eq!(input.movement_axes(), MovementAxes { x: 1, y: -1 });
    input.process_keyboard(&event(KeyCode::S, ElementState::Pressed));
    input.process_keyboard(&event(KeyCode::A, ElementState::Pressed));
    assert_eq!(input.movement_axes(), MovementAxes { x: 0, y: 0 });
    input.process_keyboard(&event(KeyCode::W, ElementState::Released));
    input.process_keyboard(&event(KeyCode::D, ElementState::Released));
    assert_eq!(input.movement_axes(), MovementAxes { x: -1, y: 1 });
}
