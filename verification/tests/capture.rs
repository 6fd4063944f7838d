use keyviz::commands::set_toggle_shortcut;
use keyviz::event::{
    handle_event, map_mouse_button, toggle, Effect, InputEvent, MouseButton, RawButton, RawEvent,
};
use keyviz::state::AppState;

fn press(name: &str) -> RawEvent {
    RawEvent::KeyPress(name.to_string())
}

fn release(name: &str) -> RawEvent {
    RawEvent::KeyRelease(name.to_string())
}

fn key(pressed: bool, name: &str) -> InputEvent {
    InputEvent::KeyEvent { pressed, name: name.to_string() }
}

fn names(keys: &[&str]) -> Vec<String> {
    keys.iter().map(|k| k.to_string()).collect()
}

#[test]
fn a_key_going_down_is_held_and_published() {
    let mut state = AppState::new();
    let effects = handle_event(&mut state, press("KeyA"));
    assert_eq!(state.pressed_keys(), &names(&["KeyA"]));
    assert_eq!(effects, vec![Effect::Broadcast(key(true, "KeyA"))]);
    assert!(state.listening());
}

#[test]
fn a_repeat_is_neither_held_twice_nor_published() {
    let mut state = AppState::new();
    handle_event(&mut state, press("KeyA"));
    let effects = handle_event(&mut state, press("KeyA"));
    assert_eq!(state.pressed_keys(), &names(&["KeyA"]));
    assert_eq!(effects, vec![]);
}

#[test]
fn a_key_going_up_leaves_and_the_rest_keep_their_order() {
    let mut state = AppState::new();
    handle_event(&mut state, press("KeyA"));
    handle_event(&mut state, press("KeyB"));
    handle_event(&mut state, press("KeyC"));
    let effects = handle_event(&mut state, release("KeyB"));
    assert_eq!(state.pressed_keys(), &names(&["KeyA", "KeyC"]));
    assert_eq!(effects, vec![Effect::Broadcast(key(false, "KeyB"))]);
}

#[test]
fn a_key_that_comes_back_joins_at_the_end() {
    let mut state = AppState::new();
    handle_event(&mut state, press("KeyA"));
    handle_event(&mut state, press("KeyB"));
    handle_event(&mut state, release("KeyA"));
    handle_event(&mut state, press("KeyA"));
    assert_eq!(state.pressed_keys(), &names(&["KeyB", "KeyA"]));
}

#[test]
fn the_release_of_a_key_that_is_not_held_is_still_published() {
    let mut state = AppState::new();
    let effects = handle_event(&mut state, release("KeyA"));
    assert_eq!(state.pressed_keys(), &names(&[]));
    assert_eq!(effects, vec![Effect::Broadcast(key(false, "KeyA"))]);
}

#[test]
fn interleaved_presses_and_releases_never_hold_a_key_twice() {
    let mut state = AppState::new();
    let script = [
        press("KeyA"),
        press("KeyB"),
        press("KeyA"),
        release("KeyC"),
        press("KeyC"),
        release("KeyA"),
        press("KeyB"),
        press("KeyA"),
        press("Unknown(7)"),
        release("KeyB"),
        press("KeyD"),
    ];
    for event in script {
        handle_event(&mut state, event);
        let held = state.pressed_keys();
        for (i, a) in held.iter().enumerate() {
            for b in held.iter().skip(i + 1) {
                assert_ne!(a, b);
            }
        }
    }
    assert_eq!(state.pressed_keys(), &names(&["KeyC", "KeyA", "KeyD"]));
}

#[test]
fn an_unrecognized_key_leaves_no_trace() {
    let mut state = AppState::new();
    handle_event(&mut state, press("KeyA"));
    assert_eq!(handle_event(&mut state, press("Unknown(123)")), vec![]);
    assert_eq!(handle_event(&mut state, press("RawKey(LinuxXorgKeycode(12))")), vec![]);
    assert_eq!(handle_event(&mut state, release("Unknown(123)")), vec![]);
    assert_eq!(state.pressed_keys(), &names(&["KeyA"]));
    assert!(state.listening());
}

#[test]
fn an_unrecognized_key_cannot_complete_a_chord() {
    let mut state = AppState::new();
    set_toggle_shortcut(&mut state, names(&["Unknown(1)"]));
    assert_eq!(handle_event(&mut state, press("Unknown(1)")), vec![]);
    assert!(state.listening());
    assert_eq!(state.pressed_keys(), &names(&[]));
}

#[test]
fn the_chord_in_order_turns_capture_off_and_flushes_the_held_keys() {
    let mut state = AppState::new();
    let first = handle_event(&mut state, press("Shift"));
    assert_eq!(first, vec![Effect::Broadcast(key(true, "Shift"))]);
    let second = handle_event(&mut state, press("F10"));
    assert!(!state.listening());
    assert_eq!(
        second,
        vec![
            Effect::UpdateAffordance { listening: false },
            Effect::NotifyToggled { listening: false },
            Effect::PublishToPrimary(key(false, "Shift")),
            Effect::PublishToPrimary(key(false, "F10")),
        ]
    );
    assert_eq!(state.pressed_keys(), &names(&["Shift", "F10"]));
}

#[test]
fn the_chord_out_of_order_does_not_fire() {
    let mut state = AppState::new();
    handle_event(&mut state, press("F10"));
    let effects = handle_event(&mut state, press("Shift"));
    assert!(state.listening());
    assert_eq!(effects, vec![Effect::Broadcast(key(true, "Shift"))]);
    assert_eq!(state.pressed_keys(), &names(&["F10", "Shift"]));
}

#[test]
fn the_chord_with_another_key_held_does_not_fire() {
    let mut state = AppState::new();
    handle_event(&mut state, press("KeyA"));
    handle_event(&mut state, press("Shift"));
    handle_event(&mut state, press("F10"));
    assert!(state.listening());
}

#[test]
fn a_part_of_the_chord_does_not_fire() {
    let mut state = AppState::new();
    handle_event(&mut state, press("Shift"));
    assert!(state.listening());
    handle_event(&mut state, release("Shift"));
    handle_event(&mut state, press("F10"));
    assert!(state.listening());
}

#[test]
fn a_repeat_of_the_last_chord_key_does_not_fire_again() {
    let mut state = AppState::new();
    handle_event(&mut state, press("Shift"));
    handle_event(&mut state, press("F10"));
    assert!(!state.listening());
    assert_eq!(handle_event(&mut state, press("F10")), vec![]);
    assert!(!state.listening());
}

#[test]
fn the_chord_turns_capture_on_again_without_a_flush() {
    let mut state = AppState::new();
    handle_event(&mut state, press("Shift"));
    handle_event(&mut state, press("F10"));
    assert_eq!(handle_event(&mut state, release("F10")), vec![]);
    assert_eq!(handle_event(&mut state, release("Shift")), vec![]);
    assert_eq!(handle_event(&mut state, press("Shift")), vec![]);
    let effects = handle_event(&mut state, press("F10"));
    assert!(state.listening());
    assert_eq!(
        effects,
        vec![
            Effect::UpdateAffordance { listening: true },
            Effect::NotifyToggled { listening: true },
            Effect::Broadcast(key(true, "F10")),
        ]
    );
}

#[test]
fn nothing_is_published_while_capture_is_off() {
    let mut state = AppState::new();
    toggle(&mut state);
    assert!(!state.listening());
    assert_eq!(handle_event(&mut state, press("KeyA")), vec![]);
    assert_eq!(handle_event(&mut state, release("KeyA")), vec![]);
    assert_eq!(handle_event(&mut state, RawEvent::ButtonPress(RawButton::Left)), vec![]);
    assert_eq!(handle_event(&mut state, RawEvent::ButtonRelease(RawButton::Left)), vec![]);
    assert_eq!(
        handle_event(&mut state, RawEvent::MouseMove { x: 1.5f64.to_bits(), y: 2.5f64.to_bits() }),
        vec![]
    );
    assert_eq!(handle_event(&mut state, RawEvent::Wheel { delta_x: 1, delta_y: -1 }), vec![]);
}

#[test]
fn keys_are_tracked_while_capture_is_off() {
    let mut state = AppState::new();
    toggle(&mut state);
    handle_event(&mut state, press("KeyA"));
    handle_event(&mut state, press("KeyB"));
    handle_event(&mut state, release("KeyA"));
    assert_eq!(state.pressed_keys(), &names(&["KeyB"]));
}

#[test]
fn mouse_input_is_published_while_capture_is_on() {
    let mut state = AppState::new();
    assert_eq!(
        handle_event(&mut state, RawEvent::ButtonPress(RawButton::Right)),
        vec![Effect::Broadcast(InputEvent::MouseButtonEvent {
            pressed: true,
            button: MouseButton::Right
        })]
    );
    assert_eq!(
        handle_event(&mut state, RawEvent::ButtonRelease(RawButton::Unknown(4))),
        vec![Effect::Broadcast(InputEvent::MouseButtonEvent {
            pressed: false,
            button: MouseButton::Other
        })]
    );
    assert_eq!(
        handle_event(&mut state, RawEvent::Wheel { delta_x: -3, delta_y: 7 }),
        vec![Effect::Broadcast(InputEvent::MouseWheelEvent { delta_x: -3, delta_y: 7 })]
    );
    let x = 110.0f64.to_bits();
    let y = 220.0f64.to_bits();
    assert_eq!(
        handle_event(&mut state, RawEvent::MouseMove { x, y }),
        vec![Effect::BroadcastPointer { x, y, origin: (0, 0), scale: 1.0f64.to_bits() }]
    );
    assert_eq!(state.pressed_keys(), &names(&[]));
}

#[test]
fn every_button_beyond_the_standard_three_is_other() {
    assert_eq!(map_mouse_button(RawButton::Left), MouseButton::Left);
    assert_eq!(map_mouse_button(RawButton::Right), MouseButton::Right);
    assert_eq!(map_mouse_button(RawButton::Middle), MouseButton::Middle);
    assert_eq!(map_mouse_button(RawButton::Unknown(0)), MouseButton::Other);
    assert_eq!(map_mouse_button(RawButton::Unknown(255)), MouseButton::Other);
}

#[test]
fn toggling_off_by_command_flushes_the_held_keys_in_press_order() {
    let mut state = AppState::new();
    handle_event(&mut state, press("KeyB"));
    handle_event(&mut state, press("KeyA"));
    handle_event(&mut state, press("KeyC"));
    let effects = toggle(&mut state);
    assert!(!state.listening());
    assert_eq!(
        effects,
        vec![
            Effect::UpdateAffordance { listening: false },
            Effect::NotifyToggled { listening: false },
            Effect::PublishToPrimary(key(false, "KeyB")),
            Effect::PublishToPrimary(key(false, "KeyA")),
            Effect::PublishToPrimary(key(false, "KeyC")),
        ]
    );
    assert_eq!(state.pressed_keys(), &names(&["KeyB", "KeyA", "KeyC"]));
}

#[test]
fn toggling_on_by_command_makes_up_no_release() {
    let mut state = AppState::new();
    toggle(&mut state);
    handle_event(&mut state, press("KeyA"));
    let effects = toggle(&mut state);
    assert!(state.listening());
    assert_eq!(
        effects,
        vec![
            Effect::UpdateAffordance { listening: true },
            Effect::NotifyToggled { listening: true },
        ]
    );
}

#[test]
fn toggling_with_no_key_held_flushes_nothing() {
    let mut state = AppState::new();
    assert_eq!(
        toggle(&mut state),
        vec![
            Effect::UpdateAffordance { listening: false },
            Effect::NotifyToggled { listening: false },
        ]
    );
}

#[test]
fn a_chord_of_one_key_fires_on_that_key_alone() {
    let mut state = AppState::new();
    set_toggle_shortcut(&mut state, names(&["F9"]));
    let effects = handle_event(&mut state, press("F9"));
    assert!(!state.listening());
    assert_eq!(
        effects,
        vec![
            Effect::UpdateAffordance { listening: false },
            Effect::NotifyToggled { listening: false },
            Effect::PublishToPrimary(key(false, "F9")),
        ]
    );
}

#[test]
fn an_empty_chord_never_fires() {
    let mut state = AppState::new();
    set_toggle_shortcut(&mut state, Vec::new());
    assert_eq!(state.toggle_shortcut(), &names(&[]));
    handle_event(&mut state, press("Shift"));
    handle_event(&mut state, press("F10"));
    handle_event(&mut state, release("Shift"));
    handle_event(&mut state, release("F10"));
    handle_event(&mut state, RawEvent::Wheel { delta_x: 0, delta_y: 1 });
    assert!(state.listening());
}

#[test]
fn a_new_chord_replaces_the_old_one() {
    let mut state = AppState::new();
    set_toggle_shortcut(&mut state, names(&["ControlLeft", "KeyK"]));
    assert_eq!(state.toggle_shortcut(), &names(&["ControlLeft", "KeyK"]));
    handle_event(&mut state, press("Shift"));
    handle_event(&mut state, press("F10"));
    assert!(state.listening());
    handle_event(&mut state, release("Shift"));
    handle_event(&mut state, release("F10"));
    handle_event(&mut state, press("ControlLeft"));
    handle_event(&mut state, press("KeyK"));
    assert!(!state.listening());
}

#[test]
fn effects_and_events_can_be_copied() {
    let effect = Effect::Broadcast(key(true, "KeyA"));
    assert_eq!(effect.clone(), effect);
    let event = press("KeyA");
    assert_eq!(event.clone(), event);
    let flush = Effect::PublishToPrimary(key(false, "KeyA"));
    assert_eq!(flush.clone(), flush);
    assert_ne!(flush, effect);
    let pointer = Effect::BroadcastPointer { x: 1, y: 2, origin: (3, 4), scale: 5 };
    assert_eq!(pointer.clone(), pointer);
    let moved = InputEvent::MouseMoveEvent { x: 50.0f64.to_bits(), y: 100.0f64.to_bits() };
    assert_eq!(moved.clone(), moved);
    let wheel = RawEvent::Wheel { delta_x: 1, delta_y: 2 };
    assert_eq!(wheel.clone(), wheel);
}
