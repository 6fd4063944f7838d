use keyviz::keys::{contains_marker, contains_name, remove_name, same_names};
use keyviz::model::{GROUPING_MARKER, MAX_POSITIVE, UNIT_SCALE};
use keyviz::state::{AppState, KeyEventState, KeyEventStore, MonitorCalibration};

fn names(keys: &[&str]) -> Vec<String> {
    keys.iter().map(|k| k.to_string()).collect()
}

#[test]
fn the_state_starts_capturing_with_the_default_chord() {
    let state = AppState::new();
    assert!(state.listening());
    assert_eq!(state.pressed_keys(), &names(&[]));
    assert_eq!(state.toggle_shortcut(), &names(&["Shift", "F10"]));
    assert_eq!(
        state.calibration(),
        &MonitorCalibration { name: None, scale: 1.0f64.to_bits(), origin: (0, 0) }
    );
    assert!(!state.is_pressed(&"Shift".to_string()));
    assert!(!state.chord_matches());
}

#[test]
fn the_idle_state_is_off_and_has_no_chord() {
    let state = AppState::default();
    assert!(!state.listening());
    assert_eq!(state.pressed_keys(), &names(&[]));
    assert_eq!(state.toggle_shortcut(), &names(&[]));
    assert_eq!(state.calibration().scale, UNIT_SCALE);
    assert_eq!(state.calibration().name, None);
    assert_eq!(state.calibration().origin, (0, 0));
}

#[test]
fn persisted_settings_give_the_chord() {
    let store = KeyEventStore {
        state: KeyEventState { toggle_shortcut: names(&["ControlLeft", "Alt", "KeyK"]) },
    };
    let state = AppState::with_settings(Some(store));
    assert!(state.listening());
    assert_eq!(state.pressed_keys(), &names(&[]));
    assert_eq!(state.toggle_shortcut(), &names(&["ControlLeft", "Alt", "KeyK"]));
}

#[test]
fn persisted_settings_may_give_an_empty_chord() {
    let store = KeyEventStore { state: KeyEventState { toggle_shortcut: Vec::new() } };
    let state = AppState::with_settings(Some(store));
    assert_eq!(state.toggle_shortcut(), &names(&[]));
}

#[test]
fn missing_settings_leave_the_default_chord() {
    let state = AppState::with_settings(None);
    assert!(state.listening());
    assert_eq!(state.toggle_shortcut(), &names(&["Shift", "F10"]));
}

#[test]
fn the_unit_scale_is_the_encoding_of_one() {
    assert_eq!(UNIT_SCALE, 1.0f64.to_bits());
    assert_eq!(MAX_POSITIVE, f64::INFINITY.to_bits());
    assert_eq!(GROUPING_MARKER, '(');
}

#[test]
fn the_marker_is_found_wherever_it_stands() {
    assert!(contains_marker(&"Unknown(123)".to_string()));
    assert!(contains_marker(&"(".to_string()));
    assert!(contains_marker(&"trailing(".to_string()));
    assert!(contains_marker(&"(leading".to_string()));
    assert!(!contains_marker(&"".to_string()));
    assert!(!contains_marker(&"KeyA".to_string()));
    assert!(!contains_marker(&"closing)".to_string()));
    assert!(!contains_marker(&"Ünïcödé".to_string()));
    assert!(contains_marker(&"Ünï(cödé".to_string()));
}

#[test]
fn a_name_is_found_in_a_list_only_as_a_whole() {
    let keys = names(&["Shift", "F10"]);
    assert!(contains_name(&keys, &"Shift".to_string()));
    assert!(contains_name(&keys, &"F10".to_string()));
    assert!(!contains_name(&keys, &"F1".to_string()));
    assert!(!contains_name(&keys, &"shift".to_string()));
    assert!(!contains_name(&Vec::new(), &"Shift".to_string()));
}

#[test]
fn lists_are_the_same_only_with_the_same_names_in_the_same_order() {
    assert!(same_names(&names(&["Shift", "F10"]), &names(&["Shift", "F10"])));
    assert!(!same_names(&names(&["F10", "Shift"]), &names(&["Shift", "F10"])));
    assert!(!same_names(&names(&["Shift"]), &names(&["Shift", "F10"])));
    assert!(!same_names(&names(&["Shift", "F10", "KeyA"]), &names(&["Shift", "F10"])));
    assert!(!same_names(&names(&["Shift", "F11"]), &names(&["Shift", "F10"])));
    assert!(same_names(&names(&[]), &names(&[])));
    assert!(!same_names(&names(&[]), &names(&["Shift"])));
}

#[test]
fn removing_a_name_keeps_the_order_of_the_rest() {
    assert_eq!(remove_name(&names(&["A", "B", "C"]), &"B".to_string()), names(&["A", "C"]));
    assert_eq!(remove_name(&names(&["A", "B", "C"]), &"A".to_string()), names(&["B", "C"]));
    assert_eq!(remove_name(&names(&["A", "B", "C"]), &"C".to_string()), names(&["A", "B"]));
    assert_eq!(remove_name(&names(&["A", "B", "C"]), &"D".to_string()), names(&["A", "B", "C"]));
    assert_eq!(remove_name(&names(&["A", "B", "A"]), &"A".to_string()), names(&["B"]));
    assert_eq!(remove_name(&names(&[]), &"A".to_string()), names(&[]));
}

#[test]
fn a_calibration_can_be_copied() {
    let calibration = MonitorCalibration {
        name: Some("HDMI-1".to_string()),
        scale: 1.5f64.to_bits(),
        origin: (-1920, 0),
    };
    assert_eq!(calibration.clone(), calibration);
    let unnamed = MonitorCalibration { name: None, scale: UNIT_SCALE, origin: (0, 0) };
    assert_eq!(unnamed.clone(), unnamed);
}
