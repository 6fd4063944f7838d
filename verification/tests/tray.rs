use keyviz::tray::{indicator_label, tray_command, TrayCommand};

#[test]
fn the_menu_entries_are_told_apart_by_their_identifier() {
    assert_eq!(tray_command("toggle"), TrayCommand::Toggle);
    assert_eq!(tray_command("settings"), TrayCommand::Settings);
    assert_eq!(tray_command("quit"), TrayCommand::Quit);
}

#[test]
fn any_other_identifier_is_unknown() {
    assert_eq!(tray_command(""), TrayCommand::Unknown);
    assert_eq!(tray_command("Toggle"), TrayCommand::Unknown);
    assert_eq!(tray_command("toggle "), TrayCommand::Unknown);
    assert_eq!(tray_command("quit!"), TrayCommand::Unknown);
    assert_eq!(tray_command("about"), TrayCommand::Unknown);
}

#[test]
fn the_label_names_what_choosing_the_entry_does() {
    assert_eq!(indicator_label(true), "Stop");
    assert_eq!(indicator_label(false), "Start");
}
