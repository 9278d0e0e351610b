use perch::tray::{click_toggles, menu_action, toggle_plan, MenuAction};

#[test]
fn menu_items() {
    assert_eq!(menu_action("show"), MenuAction::ToggleWindow);
    assert_eq!(menu_action("quit"), MenuAction::Quit);
    assert_eq!(menu_action("Show"), MenuAction::Unhandled);
    assert_eq!(menu_action(""), MenuAction::Unhandled);
}

#[test]
fn toggling() {
    let hide = toggle_plan(true);
    assert!(!hide.show_window);
    assert_eq!(hide.menu_label, "Show");
    let show = toggle_plan(false);
    assert!(show.show_window);
    assert_eq!(show.menu_label, "Hide");
}

#[test]
fn only_left_release_toggles() {
    assert!(click_toggles(true, true));
    assert!(!click_toggles(true, false));
    assert!(!click_toggles(false, true));
}

#[test]
fn settings_store_starts() {
    perch::settings_store::init();
}
