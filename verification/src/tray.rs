//! The decisions behind the system tray: which menu item does what, when a
//! click on the icon toggles the window, and how the menu reads afterwards.
use crate::text::same_text;
use vstd::prelude::*;

verus! {

/// The tray icon's id.
pub const TRAY_ID: &'static str = "perch";

/// The id of the Show/Hide menu item.
pub const SHOW_ITEM_ID: &'static str = "show";

/// The id of the Quit menu item.
pub const QUIT_ITEM_ID: &'static str = "quit";

/// The label of the Quit menu item.
pub const QUIT_LABEL: &'static str = "Quit";

/// What a click on a menu item asks for.
#[derive(Debug, Clone, Copy, PartialEq, Eq, Structural)]
pub enum MenuAction {
    /// Show the window when hidden, hide it when shown.
    ToggleWindow,
    /// Quit the application.
    Quit,
    /// An item that nothing handles.
    Unhandled,
}

/// The action of the menu item with id `id`.
pub open spec fn menu_action_of(id: Seq<char>) -> MenuAction {
    if id == SHOW_ITEM_ID@ {
        MenuAction::ToggleWindow
    } else if id == QUIT_ITEM_ID@ {
        MenuAction::Quit
    } else {
        MenuAction::Unhandled
    }
}

/// The action of the menu item with id `id`.
pub fn menu_action(id: &str) -> (a: MenuAction)
    ensures
        a == menu_action_of(id@),
{
    if same_text(id, SHOW_ITEM_ID) {
        MenuAction::ToggleWindow
    } else if same_text(id, QUIT_ITEM_ID) {
        MenuAction::Quit
    } else {
        MenuAction::Unhandled
    }
}

/// A click on the tray icon toggles the window when it is the left button
/// being released.
pub fn click_toggles(left_button: bool, released: bool) -> (r: bool)
    ensures
        r == (left_button && released),
{
    left_button && released
}

/// What toggling the window does.
pub struct TogglePlan {
    /// Show (unminimize, show, focus) the window; else hide it.
    pub show_window: bool,
    /// The Show/Hide item's label afterwards.
    pub menu_label: &'static str,
}

/// Toggling a window that is `visible` hides it and offers "Show"; toggling a
/// hidden one shows it and offers "Hide".
pub fn toggle_plan(visible: bool) -> (p: TogglePlan)
    ensures
        p.show_window == !visible,
        p.menu_label@ == (if visible {
            "Show"@
        } else {
            "Hide"@
        }),
{
    TogglePlan {
        show_window: !visible,
        menu_label: if visible {
            "Show"
        } else {
            "Hide"
        },
    }
}

/// The label of the Show/Hide item in a fresh menu, while the window is hidden.
pub const INITIAL_SHOW_LABEL: &'static str = "Show";

} // verus!
