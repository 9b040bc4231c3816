//! Recognising the notification-area icon's messages and the commands of its
//! context menu.
use vstd::prelude::*;

verus! {

/// The message the notification-area icon sends to the overlay window
/// (the first application message, `WM_APP + 1`).
pub const TRAY_MSG_ID: u32 = 0x8001;

/// The mouse message carried by a notification for a released right button.
pub const WM_RBUTTONUP: u32 = 0x0205;

// Menu item identifiers.
pub const ID_SHOW_OVERLAY: u32 = 1001;
pub const ID_RELOAD_CONFIG: u32 = 1002;
pub const ID_OPEN_CONFIG_FOLDER: u32 = 1003;
pub const ID_QUIT: u32 = 1004;

/// A command of the context menu.
#[derive(Debug, Clone, Copy, PartialEq, Eq, Structural)]
pub enum TrayMenuAction {
    ShowOverlay,
    ReloadConfig,
    OpenConfigFolder,
    Quit,
}

/// Whether a window message is a notification from the icon.
pub fn is_tray_msg(msg: u32) -> (b: bool)
    ensures
        b == (msg == TRAY_MSG_ID),
{
    msg == TRAY_MSG_ID
}

/// Whether a notification's `lparam` reports a released right button (its
/// low 32 bits are the mouse message).
pub fn is_rbutton_up(lparam: isize) -> (b: bool)
    ensures
        b == ((lparam as u32) == WM_RBUTTONUP),
{
    (lparam as u32) == WM_RBUTTONUP
}

/// The menu command that a command message's `wparam` (its low 32 bits)
/// selects, if it is one of the menu's items.
pub fn is_tray_menu_cmd(wparam: usize) -> (r: Option<TrayMenuAction>)
    ensures
        r == (if (wparam as u32) == ID_SHOW_OVERLAY {
            Some(TrayMenuAction::ShowOverlay)
        } else if (wparam as u32) == ID_RELOAD_CONFIG {
            Some(TrayMenuAction::ReloadConfig)
        } else if (wparam as u32) == ID_OPEN_CONFIG_FOLDER {
            Some(TrayMenuAction::OpenConfigFolder)
        } else if (wparam as u32) == ID_QUIT {
            Some(TrayMenuAction::Quit)
        } else {
            None
        }),
{
    let id = wparam as u32;
    if id == ID_SHOW_OVERLAY {
        Some(TrayMenuAction::ShowOverlay)
    } else if id == ID_RELOAD_CONFIG {
        Some(TrayMenuAction::ReloadConfig)
    } else if id == ID_OPEN_CONFIG_FOLDER {
        Some(TrayMenuAction::OpenConfigFolder)
    } else if id == ID_QUIT {
        Some(TrayMenuAction::Quit)
    } else {
        None
    }
}

} // verus!
