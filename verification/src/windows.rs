//! The rules applied to desktop windows: which ones are listed, how a
//! minimised window is restored, and which icon represents a window.
use vstd::prelude::*;

verus! {

/// How a minimised window is brought back before it is focused.
#[derive(Debug, Clone, Copy, PartialEq, Eq, Structural)]
pub enum RestoreCommand {
    /// It was maximised before it was minimised: show it maximised.
    ShowMaximized,
    /// Restore it to its normal size.
    Restore,
}

/// Whether an enumerated top-level window is listed, before its title is
/// read: it must be visible, not cloaked by the compositor (`cloaked` is the
/// answer of the cloak query, `None` when the query failed), and have a
/// non-empty title.
pub fn is_candidate_window(visible: bool, cloaked: Option<u32>, title_len: i32) -> (b: bool)
    ensures
        b == (visible && !(cloaked matches Some(c) && c != 0) && title_len != 0),
{
    if !visible {
        return false;
    }
    match cloaked {
        Some(c) => {
            if c != 0 {
                return false;
            }
        },
        None => {},
    }
    title_len != 0
}

/// How to bring a window back before focusing it: a minimised window is
/// shown maximised if it was maximised, and restored otherwise; a window that
/// is not minimised is only focused.
pub fn restore_command(iconic: bool, zoomed: bool) -> (r: Option<RestoreCommand>)
    ensures
        r == (if !iconic {
            None
        } else if zoomed {
            Some(RestoreCommand::ShowMaximized)
        } else {
            Some(RestoreCommand::Restore)
        }),
{
    if iconic {
        if zoomed {
            Some(RestoreCommand::ShowMaximized)
        } else {
            Some(RestoreCommand::Restore)
        }
    } else {
        None
    }
}

/// The icon that represents a window, tried in this order: the window's small
/// icon, its big icon, its class's small icon, its class's big icon (0 means
/// none).
pub fn pick_icon(small: isize, big: isize, class_small: isize, class_big: isize) -> (r: Option<isize>)
    ensures
        r == (if small != 0 {
            Some(small)
        } else if big != 0 {
            Some(big)
        } else if class_small != 0 {
            Some(class_small)
        } else if class_big != 0 {
            Some(class_big)
        } else {
            None
        }),
{
    if small != 0 {
        Some(small)
    } else if big != 0 {
        Some(big)
    } else if class_small != 0 {
        Some(class_small)
    } else if class_big != 0 {
        Some(class_big)
    } else {
        None
    }
}

} // verus!
