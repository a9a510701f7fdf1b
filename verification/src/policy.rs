//! Focus-decision policies: pure functions that decide which window to
//! remember and whether a forced refocus is appropriate.

use vstd::prelude::*;
use crate::window::{WindowInfo, is_editor_app_name};
use crate::state::ConversationState;
use crate::strutil::str_eq;

verus! {

/// The window to remember for a conversation: the one the user was in before
/// switching into the editor, or the current window when no previous window
/// is known, or nothing when neither is known.
pub open spec fn spec_select_window_to_save(
    cursor_window: Option<WindowInfo>,
    previous_window: Option<WindowInfo>,
) -> Option<WindowInfo> {
    if previous_window is Some {
        previous_window
    } else {
        cursor_window
    }
}

/// Prefers the previous window; falls back to the current one; `None` when
/// neither is known.
pub fn select_window_to_save(
    cursor_window: Option<WindowInfo>,
    previous_window: Option<WindowInfo>,
) -> (r: Option<WindowInfo>)
    ensures
        r == spec_select_window_to_save(cursor_window, previous_window),
{
    match previous_window {
        Some(w) => Some(w),
        None => cursor_window,
    }
}

/// Whether a forced refocus may proceed: never when the user deliberately
/// switched away; always when the user is already in the editor; not when
/// the user moved on to a third, unrelated application; otherwise yes.
pub open spec fn spec_should_force_refocus(
    conversation: ConversationState,
    current_window: WindowInfo,
) -> bool {
    if conversation.user_switched {
        false
    } else if is_editor_app_name(current_window.app_name@) {
        true
    } else if current_window.app_name@ != conversation.saved_window.app_name@ {
        false
    } else {
        true
    }
}

/// Decides whether to force focus back, given the remembered conversation
/// state and the window the user is in right now.
pub fn should_force_refocus(conversation: &ConversationState, current_window: &WindowInfo) -> (r:
    bool)
    ensures
        r == spec_should_force_refocus(*conversation, *current_window),
{
    if conversation.user_switched {
        return false;
    }
    if current_window.is_cursor() {
        return true;
    }
    str_eq(current_window.app_name.as_str(), conversation.saved_window.app_name.as_str())
}

/// The window to return to after a shell command: when the user is in the
/// editor, whatever they were in before entering it; otherwise the current
/// window itself; nothing when the current window is unknown.
pub open spec fn spec_secondary_window_for_shell(
    current_window: Option<WindowInfo>,
    previous_window: Option<WindowInfo>,
) -> Option<WindowInfo> {
    match current_window {
        None => None::<WindowInfo>,
        Some(c) => if is_editor_app_name(c.app_name@) {
            previous_window
        } else {
            Some(c)
        },
    }
}

/// Picks the secondary window for a pending shell command. Evaluate this at
/// the moment the command is about to run, with the previous window probed
/// then.
pub fn secondary_window_for_shell(
    current_window: Option<WindowInfo>,
    previous_window: Option<WindowInfo>,
) -> (r: Option<WindowInfo>)
    ensures
        r == spec_secondary_window_for_shell(current_window, previous_window),
{
    match current_window {
        None => None,
        Some(c) => {
            if c.is_cursor() {
                previous_window
            } else {
                Some(c)
            }
        },
    }
}

} // verus!
