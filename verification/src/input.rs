//! The event loop's decisions, separated from the terminal that supplies
//! the key presses: given the current scroll offset and one input action,
//! compute the next scroll offset and whether the viewer should quit.

use vstd::prelude::*;

verus! {

/// The semantic input actions the viewer reacts to.
#[derive(Debug, Clone, Copy, PartialEq, Eq, Structural)]
pub enum InputAction {
    /// Leave the viewer.
    Quit,
    /// Scroll down by one unit.
    ScrollDown,
    /// Scroll up by one unit.
    ScrollUp,
    /// Any other key: ignored.
    Other,
}

/// One step of the event loop's state: scrolling moves the offset by one in
/// the chosen direction, quitting and unknown keys leave it unchanged, and
/// only `Quit` ends the loop.
pub fn update_scroll(scroll: i64, action: InputAction) -> (r: (i64, bool))
    requires
        action == InputAction::ScrollDown ==> scroll < i64::MAX,
        action == InputAction::ScrollUp ==> scroll > i64::MIN,
    ensures
        action == InputAction::Quit ==> r.0 == scroll && r.1,
        action == InputAction::ScrollDown ==> r.0 == scroll + 1 && !r.1,
        action == InputAction::ScrollUp ==> r.0 == scroll - 1 && !r.1,
        action == InputAction::Other ==> r.0 == scroll && !r.1,
{
    match action {
        InputAction::Quit => (scroll, true),
        InputAction::ScrollDown => (scroll + 1, false),
        InputAction::ScrollUp => (scroll - 1, false),
        InputAction::Other => (scroll, false),
    }
}

} // verus!
