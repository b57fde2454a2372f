//! The gesture a pointer makes between two updates, from the kinds of its
//! button states; the positions and pressures stay with the caller.

use vstd::prelude::*;

verus! {

/// The kind of a pointer button state.
#[derive(Clone, Copy, Debug, PartialEq, Eq, Structural)]
pub enum ButtonKind {
    NoButton,
    Pressed,
    Released,
    Scroll,
}

/// The kind of a pointer gesture.
#[derive(Clone, Copy, Debug, PartialEq, Eq, Structural)]
pub enum EventKind {
    NoEvent,
    Click,
    Drag,
    Move,
    Scroll,
}

/// The gesture from a state of kind `prev` to one of kind `curr`, where
/// `still` says the pointer did not move: a release held still is nothing,
/// one that moved a move; a press after a release is a click, a press held
/// a drag; a scroll is a scroll whatever came before; anything else is
/// nothing.
pub open spec fn spec_event_kind(prev: ButtonKind, curr: ButtonKind, still: bool) -> EventKind {
    match (prev, curr) {
        (ButtonKind::Released, ButtonKind::Released) => if still { EventKind::NoEvent } else { EventKind::Move },
        (ButtonKind::Released, ButtonKind::Pressed) => EventKind::Click,
        (ButtonKind::Pressed, ButtonKind::Pressed) => EventKind::Drag,
        (ButtonKind::Pressed, ButtonKind::Released) => EventKind::NoEvent,
        (_, ButtonKind::Scroll) => EventKind::Scroll,
        _ => EventKind::NoEvent,
    }
}

/// The gesture between two pointer states, as `spec_event_kind` says.
pub fn event_kind(prev: ButtonKind, curr: ButtonKind, still: bool) -> (e: EventKind)
    ensures
        e == spec_event_kind(prev, curr, still),
{
    match (prev, curr) {
        (ButtonKind::Released, ButtonKind::Released) => if still { EventKind::NoEvent } else { EventKind::Move },
        (ButtonKind::Released, ButtonKind::Pressed) => EventKind::Click,
        (ButtonKind::Pressed, ButtonKind::Pressed) => EventKind::Drag,
        (ButtonKind::Pressed, ButtonKind::Released) => EventKind::NoEvent,
        (_, ButtonKind::Scroll) => EventKind::Scroll,
        _ => EventKind::NoEvent,
    }
}

} // verus!
