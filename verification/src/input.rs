//! Keyboard state handed to the panels by the window layer.
use vstd::prelude::*;

verus! {

/// Which modifier keys are held.
#[derive(Clone, Copy, Debug, PartialEq, Eq, Structural)]
pub struct Modifiers {
    pub shift: bool,
    pub control: bool,
    pub alt: bool,
    pub super_key: bool,
}

/// The drag under way in a panel's value controls: none, an angle knob turned by the pointer,
/// or a drag that hides the pointer and holds it in place (a number field, an angle's number,
/// a slider or the colour picker).
#[derive(Clone, Copy, Debug, PartialEq, Eq, Structural)]
pub enum ControlDrag {
    Idle,
    Free,
    PointerLocked,
}

/// The keys the panels react to; every other key is `Other`.
#[derive(Clone, Copy, Debug, PartialEq, Eq, Structural)]
pub enum PanelKey {
    ArrowUp,
    ArrowDown,
    Delete,
    Backspace,
    Other,
}

} // verus!
