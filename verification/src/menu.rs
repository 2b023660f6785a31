//! Icons and context-menu entries that the panels hand to the drawing layer.
use vstd::prelude::*;

verus! {

/// The icons the panels ask the drawing layer for.
#[derive(Clone, Copy, Debug, PartialEq, Eq, Hash, Structural)]
pub enum AppIcon {
    Rename,
    New,
    Remove,
    Delete,
    Composition,
    Copy,
    Import,
    Paste,
    Timeline,
    Restore,
    Image,
    Video,
    Audio,
    Node,
    Media,
}

/// One entry of a context menu: its text, its icon and whether it can be chosen.
#[derive(Clone, Copy, Debug)]
pub struct ContextMenuItem {
    pub label: &'static str,
    pub icon: Option<AppIcon>,
    pub enabled: bool,
}

/// A context-menu entry with the given parts.
pub open spec fn menu_item(label: &'static str, icon: Option<AppIcon>, enabled: bool) -> ContextMenuItem {
    ContextMenuItem { label, icon, enabled }
}

pub fn item(label: &'static str, icon: Option<AppIcon>, enabled: bool) -> (it: ContextMenuItem)
    ensures
        it == menu_item(label, icon, enabled),
{
    ContextMenuItem { label, icon, enabled }
}

} // verus!
