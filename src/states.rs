use vstd::prelude::*;

verus! {

/// Whether typed characters move around or are collected as text.
#[derive(Debug, Clone, Copy, PartialEq, Eq, Structural)]
pub enum InputMode {
    Normal,
    Editing,
}

/// Which popup is open, from none to the deepest edit view.
#[derive(Debug, Clone, Copy, PartialEq, Eq, Structural)]
pub enum PopupMode {
    Hide,
    PlanetSystem,
    CenterStar,
    Planet,
    Find,
}

} // verus!
