//! The diagnostic drawing switch.
use vstd::prelude::*;

verus! {

/// How much diagnostic drawing is shown.
#[derive(Clone, Copy, Debug, PartialEq, Eq, Structural)]
pub enum DebugLevel {
    Off,
    Basic,
}

/// The other level.
pub open spec fn toggled(level: DebugLevel) -> DebugLevel {
    match level {
        DebugLevel::Off => DebugLevel::Basic,
        DebugLevel::Basic => DebugLevel::Off,
    }
}

impl DebugLevel {
    /// Whether aim lines and physics outlines are drawn.
    pub fn draws_lines(&self) -> (r: bool)
        ensures
            r == (*self == DebugLevel::Basic),
    {
        match self {
            DebugLevel::Off => false,
            DebugLevel::Basic => true,
        }
    }
}

/// A click on the debug key switches the level. Returns, after a click,
/// whether physics outlines are now to be drawn.
pub fn switch_debug(debug_level: &mut DebugLevel, clicked: bool) -> (r: Option<bool>)
    ensures
        *final(debug_level) == if clicked { toggled(*old(debug_level)) } else { *old(debug_level) },
        clicked ==> r == Some(*final(debug_level) == DebugLevel::Basic),
        !clicked ==> r is None,
{
    if !clicked {
        return None;
    }
    *debug_level = match *debug_level {
        DebugLevel::Off => DebugLevel::Basic,
        DebugLevel::Basic => DebugLevel::Off,
    };
    Some(debug_level.draws_lines())
}

} // verus!
