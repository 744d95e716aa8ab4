//! The closed set of scenery kinds a grid cell can hold, and their glyph
//! mapping.

use vstd::prelude::*;

verus! {

/// One kind of scenery occupying a grid cell. `StationaryCrab` is the
/// transient marker for "an entity currently occupies this cell"; it is
/// cleared and restamped every tick.
#[derive(Debug, Clone, Copy, PartialEq, Eq, Structural)]
pub enum Scenery {
    Empty,
    Block,
    ForwardWedge,
    BackwardWedge,
    ForwardBoost,
    BackwardBoost,
    Trampoline,
    Safety,
    StationaryCrab,
}

/// The fixed glyph table: which scenery a layout character denotes.
/// Any unlisted character (including space) is `Empty`.
pub open spec fn scenery_of_char(c: char) -> Scenery {
    if c == '#' {
        Scenery::Block
    } else if c == '/' {
        Scenery::ForwardWedge
    } else if c == '\\' {
        Scenery::BackwardWedge
    } else if c == '>' {
        Scenery::ForwardBoost
    } else if c == '<' {
        Scenery::BackwardBoost
    } else if c == '@' {
        Scenery::Trampoline
    } else if c == 'X' {
        Scenery::Safety
    } else {
        Scenery::Empty
    }
}

/// The glyph a scenery kind is drawn and saved as.
pub open spec fn char_of_scenery(s: Scenery) -> char {
    match s {
        Scenery::Empty => ' ',
        Scenery::Block => '#',
        Scenery::ForwardWedge => '/',
        Scenery::BackwardWedge => '\\',
        Scenery::ForwardBoost => '>',
        Scenery::BackwardBoost => '<',
        Scenery::Trampoline => '@',
        Scenery::Safety => 'X',
        Scenery::StationaryCrab => '.',
    }
}

impl Scenery {
    /// The scenery kind a layout character denotes.
    pub fn new(scenery: char) -> (r: Self)
        ensures
            r == scenery_of_char(scenery),
    {
        match scenery {
            '#' => Self::Block,
            '/' => Self::ForwardWedge,
            '\\' => Self::BackwardWedge,
            '>' => Self::ForwardBoost,
            '<' => Self::BackwardBoost,
            '@' => Self::Trampoline,
            'X' => Self::Safety,
            _ => Self::Empty,
        }
    }

    /// The glyph this scenery kind is drawn and saved as.
    pub fn to_char(&self) -> (r: char)
        ensures
            r == char_of_scenery(*self),
    {
        match self {
            Self::Empty => ' ',
            Self::Block => '#',
            Self::ForwardWedge => '/',
            Self::BackwardWedge => '\\',
            Self::ForwardBoost => '>',
            Self::BackwardBoost => '<',
            Self::Trampoline => '@',
            Self::Safety => 'X',
            Self::StationaryCrab => '.',
        }
    }
}

} // verus!
