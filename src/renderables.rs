use vstd::prelude::*;

use crate::components::{Color, Renderable};

verus! {

/// How a floor tile is drawn.
pub open spec fn floor_look() -> Renderable {
    Renderable { glyph: '.', fg: Color::Yellow, bg: None }
}

/// How a wall tile is drawn.
pub open spec fn wall_look() -> Renderable {
    Renderable { glyph: '#', fg: Color::DarkGrey, bg: None }
}

pub fn renderable_floor() -> (r: Renderable)
    ensures
        r == floor_look(),
{
    Renderable { glyph: '.', fg: Color::Yellow, bg: None }
}

pub fn renderable_wall() -> (r: Renderable)
    ensures
        r == wall_look(),
{
    Renderable { glyph: '#', fg: Color::DarkGrey, bg: None }
}

} // verus!
