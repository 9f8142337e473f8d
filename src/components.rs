use vstd::prelude::*;

use crate::offset::Offset;

verus! {

#[verifier::external_type_specification]
#[verifier::external_body]
#[verifier::reject_recursive_types(T)]
pub struct ExVecStorage<T>(specs::VecStorage<T>);

/// A cell of the grid an entity stands on.
#[derive(Clone, Copy, Debug, PartialEq, Eq, Structural)]
pub struct Position {
    pub x: i32,
    pub y: i32,
}

/// `v` brought into `[lo, hi]` as `min(hi, max(lo, v))` does it.
pub open spec fn clamp_coord(v: int, lo: int, hi: int) -> int {
    let raised = if v < lo { lo } else { v };
    if raised > hi { hi } else { raised }
}

fn clamp_i32(v: i32, lo: i32, hi: i32) -> (r: i32)
    ensures
        r == clamp_coord(v as int, lo as int, hi as int),
{
    let raised = if v < lo { lo } else { v };
    if raised > hi { hi } else { raised }
}

impl Position {
    pub fn clamp(&mut self, minx: i32, maxx: i32, miny: i32, maxy: i32)
        ensures
            final(self).x == clamp_coord(old(self).x as int, minx as int, maxx as int),
            final(self).y == clamp_coord(old(self).y as int, miny as int, maxy as int),
    {
        self.x = clamp_i32(self.x, minx, maxx);
        self.y = clamp_i32(self.y, miny, maxy);
    }
}

impl From<&Offset> for Position {
    fn from(offset: &Offset) -> (r: Position) {
        Position { x: offset.x, y: offset.y }
    }
}

impl vstd::std_specs::convert::FromSpecImpl<&Offset> for Position {
    open spec fn obeys_from_spec() -> bool {
        true
    }

    open spec fn from_spec(offset: &Offset) -> Position {
        Position { x: offset.x, y: offset.y }
    }
}

impl From<Offset> for Position {
    fn from(offset: Offset) -> (r: Position) {
        Position { x: offset.x, y: offset.y }
    }
}

impl vstd::std_specs::convert::FromSpecImpl<Offset> for Position {
    open spec fn obeys_from_spec() -> bool {
        true
    }

    open spec fn from_spec(offset: Offset) -> Position {
        Position { x: offset.x, y: offset.y }
    }
}

impl From<&Position> for Offset {
    fn from(pos: &Position) -> (r: Offset) {
        Offset::new(pos.x, pos.y)
    }
}

impl vstd::std_specs::convert::FromSpecImpl<&Position> for Offset {
    open spec fn obeys_from_spec() -> bool {
        true
    }

    open spec fn from_spec(pos: &Position) -> Offset {
        Offset { x: pos.x, y: pos.y }
    }
}

impl specs::Component for Position {
    type Storage = specs::VecStorage<Self>;
}

/// Marks the entity that the keyboard moves.
#[derive(Clone, Copy, Debug, PartialEq, Eq, Structural)]
pub struct Player {}

impl specs::Component for Player {
    type Storage = specs::VecStorage<Self>;
}

/// A terminal color, with the same variants as the terminal driver's.
#[derive(Clone, Copy, Debug, PartialEq, Eq, Structural)]
pub enum Color {
    Reset,
    Black,
    DarkGrey,
    Red,
    DarkRed,
    Green,
    DarkGreen,
    Yellow,
    DarkYellow,
    Blue,
    DarkBlue,
    Magenta,
    DarkMagenta,
    Cyan,
    DarkCyan,
    White,
    Grey,
    Rgb { r: u8, g: u8, b: u8 },
    AnsiValue(u8),
}

/// How one grid cell is drawn: a glyph, its color, and a background color
/// (none means the terminal's default).
#[derive(Clone, Copy, Debug, PartialEq, Eq, Structural)]
pub struct Renderable {
    pub glyph: char,
    pub fg: Color,
    pub bg: Option<Color>,
}

/// The blank cell: a space in white on the default background.
pub open spec fn blank() -> Renderable {
    Renderable { glyph: ' ', fg: Color::White, bg: None }
}

impl Default for Renderable {
    fn default() -> (r: Renderable)
        ensures
            r == blank(),
    {
        Renderable { glyph: ' ', fg: Color::White, bg: None }
    }
}

impl specs::Component for Renderable {
    type Storage = specs::VecStorage<Self>;
}

/// Marks an entity that others cannot pass through.
#[derive(Clone, Copy, Debug, PartialEq, Eq, Structural)]
pub struct Collider {}

impl Default for Collider {
    fn default() -> (r: Collider) {
        Collider {}
    }
}

impl specs::Component for Collider {
    type Storage = specs::VecStorage<Self>;
}

} // verus!
