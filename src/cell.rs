use vstd::prelude::*;

use crate::geometry::Direction;

verus! {

/// The state of one grid position.
#[derive(Clone, Copy, Debug, PartialEq, Eq, Structural)]
pub enum Cell {
    Empty,
    /// The player; `on_target` records that a target lies beneath.
    Player { on_target: bool, hp: u8 },
    /// A stationary gun that fires when its cooldown reaches zero.
    Turret { direction: Direction, cooldown: u8 },
    /// A projectile; `on_target` records that a target lies beneath.
    Bullet { direction: Direction, on_target: bool },
    /// A box; `locked` means it rests on a target.
    Box { locked: bool },
    Wall,
    Target,
}

/// The two-character glyph that displays a cell.
pub open spec fn glyph(c: Cell) -> &'static str {
    match c {
        Cell::Player { on_target: false, .. } => "@@",
        Cell::Player { on_target: true, .. } => "@<",
        Cell::Box { locked: false } => "[]",
        Cell::Box { locked: true } => "░░",
        Cell::Empty => "  ",
        Cell::Wall => "██",
        Cell::Target => "><",
        Cell::Turret { direction: Direction::Up, .. } => "▟▙",
        Cell::Turret { direction: Direction::Left, .. } => "┫█",
        Cell::Turret { direction: Direction::Right, .. } => "█┣",
        Cell::Turret { direction: Direction::Down, .. } => "▜▛",
        Cell::Bullet { .. } => "🞀🞂",
    }
}

impl Cell {
    /// The glyph that displays this cell.
    pub fn to_string(&self) -> (r: &'static str)
        ensures
            r == glyph(*self),
    {
        match self {
            Cell::Player { on_target: false, .. } => "@@",
            Cell::Player { on_target: true, .. } => "@<",
            Cell::Box { locked: false } => "[]",
            Cell::Empty => "  ",
            Cell::Wall => "██",
            Cell::Target => "><",
            Cell::Box { locked: true } => "░░",
            Cell::Turret { direction, .. } => match direction {
                Direction::Up => "▟▙",
                Direction::Left => "┫█",
                Direction::Right => "█┣",
                Direction::Down => "▜▛",
            },
            Cell::Bullet { .. } => "🞀🞂",
        }
    }
}

} // verus!
