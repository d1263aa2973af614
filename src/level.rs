use vstd::prelude::*;

use crate::cell::Cell;
use crate::geometry::{Coord, Direction, step_spec};
use crate::grid::{
    Grid, at, boxes, grid_count, in_bounds, ind, lemma_grid_count_bound, lemma_grid_count_update,
    lemma_put, lemma_wrapped_count, lemma_wrapped_shape, players, put, rectangular, same_shape,
    unlocked_boxes, well_shaped, wrapped,
};

verus! {

/// One level in play: its grid, where the player stands, how many moves were
/// made and how many boxes still wait for a target.
#[derive(Debug)]
pub struct Level {
    pub player_location: Coord,
    pub level_state: Grid,
    pub move_counter: usize,
    pub remaining_boxes: usize,
}

/// The cell at an optional coordinate, where it lies inside the grid.
pub open spec fn look(g: Seq<Seq<Cell>>, c: Option<Coord>) -> Option<Cell> {
    match c {
        Some(q) => if in_bounds(g, q) {
            Some(at(g, q))
        } else {
            None
        },
        None => None,
    }
}

/// What a tile shows once its occupant leaves: the target beneath, or nothing.
pub open spec fn vacated(on_target: bool) -> Cell {
    if on_target {
        Cell::Target
    } else {
        Cell::Empty
    }
}

/// The result of one move of the player at `p` in direction `d`: the new
/// grid, the new player location, the change in the move counter and the
/// change in the remaining-box counter. A lookahead that leaves the grid is
/// treated as a wall; a grid without a player at `p` is left as it is.
pub open spec fn move_spec(g: Seq<Seq<Cell>>, p: Coord, d: Direction) -> (
    Seq<Seq<Cell>>,
    Coord,
    int,
    int,
) {
    let c1 = step_spec(p, d, 1);
    let c2 = step_spec(p, d, 2);
    let unchanged = (g, p, 0int, 0int);
    match (at(g, p), look(g, c1)) {
        (Cell::Player { on_target, hp }, Some(Cell::Empty)) => {
            let q = c1->Some_0;
            (put(put(g, p, vacated(on_target)), q, Cell::Player { on_target: false, hp }), q, 1, 0)
        },
        (Cell::Player { on_target, hp }, Some(Cell::Target)) => {
            let q = c1->Some_0;
            (put(put(g, p, vacated(on_target)), q, Cell::Player { on_target: true, hp }), q, 1, 0)
        },
        (Cell::Player { .. }, Some(Cell::Box { locked })) => {
            let q = c1->Some_0;
            match look(g, c2) {
                Some(Cell::Empty) => (
                    put(put(g, q, vacated(locked)), c2->Some_0, Cell::Box { locked: false }),
                    p,
                    0,
                    if locked {
                        1
                    } else {
                        0
                    },
                ),
                Some(Cell::Target) => (
                    put(put(g, q, vacated(locked)), c2->Some_0, Cell::Box { locked: true }),
                    p,
                    0,
                    if locked {
                        0
                    } else {
                        -1
                    },
                ),
                _ => unchanged,
            }
        },
        _ => unchanged,
    }
}

/// The level invariant over its parts: a well-shaped grid, a player location
/// inside it, at most one player, standing at that location if present, and a
/// remaining-box counter equal to the number of boxes off target.
pub open spec fn level_inv(g: Seq<Seq<Cell>>, p: Coord, remaining: int) -> bool {
    &&& well_shaped(g)
    &&& in_bounds(g, p)
    &&& grid_count(g, players()) == ind(at(g, p) is Player)
    &&& remaining == grid_count(g, unlocked_boxes())
}

/// A move keeps the level invariant, the grid's shape, the player and every
/// box, and changes the move counter by at most one.
pub proof fn lemma_move_spec(g: Seq<Seq<Cell>>, p: Coord, remaining: int, d: Direction)
    requires
        level_inv(g, p, remaining),
    ensures
        ({
            let (g2, p2, dm, dr) = move_spec(g, p, d);
            &&& level_inv(g2, p2, remaining + dr)
            &&& same_shape(g2, g)
            &&& (at(g, p) is Player ==> at(g2, p2) is Player)
            &&& grid_count(g2, boxes()) == grid_count(g, boxes())
            &&& 0 <= dm <= 1
            &&& 0 <= remaining + dr <= 65535 * 65535
            &&& forall|c: Coord| in_bounds(g, c) ==> (#[trigger] at(g2, c) is Wall) == (at(g, c) is Wall)
            &&& (p2 == p || (step_spec(p, d, 1) == Some(p2) && !(at(g, p2) is Wall)))
        }),
{
    let (g2, p2, dm, dr) = move_spec(g, p, d);
    let c1 = step_spec(p, d, 1);
    let c2 = step_spec(p, d, 2);
    if g2 != g {
        let q = c1->Some_0;
        match at(g, q) {
            Cell::Empty | Cell::Target => {
                let h = put(g, p, vacated(at(g, p)->Player_on_target));
                lemma_put(g, p, vacated(at(g, p)->Player_on_target));
                lemma_put(h, q, at(g2, q));
                lemma_grid_count_update(g, p, at(h, p), players());
                lemma_grid_count_update(h, q, at(g2, q), players());
                lemma_grid_count_update(g, p, at(h, p), unlocked_boxes());
                lemma_grid_count_update(h, q, at(g2, q), unlocked_boxes());
                lemma_grid_count_update(g, p, at(h, p), boxes());
                lemma_grid_count_update(h, q, at(g2, q), boxes());
            },
            _ => {
                let r = c2->Some_0;
                let h = put(g, q, vacated(at(g, q)->Box_locked));
                lemma_put(g, q, vacated(at(g, q)->Box_locked));
                lemma_put(h, r, at(g2, r));
                lemma_grid_count_update(g, q, at(h, q), players());
                lemma_grid_count_update(h, r, at(g2, r), players());
                lemma_grid_count_update(g, q, at(h, q), unlocked_boxes());
                lemma_grid_count_update(h, r, at(g2, r), unlocked_boxes());
                lemma_grid_count_update(g, q, at(h, q), boxes());
                lemma_grid_count_update(h, r, at(g2, r), boxes());
            },
        }
    }
    lemma_grid_count_bound(g2, unlocked_boxes());
    assert(g.len() * g[0].len() <= 65535 * 65535) by (nonlinear_arith)
        requires
            g.len() <= 65535,
            g[0].len() <= 65535,
    ;
}

/// Two levels with the same grid, location and counters.
pub open spec fn same_level(a: Level, b: Level) -> bool {
    &&& a.level_state@ == b.level_state@
    &&& a.player_location == b.player_location
    &&& a.move_counter == b.move_counter
    &&& a.remaining_boxes == b.remaining_boxes
}

/// `n + k`, held at the largest `usize`.
pub open spec fn saturating_count(n: usize, k: int) -> int {
    if n + k > usize::MAX {
        usize::MAX as int
    } else {
        n + k
    }
}

/// `b` is `a` after one move in direction `d`; the move counter stops at the
/// largest `usize`.
pub open spec fn after_move(a: Level, b: Level, d: Direction) -> bool {
    let (g, p, dm, dr) = move_spec(a.level_state@, a.player_location, d);
    &&& b.level_state@ == g
    &&& b.player_location == p
    &&& b.move_counter == saturating_count(a.move_counter, dm)
    &&& b.remaining_boxes == a.remaining_boxes + dr
}

/// What a grid must be for a level to be made of it: rectangular, small
/// enough to keep `u16` coordinates once wrapped, and holding one player.
/// `Grid::is_rectangular`, `Grid::bounds` and `Grid::player_count` test it.
pub open spec fn level_source(g: Seq<Seq<Cell>>) -> bool {
    &&& rectangular(g)
    &&& g.len() <= MAX_SIDE
    &&& g[0].len() <= MAX_SIDE
    &&& grid_count(g, players()) == 1
}

/// The largest number of rows or columns a grid may have before it is wrapped.
pub const MAX_SIDE: usize = 65533;

impl Level {
    /// The level's invariant: a well-shaped grid, a cached player location
    /// inside it, at most one player, standing at that location if present,
    /// and a counter equal to the number of boxes off target.
    pub open spec fn wf(&self) -> bool {
        level_inv(self.level_state@, self.player_location, self.remaining_boxes as int)
    }

    /// Builds a level from a grid: surrounds it with empty cells and finds its
    /// one player. Every box that is not locked counts as remaining. A grid
    /// that is not rectangular, or holds no player or several, is no level.
    pub fn from_grid(grid: Grid) -> (l: Level)
        requires
            level_source(grid@),
        ensures
            l.wf(),
            l.level_state@ == wrapped(grid@, Cell::Empty),
            at(l.level_state@, l.player_location) is Player,
            grid_count(l.level_state@, players()) == 1,
            l.move_counter == 0,
            l.remaining_boxes == grid_count(grid@, unlocked_boxes()),
    {
        let remaining_boxes = grid.count(Cell::Box { locked: false });
        let ghost g0 = grid@;
        let mut grid = grid;
        grid.wrap(Cell::Empty);
        proof {
            lemma_wrapped_count(g0, Cell::Empty, players());
            lemma_wrapped_count(g0, Cell::Empty, unlocked_boxes());
            lemma_wrapped_shape(g0, Cell::Empty);
        }
        let player_location = grid.get_player().unwrap();
        Level { player_location, level_state: grid, move_counter: 0, remaining_boxes }
    }

    /// Moves the player one cell in `direction`, or pushes the box ahead where
    /// the cell beyond it is free; a blocked move changes nothing. The player
    /// must stand at its cached location: a level whose player a bullet
    /// destroyed takes no more moves.
    pub fn move_player(&mut self, direction: Direction)
        requires
            old(self).wf(),
            at(old(self).level_state@, old(self).player_location) is Player,
        ensures
            final(self).wf(),
            after_move(*old(self), *final(self), direction),
    {
        let ghost g = self.level_state@;
        proof {
            lemma_move_spec(g, self.player_location, self.remaining_boxes as int, direction);
        }
        let p = self.player_location;
        let (on_target, hp) = match self.level_state.cell(p) {
            Some(Cell::Player { on_target, hp }) => (on_target, hp),
            _ => {
                return;
            },
        };
        let c1 = match p.step(direction, 1) {
            Some(c) => c,
            None => {
                return;
            },
        };
        let n1 = match self.level_state.cell(c1) {
            Some(v) => v,
            None => {
                return;
            },
        };
        match n1 {
            Cell::Empty | Cell::Target => {
                let left = if on_target {
                    Cell::Target
                } else {
                    Cell::Empty
                };
                let moved = Cell::Player { on_target: n1 == Cell::Target, hp };
                proof {
                    lemma_put(g, p, left);
                }
                self.level_state.set(p, left);
                self.level_state.set(c1, moved);
                self.player_location = c1;
                self.move_counter = self.move_counter.saturating_add(1);
            },
            Cell::Box { locked } => {
                let c2 = match p.step(direction, 2) {
                    Some(c) => c,
                    None => {
                        return;
                    },
                };
                let n2 = match self.level_state.cell(c2) {
                    Some(v) => v,
                    None => {
                        return;
                    },
                };
                let onto_target = match n2 {
                    Cell::Empty => false,
                    Cell::Target => true,
                    _ => {
                        return;
                    },
                };
                let left = if locked {
                    Cell::Target
                } else {
                    Cell::Empty
                };
                let pushed = Cell::Box { locked: onto_target };
                proof {
                    lemma_put(g, c1, left);
                }
                self.level_state.set(c1, left);
                self.level_state.set(c2, pushed);
                if locked && !onto_target {
                    self.remaining_boxes = self.remaining_boxes + 1;
                } else if !locked && onto_target {
                    self.remaining_boxes = self.remaining_boxes - 1;
                }
            },
            _ => {},
        }
    }

    /// Whether every box rests on a target.
    pub fn is_complete(&self) -> (r: bool)
        requires
            self.wf(),
        ensures
            r == (self.remaining_boxes == 0),
            r == (grid_count(self.level_state@, unlocked_boxes()) == 0),
    {
        self.remaining_boxes == 0
    }
}

} // verus!
