use vstd::prelude::*;

use crate::cell::Cell;
use crate::geometry::{Coord, Direction, step_spec};
use crate::grid::{
    Grid, at, grid_count, in_bounds, ind, lemma_grid_count_agree, lemma_grid_count_single,
    lemma_grid_count_some, lemma_grid_count_update, lemma_put, players, put, same_shape, unlocked_boxes, well_shaped,
};
use crate::level::{Level, look};

verus! {

/// The direction facing the other way.
pub open spec fn opposite(d: Direction) -> Direction {
    match d {
        Direction::Up => Direction::Down,
        Direction::Down => Direction::Up,
        Direction::Left => Direction::Right,
        Direction::Right => Direction::Left,
    }
}

/// The direction in which a cell shoots during a tick: a bullet always flies
/// on, a turret fires when its cooldown is zero.
pub open spec fn fires(v: Cell) -> Option<Direction> {
    match v {
        Cell::Bullet { direction, .. } => Some(direction),
        Cell::Turret { direction, cooldown } => if cooldown == 0 {
            Some(direction)
        } else {
            None
        },
        _ => None,
    }
}

/// Whether the neighbour behind `c` (seen along `d`) shoots into `c` along `d`.
pub open spec fn shot_along(g: Seq<Seq<Cell>>, c: Coord, d: Direction) -> bool {
    match look(g, step_spec(c, opposite(d), 1)) {
        Some(v) => fires(v) == Some(d),
        None => false,
    }
}

/// The direction of a shot that reaches `c` this tick; where several do, the
/// first of up, down, left and right.
pub open spec fn incoming(g: Seq<Seq<Cell>>, c: Coord) -> Option<Direction> {
    if shot_along(g, c, Direction::Up) {
        Some(Direction::Up)
    } else if shot_along(g, c, Direction::Down) {
        Some(Direction::Down)
    } else if shot_along(g, c, Direction::Left) {
        Some(Direction::Left)
    } else if shot_along(g, c, Direction::Right) {
        Some(Direction::Right)
    } else {
        None
    }
}

/// The next generation of the cell at `c`, read from the current generation
/// `g` alone.
pub open spec fn next_cell(g: Seq<Seq<Cell>>, c: Coord) -> Cell {
    match at(g, c) {
        Cell::Turret { direction, cooldown } => Cell::Turret {
            direction,
            cooldown: if cooldown > 0 {
                (cooldown - 1) as u8
            } else {
                2
            },
        },
        Cell::Bullet { on_target, .. } => if on_target {
            Cell::Target
        } else {
            Cell::Empty
        },
        Cell::Empty => match incoming(g, c) {
            Some(d) => Cell::Bullet { direction: d, on_target: false },
            None => Cell::Empty,
        },
        Cell::Player { on_target, hp } => if incoming(g, c) is Some {
            if hp > 1 {
                Cell::Player { on_target, hp: (hp - 1) as u8 }
            } else {
                Cell::Empty
            }
        } else {
            Cell::Player { on_target, hp }
        },
        other => other,
    }
}

/// The whole next generation of a grid.
pub open spec fn ticked(g: Seq<Seq<Cell>>) -> Seq<Seq<Cell>> {
    Seq::new(
        g.len(),
        |i: int| Seq::new(g[i].len(), |j: int| next_cell(g, Coord(j as u16, i as u16))),
    )
}

/// `b` is `a` one tick later.
pub open spec fn after_tick(a: Level, b: Level) -> bool {
    &&& b.level_state@ == ticked(a.level_state@)
    &&& b.player_location == a.player_location
    &&& b.move_counter == a.move_counter
    &&& b.remaining_boxes == a.remaining_boxes
}

fn opposite_of(d: Direction) -> (r: Direction)
    ensures
        r == opposite(d),
{
    match d {
        Direction::Up => Direction::Down,
        Direction::Down => Direction::Up,
        Direction::Left => Direction::Right,
        Direction::Right => Direction::Left,
    }
}

fn shoots_into(grid: &Grid, c: Coord, d: Direction) -> (r: bool)
    ensures
        r == shot_along(grid@, c, d),
{
    let from = match c.step(opposite_of(d), 1) {
        Some(s) => s,
        None => {
            return false;
        },
    };
    match grid.cell(from) {
        Some(Cell::Bullet { direction, .. }) => direction == d,
        Some(Cell::Turret { direction, cooldown }) => cooldown == 0 && direction == d,
        _ => false,
    }
}

fn incoming_shot(grid: &Grid, c: Coord) -> (r: Option<Direction>)
    ensures
        r == incoming(grid@, c),
{
    if shoots_into(grid, c, Direction::Up) {
        Some(Direction::Up)
    } else if shoots_into(grid, c, Direction::Down) {
        Some(Direction::Down)
    } else if shoots_into(grid, c, Direction::Left) {
        Some(Direction::Left)
    } else if shoots_into(grid, c, Direction::Right) {
        Some(Direction::Right)
    } else {
        None
    }
}

fn tick_cell(grid: &Grid, c: Coord) -> (r: Cell)
    requires
        in_bounds(grid@, c),
    ensures
        r == next_cell(grid@, c),
{
    match grid.0[c.1 as usize][c.0 as usize] {
        Cell::Turret { direction, cooldown } => Cell::Turret {
            direction,
            cooldown: if cooldown > 0 {
                cooldown - 1
            } else {
                2
            },
        },
        Cell::Bullet { on_target, .. } => if on_target {
            Cell::Target
        } else {
            Cell::Empty
        },
        Cell::Empty => match incoming_shot(grid, c) {
            Some(d) => Cell::Bullet { direction: d, on_target: false },
            None => Cell::Empty,
        },
        Cell::Player { on_target, hp } => if incoming_shot(grid, c).is_some() {
            if hp > 1 {
                Cell::Player { on_target, hp: hp - 1 }
            } else {
                Cell::Empty
            }
        } else {
            Cell::Player { on_target, hp }
        },
        other => other,
    }
}

impl Level {
    /// Advances turrets and bullets by one fixed tick. Every cell of the next
    /// generation is computed from the current one only, then the whole grid
    /// is replaced.
    pub fn advance_world(&mut self)
        requires
            old(self).wf(),
        ensures
            final(self).wf(),
            after_tick(*old(self), *final(self)),
    {
        let ghost g = self.level_state@;
        let mut next: Vec<Vec<Cell>> = Vec::new();
        let mut i: usize = 0;
        while i < self.level_state.0.len()
            invariant
                g == self.level_state@,
                well_shaped(g),
                i <= g.len(),
                next@.len() == i,
                forall|k: int| 0 <= k < i ==> (#[trigger] next@[k])@ == ticked(g)[k],
            decreases g.len() - i,
        {
            let mut row: Vec<Cell> = Vec::new();
            let mut j: usize = 0;
            while j < self.level_state.0[i].len()
                invariant
                    g == self.level_state@,
                    well_shaped(g),
                    i < g.len(),
                    j <= g[i as int].len(),
                    row@.len() == j,
                    forall|k: int|
                        0 <= k < j ==> #[trigger] row@[k] == next_cell(
                            g,
                            Coord(k as u16, i as u16),
                        ),
                decreases g[i as int].len() - j,
            {
                proof {
                    assert(g[i as int].len() == g[0].len());
                }
                let v = tick_cell(&self.level_state, Coord(j as u16, i as u16));
                row.push(v);
                j += 1;
            }
            assert(row@ =~= ticked(g)[i as int]);
            next.push(row);
            i += 1;
        }
        self.level_state = Grid(next);
        proof {
            assert(self.level_state@ =~= ticked(g));
            lemma_ticked_invariant(g, self.player_location);
        }
    }
}

/// A tick keeps the shape, makes no new player and keeps every unlocked box.
pub proof fn lemma_ticked_invariant(g: Seq<Seq<Cell>>, p: Coord)
    requires
        well_shaped(g),
        in_bounds(g, p),
        grid_count(g, players()) == ind(at(g, p) is Player),
    ensures
        well_shaped(ticked(g)),
        same_shape(ticked(g), g),
        in_bounds(ticked(g), p),
        grid_count(ticked(g), players()) == ind(at(ticked(g), p) is Player),
        grid_count(ticked(g), unlocked_boxes()) == grid_count(g, unlocked_boxes()),
{
    let t = ticked(g);
    assert forall|i: int| 0 <= i < t.len() implies #[trigger] t[i].len() == t[0].len() by {
        assert(g[i].len() == g[0].len());
    }
    assert forall|i: int, j: int| 0 <= i < t.len() && 0 <= j < t[i].len() implies
        unlocked_boxes()(#[trigger] t[i][j]) == unlocked_boxes()(g[i][j]) by {
        let c = Coord(j as u16, i as u16);
        assert(at(g, c) == g[i][j]);
    }
    lemma_grid_count_agree(t, g, unlocked_boxes());
    // only the cell at `p` may hold a player before the tick, hence after it
    assert forall|i: int, j: int|
        0 <= i < t.len() && 0 <= j < t[i].len() && !(i == p.1 && j == p.0) implies !players()(
        #[trigger] t[i][j],
    ) by {
        let c = Coord(j as u16, i as u16);
        assert(at(g, c) == g[i][j]);
        if g[i][j] is Player {
            lemma_grid_count_update(g, p, Cell::Empty, players());
            lemma_put(g, p, Cell::Empty);
            lemma_grid_count_some(put(g, p, Cell::Empty), c, players());
        }
    }
    lemma_grid_count_single(t, p, players());
}

} // verus!
