use vstd::prelude::*;

use crate::app::{LEVEL_COUNT, catalog, fresh_level, lemma_catalog_valid, lemma_level_one_fence};
use crate::cell::Cell;
use crate::geometry::{Coord, Direction, step_spec};
use crate::grid::{
    at, boxes, grid_count, in_bounds, lemma_grid_count_agree, lemma_grid_count_none,
    lemma_grid_count_some, lemma_grid_count_update, lemma_put, lemma_wrapped_at, lemma_wrapped_shape,
    players, put, same_shape, unlocked_boxes, well_shaped, wrapped,
};
use crate::level::{Level, after_move, lemma_move_spec, move_spec};
use crate::world::{after_tick, lemma_ticked_invariant, shot_along, ticked};

verus! {

/// A cell two or more cells from every edge: every lookahead of one or two
/// steps from it lands inside the grid.
pub open spec fn safe(g: Seq<Seq<Cell>>, c: Coord) -> bool {
    2 <= c.0 && c.0 + 2 < g[0].len() && 2 <= c.1 && c.1 + 2 < g.len()
}

/// Walls fence the safe cells: a step from a safe open cell to an open
/// neighbour stays among the safe cells.
pub open spec fn fenced(g: Seq<Seq<Cell>>) -> bool {
    forall|c: Coord, d: Direction|
        safe(g, c) && !(at(g, c) is Wall) && !(at(g, #[trigger] step_spec(c, d, 1)->Some_0) is Wall)
            ==> safe(g, step_spec(c, d, 1)->Some_0)
}

/// Grids of one shape with walls in the same places.
pub open spec fn same_walls(g: Seq<Seq<Cell>>, h: Seq<Seq<Cell>>) -> bool {
    &&& same_shape(g, h)
    &&& forall|c: Coord| in_bounds(g, c) ==> (#[trigger] at(h, c) is Wall) == (at(g, c) is Wall)
}

proof fn lemma_step_from_safe(g: Seq<Seq<Cell>>, c: Coord, d: Direction)
    requires
        well_shaped(g),
        safe(g, c),
    ensures
        in_bounds(g, c),
        step_spec(c, d, 1) is Some,
        in_bounds(g, step_spec(c, d, 1)->Some_0),
{
    assert(g[c.1 as int].len() == g[0].len());
    let n = step_spec(c, d, 1);
    match d {
        Direction::Up => assert(n == Some(Coord(c.0, (c.1 - 1) as u16))),
        Direction::Down => assert(n == Some(Coord(c.0, (c.1 + 1) as u16))),
        Direction::Left => assert(n == Some(Coord((c.0 - 1) as u16, c.1))),
        Direction::Right => assert(n == Some(Coord((c.0 + 1) as u16, c.1))),
    }
    assert(g[n->Some_0.1 as int].len() == g[0].len());
}

proof fn lemma_fenced_by_walls(g: Seq<Seq<Cell>>, h: Seq<Seq<Cell>>)
    requires
        well_shaped(g),
        fenced(g),
        same_walls(g, h),
    ensures
        fenced(h),
{
    assert forall|c: Coord, d: Direction|
        safe(h, c) && !(at(h, c) is Wall) && !(at(h, #[trigger] step_spec(c, d, 1)->Some_0) is Wall)
            implies safe(h, step_spec(c, d, 1)->Some_0) by {
        assert(h[0].len() == g[0].len());
        lemma_step_from_safe(g, c, d);
    }
}

/// Where walls fence a safe player in, it stays safe through every move and
/// every tick, since neither adds nor removes a wall; so no lookahead of the
/// player ever leaves the grid.
pub proof fn lemma_fenced_player_stays_safe(a: Level, b: Level, t: Level, d: Direction)
    requires
        a.wf(),
        fenced(a.level_state@),
        safe(a.level_state@, a.player_location),
        after_move(a, b, d),
        after_tick(a, t),
    ensures
        fenced(b.level_state@),
        safe(b.level_state@, b.player_location),
        fenced(t.level_state@),
        safe(t.level_state@, t.player_location),
{
    let g = a.level_state@;
    let p = a.player_location;
    lemma_move_spec(g, p, a.remaining_boxes as int, d);
    lemma_ticked_invariant(g, p);
    lemma_fenced_by_walls(g, b.level_state@);
    assert forall|c: Coord| in_bounds(g, c) implies (#[trigger] at(t.level_state@, c) is Wall) == (
    at(g, c) is Wall) by {
        assert(g[c.1 as int].len() == g[0].len());
    }
    lemma_fenced_by_walls(g, t.level_state@);
    let p2 = b.player_location;
    if p2 != p {
        assert(at(g, p) is Player);
        assert(!(at(g, step_spec(p, d, 1)->Some_0) is Wall));
    }
}

/// Both catalog levels start with walls fencing the player in, on a safe
/// cell; with the law above, no cell the player can reach in them ever looks
/// ahead beyond the grid.
pub proof fn lemma_catalog_fenced(l: Level, i: int)
    requires
        0 <= i < LEVEL_COUNT,
        fresh_level(l, i),
    ensures
        fenced(l.level_state@),
        safe(l.level_state@, l.player_location),
{
    let raw = catalog(i);
    let g = l.level_state@;
    lemma_catalog_valid(i);
    lemma_wrapped_shape(raw, Cell::Empty);
    let e = Cell::Empty;
    let g0 = seq![seq![Cell::Player { on_target: false, hp: 3 }, Cell::Target, Cell::Box { locked: false }]];
    if i == 0 {
        lemma_wrapped_shape(g0, e);
        lemma_wrapped_shape(wrapped(g0, e), Cell::Wall);
    }
    // the one player stands at (3, 3)
    let home = Coord(3, 3);
    lemma_wrapped_at(raw, e, home);
    if i == 0 {
        lemma_wrapped_at(wrapped(g0, e), Cell::Wall, Coord(2, 2));
        lemma_wrapped_at(g0, e, Coord(1, 1));
    }
    assert(at(g, home) is Player);
    if l.player_location != home {
        lemma_grid_count_update(g, l.player_location, e, players());
        lemma_put(g, l.player_location, e);
        lemma_grid_count_some(put(g, l.player_location, e), home, players());
    }
    assert forall|c: Coord, d: Direction|
        safe(g, c) && !(at(g, c) is Wall) && !(at(g, #[trigger] step_spec(c, d, 1)->Some_0) is Wall)
            implies safe(g, step_spec(c, d, 1)->Some_0) by {
        lemma_step_from_safe(g, c, d);
        let n = step_spec(c, d, 1)->Some_0;
        lemma_wrapped_at(raw, e, c);
        lemma_wrapped_at(raw, e, n);
        if i == 0 {
            if !safe(g, n) {
                let m = Coord((n.0 - 1) as u16, (n.1 - 1) as u16);
                lemma_wrapped_at(wrapped(g0, e), Cell::Wall, m);
            }
        } else {
            lemma_level_one_fence(c.1 - 1, c.0 - 1, n.1 - 1, n.0 - 1);
        }
    }
}

/// Moves and ticks write only inside the grid: the grid keeps its shape and
/// the player location stays inside it. A lookahead that would leave the grid
/// counts as a wall; from a safe cell both lookahead cells lie inside.
pub proof fn lemma_border_safety(l: Level, d: Direction)
    requires
        l.wf(),
    ensures
        same_shape(move_spec(l.level_state@, l.player_location, d).0, l.level_state@),
        in_bounds(
            move_spec(l.level_state@, l.player_location, d).0,
            move_spec(l.level_state@, l.player_location, d).1,
        ),
        same_shape(ticked(l.level_state@), l.level_state@),
        safe(l.level_state@, l.player_location) ==> forall|k: int|
            1 <= k <= 2 ==> (#[trigger] step_spec(l.player_location, d, k) matches Some(c)
                && in_bounds(l.level_state@, c)),
{
    let g = l.level_state@;
    let p = l.player_location;
    lemma_move_spec(g, p, l.remaining_boxes as int, d);
    lemma_ticked_invariant(g, p);
    if safe(g, p) {
        assert forall|k: int| 1 <= k <= 2 implies (#[trigger] step_spec(p, d, k) matches Some(c)
            && in_bounds(g, c)) by {
            let c = step_spec(p, d, k)->Some_0;
            assert(g[c.1 as int].len() == g[0].len());
        }
    }
}

/// A level that has its player keeps exactly one player, at its cached
/// location, through any move.
pub proof fn lemma_single_player(a: Level, b: Level, d: Direction)
    requires
        a.wf(),
        at(a.level_state@, a.player_location) is Player,
        after_move(a, b, d),
    ensures
        b.wf(),
        at(b.level_state@, b.player_location) is Player,
        grid_count(b.level_state@, players()) == 1,
{
    lemma_move_spec(a.level_state@, a.player_location, a.remaining_boxes as int, d);
}

/// A move never changes how many boxes there are, locked and unlocked together.
pub proof fn lemma_move_keeps_boxes(a: Level, b: Level, d: Direction)
    requires
        a.wf(),
        after_move(a, b, d),
    ensures
        grid_count(b.level_state@, boxes()) == grid_count(a.level_state@, boxes()),
{
    lemma_move_spec(a.level_state@, a.player_location, a.remaining_boxes as int, d);
}

/// A tick never changes how many boxes there are.
pub proof fn lemma_tick_keeps_boxes(a: Level, b: Level)
    requires
        a.wf(),
        after_tick(a, b),
    ensures
        grid_count(b.level_state@, boxes()) == grid_count(a.level_state@, boxes()),
{
    let g = a.level_state@;
    let t = ticked(g);
    lemma_ticked_invariant(g, a.player_location);
    assert forall|i: int, j: int| 0 <= i < t.len() && 0 <= j < t[i].len() implies boxes()(
        #[trigger] t[i][j],
    ) == boxes()(g[i][j]) by {
        assert(at(g, Coord(j as u16, i as u16)) == g[i][j]);
    }
    lemma_grid_count_agree(t, g, boxes());
}

/// In a well-formed level the remaining-box counter is zero exactly when no
/// box is off target.
pub proof fn lemma_complete_iff_no_loose_box(l: Level)
    requires
        l.wf(),
    ensures
        l.remaining_boxes == 0 <==> forall|c: Coord|
            in_bounds(l.level_state@, c) ==> at(l.level_state@, c) != (Cell::Box { locked: false }),
{
    let g = l.level_state@;
    if l.remaining_boxes == 0 {
        assert forall|c: Coord| in_bounds(g, c) implies at(g, c) != (Cell::Box { locked: false }) by {
            if at(g, c) == (Cell::Box { locked: false }) {
                lemma_grid_count_some(g, c, unlocked_boxes());
            }
        }
    }
    if forall|c: Coord| in_bounds(g, c) ==> at(g, c) != (Cell::Box { locked: false }) {
        assert forall|i: int, j: int| 0 <= i < g.len() && 0 <= j < g[i].len() implies !unlocked_boxes()(
            #[trigger] g[i][j],
        ) by {
            let c = Coord(j as u16, i as u16);
            assert(g[i].len() == g[0].len());
            assert(in_bounds(g, c));
        }
        lemma_grid_count_none(g, unlocked_boxes());
    }
}

/// The remaining-box counter follows every move and every tick: afterwards
/// it still equals the number of boxes off target.
pub proof fn lemma_counter_consistency(a: Level, b: Level, c: Level, d: Direction)
    requires
        a.wf(),
        after_move(a, b, d),
        after_tick(a, c),
    ensures
        b.remaining_boxes == grid_count(b.level_state@, unlocked_boxes()),
        c.remaining_boxes == grid_count(c.level_state@, unlocked_boxes()),
{
    lemma_move_spec(a.level_state@, a.player_location, a.remaining_boxes as int, d);
    lemma_ticked_invariant(a.level_state@, a.player_location);
}

/// A tick depends on the grid alone: two levels with the same grid have the
/// same grid one tick later.
pub proof fn lemma_tick_deterministic(a: Level, a2: Level, b: Level, b2: Level)
    requires
        a.level_state@ == b.level_state@,
        after_tick(a, a2),
        after_tick(b, b2),
    ensures
        a2.level_state@ == b2.level_state@,
{
}

/// No bullet stays where it was for two ticks in a row, and a bullet after a
/// tick stands on a cell that was empty, one step from the cell that shot it.
pub proof fn lemma_bullet_lifecycle(a: Level, b: Level, c: Coord)
    requires
        a.wf(),
        after_tick(a, b),
        in_bounds(a.level_state@, c),
    ensures
        at(a.level_state@, c) is Bullet ==> !(at(b.level_state@, c) is Bullet),
        at(b.level_state@, c) matches Cell::Bullet { direction, .. } ==> at(a.level_state@, c)
            is Empty && shot_along(a.level_state@, c, direction),
{
}

} // verus!
