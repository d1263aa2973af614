use sokoban::{Cell, Coord, Direction, Grid, Level};

const P3: Cell = Cell::Player { on_target: false, hp: 3 };
const LOOSE: Cell = Cell::Box { locked: false };
const LOCKED: Cell = Cell::Box { locked: true };

fn level_of(rows: Vec<Vec<Cell>>) -> Level {
    Level::from_grid(Grid(rows))
}

fn at(l: &Level, x: u16, y: u16) -> Cell {
    l.level_state.cell(Coord(x, y)).unwrap()
}

fn count_boxes(l: &Level) -> usize {
    l.level_state.count(LOOSE) + l.level_state.count(LOCKED)
}

#[test]
fn scenario_player_steps_onto_target() {
    let mut grid = Grid(vec![vec![P3, Cell::Target, LOOSE]]);
    grid.wrap(Cell::Empty);
    grid.wrap(Cell::Wall);
    let mut level = level_of(grid.0);
    assert_eq!(level.player_location, Coord(3, 3));
    assert_eq!(level.remaining_boxes, 1);
    assert_eq!(level.move_counter, 0);
    level.move_player(Direction::Right);
    assert_eq!(at(&level, 3, 3), Cell::Empty);
    assert_eq!(at(&level, 4, 3), Cell::Player { on_target: true, hp: 3 });
    assert_eq!(at(&level, 5, 3), LOOSE);
    assert_eq!(level.player_location, Coord(4, 3));
    assert_eq!(level.move_counter, 1);
    assert_eq!(level.remaining_boxes, 1);
}

#[test]
fn push_onto_target_locks_box() {
    let mut level = level_of(vec![vec![Cell::Target, LOOSE, P3]]);
    assert_eq!(level.remaining_boxes, 1);
    level.move_player(Direction::Left);
    assert_eq!(at(&level, 1, 1), LOCKED);
    assert_eq!(at(&level, 2, 1), Cell::Empty);
    assert_eq!(at(&level, 3, 1), P3);
    assert_eq!(level.player_location, Coord(3, 1));
    assert_eq!(level.remaining_boxes, 0);
    assert_eq!(level.move_counter, 0);
    assert!(level.is_complete());
}

#[test]
fn push_slides_loose_box() {
    let mut level = level_of(vec![vec![P3, LOOSE, Cell::Empty]]);
    level.move_player(Direction::Right);
    assert_eq!(at(&level, 1, 1), P3);
    assert_eq!(at(&level, 2, 1), Cell::Empty);
    assert_eq!(at(&level, 3, 1), LOOSE);
    assert_eq!(level.move_counter, 0);
    assert_eq!(level.remaining_boxes, 1);
}

#[test]
fn push_unlocks_box_onto_empty() {
    let mut level = level_of(vec![vec![P3, LOCKED, Cell::Empty]]);
    assert_eq!(level.remaining_boxes, 0);
    level.move_player(Direction::Right);
    assert_eq!(at(&level, 2, 1), Cell::Target);
    assert_eq!(at(&level, 3, 1), LOOSE);
    assert_eq!(level.remaining_boxes, 1);
}

#[test]
fn push_locked_box_onto_target_keeps_counter() {
    let mut level = level_of(vec![vec![P3, LOCKED, Cell::Target]]);
    level.move_player(Direction::Right);
    assert_eq!(at(&level, 2, 1), Cell::Target);
    assert_eq!(at(&level, 3, 1), LOCKED);
    assert_eq!(level.remaining_boxes, 0);
}

#[test]
fn scenario_push_into_wall_changes_nothing() {
    let mut level = level_of(vec![vec![P3, LOOSE, Cell::Wall]]);
    level.move_player(Direction::Right);
    assert_eq!(at(&level, 1, 1), P3);
    assert_eq!(at(&level, 2, 1), LOOSE);
    assert_eq!(at(&level, 3, 1), Cell::Wall);
    assert_eq!(level.player_location, Coord(1, 1));
    assert_eq!(level.move_counter, 0);
    assert_eq!(level.remaining_boxes, 1);
}

#[test]
fn walking_off_target_leaves_target() {
    let mut level = level_of(vec![vec![Cell::Empty, Cell::Target, P3]]);
    level.move_player(Direction::Left);
    level.move_player(Direction::Left);
    assert_eq!(at(&level, 2, 1), Cell::Target);
    assert_eq!(at(&level, 1, 1), P3);
    assert_eq!(level.move_counter, 2);
}

#[test]
fn moving_past_the_border_is_blocked() {
    let mut level = level_of(vec![vec![P3]]);
    assert_eq!(level.player_location, Coord(1, 1));
    level.move_player(Direction::Up);
    assert_eq!(level.player_location, Coord(1, 0));
    level.move_player(Direction::Up);
    assert_eq!(level.player_location, Coord(1, 0));
    assert_eq!(level.move_counter, 1);
    level.move_player(Direction::Left);
    level.move_player(Direction::Left);
    assert_eq!(level.player_location, Coord(0, 0));
    assert_eq!(level.move_counter, 2);
    assert_eq!(at(&level, 0, 0), P3);
}

#[test]
fn box_at_border_cannot_be_pushed_out() {
    let mut level = level_of(vec![vec![LOOSE, P3]]);
    level.move_player(Direction::Left);
    assert_eq!(at(&level, 0, 1), LOOSE);
    assert_eq!(at(&level, 1, 1), Cell::Empty);
    level.move_player(Direction::Left);
    assert_eq!(level.player_location, Coord(1, 1));
    level.move_player(Direction::Left);
    assert_eq!(at(&level, 0, 1), LOOSE);
    assert_eq!(level.player_location, Coord(1, 1));
    assert_eq!(level.move_counter, 1);
}

#[test]
fn box_total_is_kept_by_moves() {
    let mut level = level_of(vec![
        vec![Cell::Target, LOOSE, P3, LOCKED, Cell::Empty],
        vec![Cell::Empty, Cell::Empty, LOOSE, Cell::Target, Cell::Empty],
    ]);
    let before = count_boxes(&level);
    assert_eq!(before, 3);
    let moves = [
        Direction::Left,
        Direction::Right,
        Direction::Down,
        Direction::Right,
        Direction::Up,
        Direction::Left,
    ];
    for d in moves {
        level.move_player(d);
        assert_eq!(count_boxes(&level), before);
        assert_eq!(level.remaining_boxes, level.level_state.count(LOOSE));
    }
}

#[test]
fn counter_matches_loose_boxes() {
    let mut level = level_of(vec![vec![P3, LOOSE, Cell::Target, LOOSE, Cell::Target]]);
    assert_eq!(level.remaining_boxes, 2);
    level.move_player(Direction::Right);
    assert_eq!(level.remaining_boxes, 1);
    assert_eq!(level.level_state.count(LOOSE), 1);
    assert!(!level.is_complete());
}

#[test]
fn single_player_after_construction_and_moves() {
    let mut level = level_of(vec![vec![Cell::Empty, P3, Cell::Target]]);
    assert_eq!(level.level_state.get(P3).len(), 1);
    level.move_player(Direction::Right);
    assert_eq!(level.level_state.count(P3), 0);
    assert_eq!(level.level_state.count(Cell::Player { on_target: true, hp: 3 }), 1);
    assert_eq!(level.level_state.get_player(), Some(level.player_location));
}

#[test]
fn source_grid_checks() {
    let ragged = Grid(vec![vec![P3, Cell::Empty], vec![Cell::Empty]]);
    assert!(!ragged.is_rectangular());
    assert!(!Grid(vec![]).is_rectangular());
    let two = Grid(vec![vec![P3, Cell::Empty, P3]]);
    assert!(two.is_rectangular());
    assert_eq!(two.player_count(), 2);
    assert_eq!(Grid(vec![vec![Cell::Empty, LOOSE]]).player_count(), 0);
}

#[test]
fn level_wraps_source_in_empty_cells() {
    let level = level_of(vec![vec![P3, LOOSE]]);
    assert_eq!(level.level_state.bounds(), (3, 4));
    assert_eq!(level.level_state.count(Cell::Empty), 10);
    assert_eq!(level.player_location, Coord(1, 1));
    assert_eq!(level.move_counter, 0);
    assert_eq!(level.remaining_boxes, 1);
}

#[test]
fn move_counter_saturates_and_pushes_still_count() {
    let mut level = level_of(vec![vec![P3, Cell::Empty, LOOSE, Cell::Target]]);
    level.move_counter = usize::MAX;
    level.move_player(Direction::Right);
    assert_eq!(level.move_counter, usize::MAX);
    assert_eq!(level.player_location, Coord(2, 1));
    level.move_player(Direction::Right);
    assert_eq!(at(&level, 4, 1), LOCKED);
    assert_eq!(level.remaining_boxes, 0);
}
