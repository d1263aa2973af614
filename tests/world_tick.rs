use sokoban::{Cell, Coord, Direction, Grid, Level};

const P3: Cell = Cell::Player { on_target: false, hp: 3 };

fn level_of(rows: Vec<Vec<Cell>>) -> Level {
    Level::from_grid(Grid(rows))
}

fn at(l: &Level, x: u16, y: u16) -> Cell {
    l.level_state.cell(Coord(x, y)).unwrap()
}

fn bullet(d: Direction) -> Cell {
    Cell::Bullet { direction: d, on_target: false }
}

#[test]
fn scenario_bullet_destroys_weak_player() {
    let weak = Cell::Player { on_target: false, hp: 1 };
    let mut level = level_of(vec![vec![bullet(Direction::Right), weak, Cell::Empty]]);
    level.advance_world();
    assert_eq!(at(&level, 1, 1), Cell::Empty);
    assert_eq!(at(&level, 2, 1), Cell::Empty);
    assert_eq!(at(&level, 3, 1), Cell::Empty);
    assert_eq!(level.level_state.get_player(), None);
}

#[test]
fn bullet_damages_strong_player() {
    let mut level = level_of(vec![vec![P3, bullet(Direction::Left)]]);
    level.advance_world();
    assert_eq!(at(&level, 1, 1), Cell::Player { on_target: false, hp: 2 });
    assert_eq!(at(&level, 2, 1), Cell::Empty);
}

#[test]
fn scenario_turret_fires_every_third_tick() {
    let turret = |c: u8| Cell::Turret { direction: Direction::Right, cooldown: c };
    let mut level = level_of(vec![vec![
        P3,
        Cell::Wall,
        turret(0),
        Cell::Empty,
        Cell::Empty,
        Cell::Empty,
        Cell::Empty,
    ]]);
    level.advance_world();
    assert_eq!(at(&level, 3, 1), turret(2));
    assert_eq!(at(&level, 4, 1), bullet(Direction::Right));
    level.advance_world();
    assert_eq!(at(&level, 3, 1), turret(1));
    assert_eq!(at(&level, 4, 1), Cell::Empty);
    assert_eq!(at(&level, 5, 1), bullet(Direction::Right));
    level.advance_world();
    assert_eq!(at(&level, 3, 1), turret(0));
    assert_eq!(at(&level, 6, 1), bullet(Direction::Right));
    level.advance_world();
    assert_eq!(at(&level, 3, 1), turret(2));
    assert_eq!(at(&level, 4, 1), bullet(Direction::Right));
    assert_eq!(at(&level, 7, 1), bullet(Direction::Right));
}

#[test]
fn bullet_never_stays_put() {
    let mut level = level_of(vec![
        vec![P3, Cell::Empty, Cell::Empty, Cell::Empty],
        vec![Cell::Empty, Cell::Empty, Cell::Empty, bullet(Direction::Up)],
        vec![Cell::Empty, bullet(Direction::Down), Cell::Empty, Cell::Empty],
    ]);
    level.advance_world();
    assert_eq!(at(&level, 4, 2), Cell::Empty);
    assert_eq!(at(&level, 4, 1), bullet(Direction::Up));
    assert_eq!(at(&level, 2, 3), Cell::Empty);
    assert_eq!(at(&level, 2, 4), bullet(Direction::Down));
    level.advance_world();
    assert_eq!(at(&level, 4, 1), Cell::Empty);
    assert_eq!(at(&level, 4, 0), bullet(Direction::Up));
    assert_eq!(at(&level, 2, 4), Cell::Empty);
    level.advance_world();
    assert_eq!(at(&level, 4, 0), Cell::Empty);
    assert_eq!(level.level_state.count(bullet(Direction::Up)), 0);
    assert_eq!(level.level_state.count(bullet(Direction::Down)), 0);
}

#[test]
fn bullet_leaving_target_restores_it() {
    let mut level = level_of(vec![vec![
        P3,
        Cell::Bullet { direction: Direction::Right, on_target: true },
        Cell::Wall,
    ]]);
    level.advance_world();
    assert_eq!(at(&level, 2, 1), Cell::Target);
    assert_eq!(at(&level, 3, 1), Cell::Wall);
}

#[test]
fn bullet_is_absorbed_by_box() {
    let b = Cell::Box { locked: false };
    let mut level = level_of(vec![vec![P3, bullet(Direction::Right), b]]);
    level.advance_world();
    assert_eq!(at(&level, 2, 1), Cell::Empty);
    assert_eq!(at(&level, 3, 1), b);
    assert_eq!(level.remaining_boxes, 1);
}

#[test]
fn tick_is_deterministic() {
    let rows = vec![
        vec![P3, Cell::Empty, bullet(Direction::Left)],
        vec![Cell::Turret { direction: Direction::Up, cooldown: 0 }, Cell::Empty, Cell::Target],
    ];
    let mut a = level_of(rows.clone());
    let mut b = level_of(rows);
    a.advance_world();
    b.advance_world();
    assert_eq!(a.level_state.0, b.level_state.0);
    a.advance_world();
    b.advance_world();
    assert_eq!(a.level_state.0, b.level_state.0);
}

#[test]
fn sweep_order_does_not_matter() {
    let mut level = level_of(vec![vec![
        bullet(Direction::Right),
        Cell::Empty,
        P3,
        Cell::Empty,
        bullet(Direction::Left),
    ]]);
    level.advance_world();
    assert_eq!(at(&level, 2, 1), bullet(Direction::Right));
    assert_eq!(at(&level, 4, 1), bullet(Direction::Left));
    level.advance_world();
    assert_eq!(at(&level, 3, 1), Cell::Player { on_target: false, hp: 2 });
}

#[test]
fn two_shots_at_one_cell_make_one_bullet() {
    let mut level = level_of(vec![vec![
        P3,
        bullet(Direction::Right),
        Cell::Empty,
        bullet(Direction::Left),
    ]]);
    level.advance_world();
    assert_eq!(at(&level, 3, 1), bullet(Direction::Left));
    assert_eq!(at(&level, 2, 1), Cell::Empty);
    assert_eq!(at(&level, 4, 1), Cell::Empty);
}
