use std::ops::ControlFlow;

use sokoban::{
    frame_wait, ticks_due, App, Cell, Coord, CurrentScreen, Direction, Grid, Key, KeyBind,
    MenuItem, Offset, LEVEL_COUNT, TICK_NANOS,
};

#[test]
fn accumulator_drains_whole_ticks() {
    assert_eq!(ticks_due(0, 0), (0, 0));
    assert_eq!(ticks_due(0, 16_000_000), (0, 16_000_000));
    assert_eq!(ticks_due(40_000_000, 16_000_000), (1, 6_000_000));
    assert_eq!(ticks_due(10_000_000, 140_000_000), (3, 0));
    assert_eq!(ticks_due(TICK_NANOS - 1, 1), (1, 0));
}

#[test]
fn frame_wait_never_goes_negative() {
    assert_eq!(frame_wait(16_000_000, 5_000_000), 11_000_000);
    assert_eq!(frame_wait(16_000_000, 16_000_000), 0);
    assert_eq!(frame_wait(16_000_000, 90_000_000), 0);
}

fn game_level(app: &App) -> &sokoban::Level {
    match &app.current_screen {
        CurrentScreen::Game(l) => l,
        CurrentScreen::Menu(_) => panic!("expected a level on screen"),
    }
}

fn menu_item(app: &App) -> MenuItem {
    match &app.current_screen {
        CurrentScreen::Menu(m) => *m,
        CurrentScreen::Game(_) => panic!("expected the menu"),
    }
}

#[test]
fn menu_cycles_both_ways() {
    assert_eq!(MenuItem::Play.next(), MenuItem::Options);
    assert_eq!(MenuItem::Options.next(), MenuItem::Quit);
    assert_eq!(MenuItem::Quit.next(), MenuItem::Play);
    assert_eq!(MenuItem::Play.prev(), MenuItem::Quit);
    assert_eq!(MenuItem::Quit.prev(), MenuItem::Options);
    assert_eq!(MenuItem::Options.prev(), MenuItem::Play);
}

#[test]
fn key_events_map_to_intents() {
    assert_eq!(KeyBind::from_key(Key::Char('c'), false, true), KeyBind::Quit);
    assert_eq!(KeyBind::from_key(Key::Char('c'), true, false), KeyBind::NoAction);
    assert_eq!(KeyBind::from_key(Key::Esc, true, false), KeyBind::Quit);
    assert_eq!(KeyBind::from_key(Key::Char('q'), true, false), KeyBind::Quit);
    assert_eq!(KeyBind::from_key(Key::Up, true, false), KeyBind::Up);
    assert_eq!(KeyBind::from_key(Key::Char('w'), true, false), KeyBind::Up);
    assert_eq!(KeyBind::from_key(Key::Char('a'), true, false), KeyBind::Left);
    assert_eq!(KeyBind::from_key(Key::Down, true, false), KeyBind::Down);
    assert_eq!(KeyBind::from_key(Key::Char('d'), true, false), KeyBind::Right);
    assert_eq!(KeyBind::from_key(Key::Enter, true, false), KeyBind::Select);
    assert_eq!(KeyBind::from_key(Key::Char(' '), true, false), KeyBind::Select);
    assert_eq!(KeyBind::from_key(Key::Up, false, false), KeyBind::NoAction);
    assert_eq!(KeyBind::from_key(Key::Other, true, false), KeyBind::NoAction);
}

#[test]
fn intents_map_to_directions() {
    assert_eq!(Direction::from_keybind(KeyBind::Up), Direction::Up);
    assert_eq!(Direction::from_keybind(KeyBind::Down), Direction::Down);
    assert_eq!(Direction::from_keybind(KeyBind::Left), Direction::Left);
    assert_eq!(Direction::from_keybind(KeyBind::Right), Direction::Right);
}

#[test]
fn offsets_and_coordinates() {
    assert_eq!(Offset::from_direction(Direction::Up), Offset(0, -1));
    assert_eq!(Offset::from_direction(Direction::Right), Offset(1, 0));
    assert_eq!(Offset(1, -1).mul(2), Offset(2, -2));
    assert_eq!(Offset(i16::MAX, 3).mul(2), Offset(i16::MAX, 6));
    assert_eq!(Offset(i16::MIN, 1).neg(), Offset(i16::MAX, -1));
    assert_eq!(Coord(3, 4).add(Offset(-1, 2)), Some(Coord(2, 6)));
    assert_eq!(Coord(0, 4).add(Offset(-1, 0)), None);
    assert_eq!(Coord(u16::MAX, 0).add(Offset(1, 0)), None);
    assert_eq!(Coord(3, 4).sub(Offset(1, 1)), Some(Coord(2, 3)));
    assert_eq!(Coord(5, 5).step(Direction::Left, 2), Some(Coord(3, 5)));
    assert_eq!(Coord(5, 1).step(Direction::Up, 2), None);
    assert_eq!(Coord(5, 1).step(Direction::Up, -3), Some(Coord(5, 4)));
    assert_eq!(Coord(0, 0).step(Direction::Right, i16::MAX), Some(Coord(32767, 0)));
}

#[test]
fn cell_glyphs() {
    assert_eq!(Cell::Player { on_target: false, hp: 3 }.to_string(), "@@");
    assert_eq!(Cell::Player { on_target: true, hp: 1 }.to_string(), "@<");
    assert_eq!(Cell::Box { locked: false }.to_string(), "[]");
    assert_eq!(Cell::Box { locked: true }.to_string(), "░░");
    assert_eq!(Cell::Empty.to_string(), "  ");
    assert_eq!(Cell::Wall.to_string(), "██");
    assert_eq!(Cell::Target.to_string(), "><");
    assert_eq!(Cell::Turret { direction: Direction::Up, cooldown: 1 }.to_string(), "▟▙");
    assert_eq!(Cell::Turret { direction: Direction::Right, cooldown: 0 }.to_string(), "█┣");
    assert_eq!(Cell::Bullet { direction: Direction::Down, on_target: true }.to_string(), "🞀🞂");
}

#[test]
fn grid_helpers() {
    let p = Cell::Player { on_target: false, hp: 3 };
    let b = Cell::Box { locked: false };
    let mut grid = Grid(vec![vec![b, p], vec![b, Cell::Empty]]);
    assert_eq!(grid.bounds(), (2, 2));
    assert_eq!(grid.get(b), vec![Coord(0, 0), Coord(0, 1)]);
    assert_eq!(grid.count(b), 2);
    assert_eq!(grid.get_player(), Some(Coord(1, 0)));
    grid.wrap(Cell::Wall);
    assert_eq!(grid.bounds(), (4, 4));
    assert_eq!(grid.0[0], vec![Cell::Wall; 4]);
    assert_eq!(grid.0[1], vec![Cell::Wall, b, p, Cell::Wall]);
    assert_eq!(grid.count(Cell::Wall), 12);
    assert_eq!(grid.get_player(), Some(Coord(2, 1)));
    assert_eq!(grid.cell(Coord(4, 0)), None);
    grid.set(Coord(1, 1), Cell::Target);
    assert_eq!(grid.cell(Coord(1, 1)), Some(Cell::Target));
}

#[test]
fn catalog_has_two_levels() {
    let app = App::default();
    let first = app.select_level(0).unwrap();
    assert_eq!(first.level_state.bounds(), (7, 9));
    assert_eq!(first.player_location, Coord(3, 3));
    assert_eq!(first.remaining_boxes, 1);
    let second = app.select_level(1).unwrap();
    assert_eq!(second.level_state.bounds(), (11, 10));
    assert_eq!(second.player_location, Coord(3, 3));
    assert_eq!(second.remaining_boxes, 6);
    assert_eq!(second.move_counter, 0);
    assert!(app.select_level(LEVEL_COUNT).is_none());
}

#[test]
fn menu_navigation_and_quit() {
    let mut app = App::default();
    assert_eq!(menu_item(&app), MenuItem::Play);
    assert_eq!(app.process_input(KeyBind::Down), ControlFlow::Continue(()));
    assert_eq!(menu_item(&app), MenuItem::Options);
    assert_eq!(app.process_input(KeyBind::Select), ControlFlow::Continue(()));
    assert_eq!(menu_item(&app), MenuItem::Options);
    app.process_input(KeyBind::Down);
    assert_eq!(app.process_input(KeyBind::Select), ControlFlow::Break(false));
    app.process_input(KeyBind::Up);
    app.process_input(KeyBind::Up);
    assert_eq!(menu_item(&app), MenuItem::Play);
    assert_eq!(app.process_input(KeyBind::Quit), ControlFlow::Break(false));
}

#[test]
fn playing_through_the_first_level() {
    let mut app = App::default();
    app.process_input(KeyBind::Select);
    assert_eq!(app.next_level, 1);
    assert_eq!(game_level(&app).remaining_boxes, 1);
    // walk round the box and push it left onto the target
    for k in [KeyBind::Up, KeyBind::Right, KeyBind::Right, KeyBind::Right, KeyBind::Down] {
        assert_eq!(app.process_input(k), ControlFlow::Continue(()));
    }
    assert_eq!(game_level(&app).player_location, Coord(6, 3));
    app.update();
    assert_eq!(app.next_level, 1);
    app.process_input(KeyBind::Left);
    assert_eq!(game_level(&app).remaining_boxes, 0);
    assert_eq!(game_level(&app).move_counter, 5);
    app.update();
    assert_eq!(app.next_level, 2);
    assert_eq!(game_level(&app).remaining_boxes, 6);
    assert_eq!(app.process_input(KeyBind::Quit), ControlFlow::Break(false));
}

#[test]
fn exhausted_catalog_returns_to_menu() {
    let mut app = App::default();
    app.next_level = LEVEL_COUNT;
    app.next_level();
    assert_eq!(menu_item(&app), MenuItem::Play);
    assert_eq!(app.next_level, LEVEL_COUNT);
}

#[test]
fn fixed_update_ticks_only_a_level() {
    let mut app = App::default();
    app.fixed_update();
    assert_eq!(menu_item(&app), MenuItem::Play);
    app.next_level();
    let before = game_level(&app).level_state.0.clone();
    app.fixed_update();
    assert_eq!(game_level(&app).level_state.0, before);
    app.move_player(Direction::Right);
    assert_eq!(game_level(&app).move_counter, 1);
}

#[test]
fn catalog_lookahead_stays_inside() {
    let app = App::default();
    for n in 0..LEVEL_COUNT {
        let mut level = app.select_level(n).unwrap();
        let (rows, cols) = level.level_state.bounds();
        let dirs = [Direction::Up, Direction::Left, Direction::Down, Direction::Right];
        for step in 0..400usize {
            let d = dirs[(step * 7 + step / 5) % 4];
            for k in 1..=2 {
                let c = level.player_location.step(d, k).unwrap();
                assert!(c.0 < cols && c.1 < rows);
            }
            level.move_player(d);
        }
    }
}
