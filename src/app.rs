use vstd::prelude::*;

use std::ops::ControlFlow;

use crate::cell::Cell;
use crate::geometry::Direction;
use crate::grid::{
    Grid, at, grid_count, lemma_grid_count_single, lemma_wrapped_count, lemma_wrapped_shape,
    players, rectangular, unlocked_boxes, wrapped,
};
use crate::input::{KeyBind, direction_of};
use crate::level::{Level, MAX_SIDE, after_move, same_level};
use crate::world::after_tick;

verus! {

/// An entry of the main menu.
#[derive(Clone, Copy, Debug, PartialEq, Eq, Structural)]
pub enum MenuItem {
    Play,
    Options,
    Quit,
}

pub open spec fn menu_next(m: MenuItem) -> MenuItem {
    match m {
        MenuItem::Play => MenuItem::Options,
        MenuItem::Options => MenuItem::Quit,
        MenuItem::Quit => MenuItem::Play,
    }
}

pub open spec fn menu_prev(m: MenuItem) -> MenuItem {
    match m {
        MenuItem::Play => MenuItem::Quit,
        MenuItem::Quit => MenuItem::Options,
        MenuItem::Options => MenuItem::Play,
    }
}

impl MenuItem {
    /// The entry below, wrapping to the top.
    pub fn next(&self) -> (r: MenuItem)
        ensures
            r == menu_next(*self),
    {
        match self {
            MenuItem::Play => MenuItem::Options,
            MenuItem::Options => MenuItem::Quit,
            MenuItem::Quit => MenuItem::Play,
        }
    }

    /// The entry above, wrapping to the bottom.
    pub fn prev(&self) -> (r: MenuItem)
        ensures
            r == menu_prev(*self),
    {
        match self {
            MenuItem::Play => MenuItem::Quit,
            MenuItem::Quit => MenuItem::Options,
            MenuItem::Options => MenuItem::Play,
        }
    }
}

/// What the application shows: the menu with a selected entry, or a level.
#[derive(Debug)]
pub enum CurrentScreen {
    Menu(MenuItem),
    Game(Level),
}

/// The application's state: the screen, and the index of the level that
/// comes next from the catalog.
#[derive(Debug)]
pub struct App {
    pub current_screen: CurrentScreen,
    pub next_level: usize,
}

/// How many levels the catalog holds.
pub const LEVEL_COUNT: usize = 2;

/// The starting layout of catalog level `i`, before a level is made of it.
pub open spec fn catalog(i: int) -> Seq<Seq<Cell>> {
    let e = Cell::Empty;
    let w = Cell::Wall;
    let t = Cell::Target;
    let b = Cell::Box { locked: false };
    let l = Cell::Box { locked: true };
    let p = Cell::Player { on_target: false, hp: 3 };
    if i == 0 {
        wrapped(wrapped(seq![seq![p, t, b]], e), w)
    } else {
        seq![
            seq![e, e, w, w, w, w, w, e],
            seq![w, w, w, e, e, e, w, e],
            seq![w, t, p, b, e, e, w, e],
            seq![w, w, w, e, b, t, w, e],
            seq![w, t, w, w, b, e, w, e],
            seq![w, e, w, e, t, e, w, w],
            seq![w, b, e, l, b, b, t, w],
            seq![w, e, e, e, t, e, e, w],
            seq![w, w, w, w, w, w, w, w],
        ]
    }
}

/// `l` is catalog level `i` as it starts.
pub open spec fn fresh_level(l: Level, i: int) -> bool {
    &&& l.wf()
    &&& l.level_state@ == wrapped(catalog(i), Cell::Empty)
    &&& at(l.level_state@, l.player_location) is Player
    &&& l.move_counter == 0
    &&& l.remaining_boxes == grid_count(catalog(i), unlocked_boxes())
}

/// Two screens that show the same thing.
pub open spec fn same_screen(a: CurrentScreen, b: CurrentScreen) -> bool {
    match (a, b) {
        (CurrentScreen::Menu(x), CurrentScreen::Menu(y)) => x == y,
        (CurrentScreen::Game(x), CurrentScreen::Game(y)) => same_level(x, y),
        _ => false,
    }
}

/// `b` is `a`, unchanged.
pub open spec fn same_app(a: App, b: App) -> bool {
    same_screen(a.current_screen, b.current_screen) && a.next_level == b.next_level
}

/// `b` is `a` after the next catalog level was asked for: that level, fresh,
/// or the menu where the catalog is exhausted.
pub open spec fn advanced(a: App, b: App) -> bool {
    if a.next_level < LEVEL_COUNT {
        &&& b.current_screen matches CurrentScreen::Game(l) && fresh_level(l, a.next_level as int)
        &&& b.next_level == a.next_level + 1
    } else {
        &&& b.current_screen matches CurrentScreen::Menu(m) && m == MenuItem::Play
        &&& b.next_level == a.next_level
    }
}

fn catalog_grid(i: usize) -> (r: Option<Grid>)
    ensures
        r is Some <==> i < LEVEL_COUNT,
        r matches Some(g) ==> g@ == catalog(i as int),
{
    let e = Cell::Empty;
    let w = Cell::Wall;
    let t = Cell::Target;
    let b = Cell::Box { locked: false };
    let l = Cell::Box { locked: true };
    let p = Cell::Player { on_target: false, hp: 3 };
    if i == 0 {
        let mut grid = Grid(vec![vec![p, t, b]]);
        assert(grid@ =~= seq![seq![p, t, b]]);
        proof {
            lemma_wrapped_shape(grid@, e);
        }
        grid.wrap(e);
        grid.wrap(w);
        Some(grid)
    } else if i == 1 {
        let grid = Grid(
            vec![
                vec![e, e, w, w, w, w, w, e],
                vec![w, w, w, e, e, e, w, e],
                vec![w, t, p, b, e, e, w, e],
                vec![w, w, w, e, b, t, w, e],
                vec![w, t, w, w, b, e, w, e],
                vec![w, e, w, e, t, e, w, w],
                vec![w, b, e, l, b, b, t, w],
                vec![w, e, e, e, t, e, e, w],
                vec![w, w, w, w, w, w, w, w],
            ],
        );
        assert(grid@ =~= catalog(1));
        Some(grid)
    } else {
        None
    }
}

/// Each catalog level is rectangular, small, and holds one player.
pub proof fn lemma_catalog_valid(i: int)
    requires
        0 <= i < LEVEL_COUNT,
    ensures
        rectangular(catalog(i)),
        catalog(i).len() <= MAX_SIDE,
        catalog(i)[0].len() <= MAX_SIDE,
        grid_count(catalog(i), players()) == 1,
{
    let e = Cell::Empty;
    let w = Cell::Wall;
    let t = Cell::Target;
    let b = Cell::Box { locked: false };
    let p = Cell::Player { on_target: false, hp: 3 };
    if i == 0 {
        let g0 = seq![seq![p, t, b]];
        lemma_wrapped_shape(g0, e);
        lemma_wrapped_shape(wrapped(g0, e), w);
        lemma_wrapped_count(g0, e, players());
        lemma_wrapped_count(wrapped(g0, e), w, players());
        let c = crate::geometry::Coord(0, 0);
        lemma_grid_count_single(g0, c, players());
    } else {
        let g = catalog(1);
        assert(rectangular(g));
        let c = crate::geometry::Coord(2, 2);
        assert forall|y: int, x: int|
            0 <= y < g.len() && 0 <= x < g[y].len() && !(y == c.1 && x == c.0) implies !players()(
            #[trigger] g[y][x],
        ) by {}
        lemma_grid_count_single(g, c, players());
    }
}

/// In the second catalog level, an open cell off the outer ring has no open
/// neighbour on that ring.
pub proof fn lemma_level_one_fence(y: int, x: int, ny: int, nx: int)
    requires
        1 <= y <= 7,
        1 <= x <= 6,
        (ny == y && (nx == x - 1 || nx == x + 1)) || (nx == x && (ny == y - 1 || ny == y + 1)),
        !(catalog(1)[y][x] is Wall),
        !(catalog(1)[ny][nx] is Wall),
    ensures
        1 <= ny <= 7,
        1 <= nx <= 6,
{
}

impl App {
    /// The invariant: a level on screen is well formed.
    pub open spec fn wf(&self) -> bool {
        self.current_screen matches CurrentScreen::Game(l) ==> l.wf()
    }

    /// A fresh catalog level, or `None` past the last one.
    pub fn select_level(&self, level: usize) -> (r: Option<Level>)
        ensures
            r is Some <==> level < LEVEL_COUNT,
            r matches Some(l) ==> fresh_level(l, level as int),
    {
        let grid = match catalog_grid(level) {
            Some(g) => g,
            None => {
                return None;
            },
        };
        proof {
            lemma_catalog_valid(level as int);
        }
        Some(Level::from_grid(grid))
    }

    /// Puts the next catalog level on screen and counts it as taken; where the
    /// catalog is exhausted, returns to the menu.
    pub fn next_level(&mut self)
        ensures
            final(self).wf(),
            advanced(*old(self), *final(self)),
    {
        match self.select_level(self.next_level) {
            Some(l) => {
                self.current_screen = CurrentScreen::Game(l);
                self.next_level = self.next_level + 1;
            },
            None => {
                self.current_screen = CurrentScreen::Menu(MenuItem::Play);
            },
        }
    }

    /// Moves to the next level once the one on screen is complete.
    pub fn update(&mut self)
        requires
            old(self).wf(),
        ensures
            final(self).wf(),
            if old(self).current_screen matches CurrentScreen::Game(l) && l.remaining_boxes == 0 {
                advanced(*old(self), *final(self))
            } else {
                same_app(*old(self), *final(self))
            },
    {
        let complete = match &self.current_screen {
            CurrentScreen::Game(level) => level.is_complete(),
            CurrentScreen::Menu(_) => false,
        };
        if complete {
            self.next_level();
        }
    }

    /// Advances the world of the level on screen by one tick.
    pub fn fixed_update(&mut self)
        requires
            old(self).wf(),
        ensures
            final(self).wf(),
            final(self).next_level == old(self).next_level,
            match (old(self).current_screen, final(self).current_screen) {
                (CurrentScreen::Game(a), CurrentScreen::Game(b)) => after_tick(a, b),
                (CurrentScreen::Menu(x), CurrentScreen::Menu(y)) => x == y,
                _ => false,
            },
    {
        if let CurrentScreen::Game(level) = &mut self.current_screen {
            level.advance_world();
        }
    }

    /// Moves the player of the level on screen. Where a bullet destroyed the
    /// player, no move is made and the level stays as it is.
    pub fn move_player(&mut self, direction: Direction)
        requires
            old(self).wf(),
        ensures
            final(self).wf(),
            final(self).next_level == old(self).next_level,
            match (old(self).current_screen, final(self).current_screen) {
                (CurrentScreen::Game(a), CurrentScreen::Game(b)) => after_move(a, b, direction),
                (CurrentScreen::Menu(x), CurrentScreen::Menu(y)) => x == y,
                _ => false,
            },
    {
        if let CurrentScreen::Game(level) = &mut self.current_screen {
            if let Some(Cell::Player { .. }) = level.level_state.cell(level.player_location) {
                level.move_player(direction);
            }
        }
    }

    /// Applies one intent: menu navigation and selection, or a move in a
    /// level. `Break(false)` asks the caller to quit.
    pub fn process_input(&mut self, action: KeyBind) -> (r: ControlFlow<bool>)
        requires
            old(self).wf(),
        ensures
            final(self).wf(),
            r == ControlFlow::<bool>::Break(false) || r == ControlFlow::<bool>::Continue(()),
            match old(self).current_screen {
                CurrentScreen::Menu(m) => match action {
                    KeyBind::Quit => r is Break && same_app(*old(self), *final(self)),
                    KeyBind::Up => {
                        &&& r is Continue
                        &&& final(self).next_level == old(self).next_level
                        &&& (final(self).current_screen matches CurrentScreen::Menu(x) && x
                            == menu_prev(m))
                    },
                    KeyBind::Down => {
                        &&& r is Continue
                        &&& final(self).next_level == old(self).next_level
                        &&& (final(self).current_screen matches CurrentScreen::Menu(x) && x
                            == menu_next(m))
                    },
                    KeyBind::Select => match m {
                        MenuItem::Quit => r is Break && same_app(*old(self), *final(self)),
                        MenuItem::Options => r is Continue && same_app(*old(self), *final(self)),
                        MenuItem::Play => r is Continue && advanced(*old(self), *final(self)),
                    },
                    _ => r is Continue && same_app(*old(self), *final(self)),
                },
                CurrentScreen::Game(a) => match direction_of(action) {
                    Some(d) => {
                        &&& r is Continue
                        &&& final(self).next_level == old(self).next_level
                        &&& (final(self).current_screen matches CurrentScreen::Game(b) && after_move(
                            a,
                            b,
                            d,
                        ))
                    },
                    None => if action == KeyBind::Quit {
                        r is Break && same_app(*old(self), *final(self))
                    } else {
                        r is Continue && same_app(*old(self), *final(self))
                    },
                },
            },
    {
        match &self.current_screen {
            CurrentScreen::Menu(menu_item) => {
                let m = *menu_item;
                match action {
                    KeyBind::Quit => {
                        return ControlFlow::Break(false);
                    },
                    KeyBind::Up => {
                        self.current_screen = CurrentScreen::Menu(m.prev());
                    },
                    KeyBind::Down => {
                        self.current_screen = CurrentScreen::Menu(m.next());
                    },
                    KeyBind::Select => match m {
                        MenuItem::Quit => {
                            return ControlFlow::Break(false);
                        },
                        MenuItem::Options => {},
                        MenuItem::Play => {
                            self.next_level();
                        },
                    },
                    _ => {},
                }
                ControlFlow::Continue(())
            },
            CurrentScreen::Game(_) => {
                match action {
                    KeyBind::Up | KeyBind::Down | KeyBind::Left | KeyBind::Right => {
                        self.move_player(Direction::from_keybind(action));
                    },
                    KeyBind::Quit => {
                        return ControlFlow::Break(false);
                    },
                    _ => {},
                }
                ControlFlow::Continue(())
            },
        }
    }
}

impl Default for App {
    /// The menu, with Play selected and the first level next.
    fn default() -> (r: App)
        ensures
            r.current_screen matches CurrentScreen::Menu(m) && m == MenuItem::Play,
            r.next_level == 0,
    {
        App { current_screen: CurrentScreen::Menu(MenuItem::Play), next_level: 0 }
    }
}

} // verus!
