use vstd::prelude::*;

use crate::geometry::Direction;

verus! {

/// What a key press asks of the game.
#[derive(Clone, Copy, Debug, PartialEq, Eq, Structural)]
pub enum KeyBind {
    Quit,
    Up,
    Down,
    Left,
    Right,
    Select,
    NoAction,
}

/// The keys the game distinguishes.
#[derive(Clone, Copy, Debug, PartialEq, Eq, Structural)]
pub enum Key {
    Char(char),
    Esc,
    Enter,
    Up,
    Down,
    Left,
    Right,
    Other,
}

/// The intent of a key event. `pressed` tells a press from a repeat or a
/// release; `control_only` says that Control is the one modifier held.
pub open spec fn decode(key: Key, pressed: bool, control_only: bool) -> KeyBind {
    if control_only && key == Key::Char('c') {
        KeyBind::Quit
    } else if !pressed {
        KeyBind::NoAction
    } else {
        match key {
            Key::Esc | Key::Char('q') => KeyBind::Quit,
            Key::Up | Key::Char('w') => KeyBind::Up,
            Key::Left | Key::Char('a') => KeyBind::Left,
            Key::Down | Key::Char('s') => KeyBind::Down,
            Key::Right | Key::Char('d') => KeyBind::Right,
            Key::Enter | Key::Char(' ') => KeyBind::Select,
            _ => KeyBind::NoAction,
        }
    }
}

/// The direction a movement intent names.
pub open spec fn direction_of(k: KeyBind) -> Option<Direction> {
    match k {
        KeyBind::Up => Some(Direction::Up),
        KeyBind::Down => Some(Direction::Down),
        KeyBind::Left => Some(Direction::Left),
        KeyBind::Right => Some(Direction::Right),
        _ => None,
    }
}

impl KeyBind {
    /// Maps a key event to an intent: Control-C quits whatever the event's
    /// kind, other keys count only when pressed.
    pub fn from_key(key: Key, pressed: bool, control_only: bool) -> (r: KeyBind)
        ensures
            r == decode(key, pressed, control_only),
    {
        if control_only && key == Key::Char('c') {
            return KeyBind::Quit;
        }
        if pressed {
            match key {
                Key::Esc | Key::Char('q') => KeyBind::Quit,
                Key::Up | Key::Char('w') => KeyBind::Up,
                Key::Left | Key::Char('a') => KeyBind::Left,
                Key::Down | Key::Char('s') => KeyBind::Down,
                Key::Right | Key::Char('d') => KeyBind::Right,
                Key::Enter | Key::Char(' ') => KeyBind::Select,
                _ => KeyBind::NoAction,
            }
        } else {
            KeyBind::NoAction
        }
    }
}

impl Direction {
    /// The direction of a movement intent. Only the four movement intents
    /// name a direction.
    pub fn from_keybind(k: KeyBind) -> (r: Direction)
        requires
            direction_of(k) is Some,
        ensures
            direction_of(k) == Some(r),
    {
        match k {
            KeyBind::Up => Direction::Up,
            KeyBind::Down => Direction::Down,
            KeyBind::Left => Direction::Left,
            _ => Direction::Right,
        }
    }
}

} // verus!
