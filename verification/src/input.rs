//! What a key press does to the player's marker.

use vstd::prelude::*;

verus! {

/// The position of the player's marker.
#[derive(Clone, Copy, Debug, PartialEq, Eq, Hash, Structural)]
pub struct Point {
    pub x: u64,
    pub y: u64,
}

/// A key press, as far as the game tells keys apart.
#[derive(Clone, Copy, Debug, PartialEq, Eq, Hash, Structural)]
pub enum KeyPress {
    /// A character key.
    Char(char),
    /// The escape key.
    Esc,
    /// The up arrow.
    Up,
    /// The right arrow.
    Right,
    /// The down arrow.
    Down,
    /// The left arrow.
    Left,
    /// Any other key or event.
    Other,
}

/// What the program is to do after a key press.
#[derive(Clone, Copy, Debug, PartialEq, Eq, Hash, Structural)]
pub enum InputAction {
    /// Go on reading keys.
    Proceed,
    /// Stop listening: the `q` key was hit.
    QuitOnLetter,
    /// Stop listening: the escape key was hit.
    QuitOnEscape,
}

impl KeyPress {
    /// Whether the key raises `x`: `w` or the up arrow.
    pub open spec fn raises_x(self) -> bool {
        self == KeyPress::Char('w') || self == KeyPress::Up
    }

    /// Whether the key raises `y`: `a` or the right arrow.
    pub open spec fn raises_y(self) -> bool {
        self == KeyPress::Char('a') || self == KeyPress::Right
    }

    /// Whether the key lowers `x`: `s` or the down arrow.
    pub open spec fn lowers_x(self) -> bool {
        self == KeyPress::Char('s') || self == KeyPress::Down
    }

    /// Whether the key lowers `y`: `d` or the left arrow.
    pub open spec fn lowers_y(self) -> bool {
        self == KeyPress::Char('d') || self == KeyPress::Left
    }

    /// What the program is to do after the key.
    pub open spec fn action(self) -> InputAction {
        if self == KeyPress::Char('q') {
            InputAction::QuitOnLetter
        } else if self == KeyPress::Esc {
            InputAction::QuitOnEscape
        } else {
            InputAction::Proceed
        }
    }
}

/// Where the marker stands after a key press: one further along an axis for
/// a key that raises it, one back for a key that lowers it unless it is at 0
/// already, and where it was for every other key.
pub open spec fn moved(key: KeyPress, point: Point) -> Point {
    if key.raises_x() {
        Point { x: (point.x + 1) as u64, y: point.y }
    } else if key.raises_y() {
        Point { x: point.x, y: (point.y + 1) as u64 }
    } else if key.lowers_x() && point.x != 0 {
        Point { x: (point.x - 1) as u64, y: point.y }
    } else if key.lowers_y() && point.y != 0 {
        Point { x: point.x, y: (point.y - 1) as u64 }
    } else {
        point
    }
}

/// Handles one key press: returns what the program is to do next and where
/// the marker now stands. A key that raises a coordinate needs room above
/// it.
pub fn process_input_event(key_event: KeyPress, playerpoint: Point) -> (res: (InputAction, Point))
    requires
        key_event.raises_x() ==> playerpoint.x < u64::MAX,
        key_event.raises_y() ==> playerpoint.y < u64::MAX,
    ensures
        res.0 == key_event.action(),
        res.1 == moved(key_event, playerpoint),
{
    let mut playerpoint = playerpoint;
    let mut action = InputAction::Proceed;
    match key_event {
        KeyPress::Char(c) => {
            if c == 'q' {
                action = InputAction::QuitOnLetter;
            } else if c == 'w' {
                playerpoint.x += 1;
            } else if c == 'a' {
                playerpoint.y += 1;
            } else if c == 's' {
                if playerpoint.x != 0 {
                    playerpoint.x -= 1;
                }
            } else if c == 'd' {
                if playerpoint.y != 0 {
                    playerpoint.y -= 1;
                }
            }
        },
        KeyPress::Esc => {
            action = InputAction::QuitOnEscape;
        },
        KeyPress::Up => {
            playerpoint.x += 1;
        },
        KeyPress::Right => {
            playerpoint.y += 1;
        },
        KeyPress::Down => {
            if playerpoint.x != 0 {
                playerpoint.x -= 1;
            }
        },
        KeyPress::Left => {
            if playerpoint.y != 0 {
                playerpoint.y -= 1;
            }
        },
        KeyPress::Other => {},
    }
    (action, playerpoint)
}

} // verus!
