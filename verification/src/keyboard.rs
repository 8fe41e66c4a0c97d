//! Keys by their position on the keyboard.
use vstd::prelude::*;

verus! {

/// The position of the key `A`, in the numbering of the USB keyboard page.
pub const KEY_A: i32 = 4;

/// The position of the key `D`.
pub const KEY_D: i32 = 7;

/// The position of the key `S`.
pub const KEY_S: i32 = 22;

/// The position of the key `W`.
pub const KEY_W: i32 = 26;

/// The position of the right arrow key.
pub const KEY_RIGHT: i32 = 79;

/// The position of the left arrow key.
pub const KEY_LEFT: i32 = 80;

/// The position of the down arrow key.
pub const KEY_DOWN: i32 = 81;

/// The position of the up arrow key.
pub const KEY_UP: i32 = 82;

/// A key, named by the number of its position.
#[derive(Clone, Copy, Debug, PartialEq, Eq, Structural)]
pub struct Scancode {
    pub code: i32,
}

impl Scancode {
    /// Whether the key steers to the left: `A` or the left arrow.
    pub open spec fn steers_left(self) -> bool {
        self.code == KEY_A || self.code == KEY_LEFT
    }

    /// Whether the key steers to the right: `D` or the right arrow.
    pub open spec fn steers_right(self) -> bool {
        self.code == KEY_D || self.code == KEY_RIGHT
    }

    /// Whether the key steers upwards: `W` or the up arrow.
    pub open spec fn steers_up(self) -> bool {
        self.code == KEY_W || self.code == KEY_UP
    }

    /// Whether the key steers downwards: `S` or the down arrow.
    pub open spec fn steers_down(self) -> bool {
        self.code == KEY_S || self.code == KEY_DOWN
    }

    /// Whether the key is one of the eight that steer.
    pub open spec fn steers(self) -> bool {
        self.steers_left() || self.steers_right() || self.steers_up() || self.steers_down()
    }
}

} // verus!
